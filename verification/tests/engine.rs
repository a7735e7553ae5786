use placement::error::MyError;
use placement::grid::Cell;
use placement::item::{Item, Quality};
use placement::engine::Placement;
use placement::position::Position;

fn plain(id: u32, name: &str) -> Item {
    Item { id, name: name.to_string(), quantity: 1, quality: Quality::Normal }
}

fn wide(id: u32, name: &str, span: u32) -> Item {
    Item {
        id,
        name: name.to_string(),
        quantity: 1,
        quality: Quality::Oversized { continuous_zones: span },
    }
}

fn brittle(id: u32, name: &str, row: u32) -> Item {
    Item {
        id,
        name: name.to_string(),
        quantity: 1,
        quality: Quality::Fragile { expiration_date: [1, 1, 2030], row },
    }
}

fn taken(p: &Placement, at: Position) -> bool {
    p.storage().get(&at).unwrap().occupied
}

#[test]
fn added_item_is_listed_stored_and_marked() {
    let mut p = Placement::new();
    p.add_item(plain(1, "Item1")).unwrap();
    let sofa = wide(2, "Sofa", 3);
    assert_eq!(p.add_item(sofa.clone()), Ok(()));
    let list = p.position_search(2).unwrap();
    assert!(!list.is_empty());
    assert_eq!(p.storage().get(&list[0]), Some(&Cell::anchor(sofa.clone())));
    for at in &list {
        assert!(taken(&p, *at));
    }
    for at in &list[1..] {
        assert_eq!(p.storage().get(at), Some(&Cell::overhang()));
    }
    assert_eq!(p.id_search(2), Some(&sofa));
    assert_eq!(p.name_search("Sofa".to_string()), Some(&sofa));
}

#[test]
fn oversized_item_claims_its_span_on_one_shelf() {
    let mut p = Placement::new();
    p.add_item(plain(1, "Item1")).unwrap();
    p.add_item(wide(2, "Sofa", 4)).unwrap();
    assert_eq!(
        p.position_search(2),
        Some(vec![
            Position::new(0, 0, 1),
            Position::new(0, 0, 2),
            Position::new(0, 0, 3),
            Position::new(0, 0, 4),
        ])
    );
    assert!(!taken(&p, Position::new(0, 0, 5)));
}

#[test]
fn oversized_item_of_span_one_takes_one_slot() {
    let mut p = Placement::new();
    assert_eq!(p.add_item(wide(1, "Box", 1)), Ok(()));
    assert_eq!(p.position_search(1), Some(vec![Position::new(0, 0, 0)]));
    assert!(!taken(&p, Position::new(0, 0, 1)));
}

#[test]
fn oversized_item_of_full_shelf_width_fits() {
    let mut p = Placement::new();
    p.add_item(plain(1, "Item1")).unwrap();
    assert_eq!(p.add_item(wide(2, "Beam", 10)), Ok(()));
    let list = p.position_search(2).unwrap();
    assert_eq!(list.len(), 10);
    assert_eq!(list[0], Position::new(0, 1, 0));
    assert_eq!(list[9], Position::new(0, 1, 9));
}

#[test]
fn oversized_item_does_not_wrap_past_the_shelf_end() {
    let mut p = Placement::new();
    for id in 0..7 {
        p.add_item(plain(id, "Filler")).unwrap();
    }
    assert_eq!(p.add_item(wide(100, "Sofa", 4)), Ok(()));
    assert_eq!(
        p.position_search(100),
        Some(vec![
            Position::new(0, 1, 0),
            Position::new(0, 1, 1),
            Position::new(0, 1, 2),
            Position::new(0, 1, 3),
        ])
    );
    assert!(!taken(&p, Position::new(0, 0, 7)));
    assert_eq!(p.add_item(wide(101, "Stool", 3)), Ok(()));
    assert_eq!(p.position_search(101).unwrap()[0], Position::new(0, 0, 7));
}

#[test]
fn oversized_item_wider_than_a_shelf_finds_no_slot() {
    let mut p = Placement::new();
    let item = wide(1, "Mast", 11);
    assert_eq!(p.add_item(item.clone()), Err(MyError::FailedAllocation(item)));
    assert_eq!(p.id_search(1), None);
    assert!(!taken(&p, Position::new(0, 0, 0)));
}

#[test]
fn oversized_item_of_huge_span_finds_no_slot() {
    let mut p = Placement::new();
    let item = wide(1, "Mast", u32::MAX);
    assert_eq!(p.add_item(item.clone()), Err(MyError::FailedAllocation(item)));
}

#[test]
fn oversized_item_of_span_zero_finds_no_slot() {
    let mut p = Placement::new();
    let item = wide(1, "Nothing", 0);
    assert_eq!(p.add_item(item.clone()), Err(MyError::FailedAllocation(item)));
    assert_eq!(p.position_search(1), None);
    assert!(!taken(&p, Position::new(0, 0, 0)));
}

#[test]
fn whole_span_must_be_free_not_only_its_first_slot() {
    let mut p = Placement::new();
    p.add_item(plain(1, "Item1")).unwrap();
    p.add_item(plain(2, "Item2")).unwrap();
    p.remove_item(1).unwrap();
    assert!(!taken(&p, Position::new(0, 0, 0)));
    assert!(taken(&p, Position::new(0, 0, 1)));
    assert_eq!(p.add_item(wide(3, "Bench", 2)), Ok(()));
    assert_eq!(p.position_search(3), Some(vec![Position::new(0, 0, 2), Position::new(0, 0, 3)]));
    assert_eq!(p.position_search(2), Some(vec![Position::new(0, 0, 1)]));
    assert_eq!(p.storage().get(&Position::new(0, 0, 1)), Some(&Cell::anchor(plain(2, "Item2"))));
}

#[test]
fn no_run_of_free_slots_means_failed_allocation() {
    let mut p = Placement::new();
    let mut id = 0;
    for _ in 0..100 {
        p.add_item(wide(id, "Pair", 2)).unwrap();
        id += 1;
        p.add_item(plain(id, "Gap")).unwrap();
        id += 1;
        p.add_item(wide(id, "Pair", 2)).unwrap();
        id += 1;
        p.add_item(plain(id, "Gap")).unwrap();
        id += 1;
        p.add_item(wide(id, "Pair", 2)).unwrap();
        id += 1;
        p.add_item(wide(id, "Pair", 2)).unwrap();
        id += 1;
    }
    for shelf in 0..100u32 {
        p.remove_item(shelf * 6 + 1).unwrap();
        p.remove_item(shelf * 6 + 3).unwrap();
    }
    assert!(!taken(&p, Position::new(0, 0, 2)));
    assert!(!taken(&p, Position::new(9, 9, 5)));
    let item = wide(1000, "Bench", 2);
    assert_eq!(p.add_item(item.clone()), Err(MyError::FailedAllocation(item)));
    assert_eq!(p.add_item(plain(1001, "Pin")), Ok(()));
    assert_eq!(p.position_search(1001), Some(vec![Position::new(0, 0, 2)]));
}

#[test]
fn full_grid_means_failed_allocation() {
    let mut p = Placement::new();
    for id in 0..1000 {
        assert_eq!(p.add_item(plain(id, "Crate")), Ok(()));
    }
    assert_eq!(p.position_search(999), Some(vec![Position::new(9, 9, 9)]));
    assert_eq!(p.position_search(123), Some(vec![Position::new(1, 2, 3)]));
    let item = plain(1000, "Crate");
    assert_eq!(p.add_item(item.clone()), Err(MyError::FailedAllocation(item)));
    assert_eq!(p.alphabetical().len(), 1000);
}

#[test]
fn fragile_item_stays_below_its_row_limit() {
    let mut p = Placement::new();
    for id in 0..100 {
        p.add_item(plain(id, "Crate")).unwrap();
    }
    let vase = brittle(500, "Vase", 1);
    assert_eq!(p.add_item(vase.clone()), Err(MyError::FailedAllocation(vase)));
    assert_eq!(p.add_item(brittle(501, "Glass", 2)), Ok(()));
    assert_eq!(p.position_search(501), Some(vec![Position::new(1, 0, 0)]));
    assert_eq!(p.add_item(plain(502, "Brick")), Ok(()));
    assert_eq!(p.position_search(502), Some(vec![Position::new(1, 0, 1)]));
}

#[test]
fn fragile_item_with_row_limit_zero_finds_no_slot() {
    let mut p = Placement::new();
    let item = brittle(1, "Vase", 0);
    assert_eq!(p.add_item(item.clone()), Err(MyError::FailedAllocation(item)));
}

#[test]
fn known_identifier_is_refused_and_nothing_changes() {
    let mut p = Placement::new();
    let first = plain(1, "Item1");
    p.add_item(first.clone()).unwrap();
    let second = wide(1, "Other", 2);
    assert_eq!(p.add_item(second.clone()), Err(MyError::FailedAdd(second)));
    assert_eq!(p.id_search(1), Some(&first));
    assert_eq!(p.name_search("Other".to_string()), None);
    assert_eq!(p.position_search(1), Some(vec![Position::new(0, 0, 0)]));
    assert!(!taken(&p, Position::new(0, 0, 1)));
    assert_eq!(p.alphabetical(), vec![first]);
}

#[test]
fn filter_is_asked_before_slot_and_slot_before_identifier() {
    let mut p = Placement::new();
    p.add_item(plain(1, "Item1")).unwrap();
    let no_room = wide(1, "Mast", 11);
    assert_eq!(p.add_item(no_room.clone()), Err(MyError::FailedAllocation(no_room)));
    let mut filters: Vec<Box<dyn placement::filter::Filter>> = Vec::new();
    filters.push(Box::new(placement::filter::AvoidTooLarge { cutoff: 3 }));
    p.configure_filters(filters);
    let blocked = wide(1, "Mast", 11);
    assert_eq!(p.add_item(blocked.clone()), Err(MyError::BlockedByFilter(blocked)));
}

#[test]
fn removed_item_leaves_no_occupancy_behind() {
    let mut p = Placement::new();
    p.add_item(plain(1, "Item1")).unwrap();
    p.add_item(wide(2, "Sofa", 3)).unwrap();
    p.add_item(plain(3, "Item3")).unwrap();
    let old = p.position_search(2).unwrap();
    assert_eq!(p.remove_item(2), Ok(()));
    for at in &old {
        assert_eq!(p.storage().get(at), Some(&Cell::vacant()));
    }
    assert_eq!(p.id_search(2), None);
    assert_eq!(p.name_search("Sofa".to_string()), None);
    assert_eq!(p.position_search(2), None);
    assert!(taken(&p, Position::new(0, 0, 0)));
    assert!(taken(&p, Position::new(0, 0, 4)));
}

#[test]
fn removed_item_added_again_may_land_elsewhere() {
    let mut p = Placement::new();
    p.add_item(plain(1, "Item1")).unwrap();
    let sofa = wide(2, "Sofa", 3);
    p.add_item(sofa.clone()).unwrap();
    p.add_item(plain(3, "Item3")).unwrap();
    assert_eq!(p.position_search(2).unwrap()[0], Position::new(0, 0, 1));
    p.remove_item(2).unwrap();
    p.add_item(plain(4, "Item4")).unwrap();
    assert_eq!(p.position_search(4), Some(vec![Position::new(0, 0, 1)]));
    assert_eq!(p.add_item(sofa), Ok(()));
    assert_eq!(
        p.position_search(2),
        Some(vec![Position::new(0, 0, 5), Position::new(0, 0, 6), Position::new(0, 0, 7)])
    );
    assert!(!taken(&p, Position::new(0, 0, 2)));
    assert!(!taken(&p, Position::new(0, 0, 3)));
}

#[test]
fn removed_item_added_again_at_once_returns_to_its_slot() {
    let mut p = Placement::new();
    p.add_item(plain(1, "Item1")).unwrap();
    let sofa = wide(2, "Sofa", 3);
    p.add_item(sofa.clone()).unwrap();
    p.remove_item(2).unwrap();
    p.add_item(sofa).unwrap();
    assert_eq!(p.position_search(2).unwrap()[0], Position::new(0, 0, 1));
}

#[test]
fn removal_does_not_ask_the_filters() {
    let mut p = Placement::new();
    p.add_item(wide(1, "Beam", 8)).unwrap();
    let mut filters: Vec<Box<dyn placement::filter::Filter>> = Vec::new();
    filters.push(Box::new(placement::filter::AvoidTooLarge { cutoff: 3 }));
    p.configure_filters(filters);
    assert_eq!(p.remove_item(1), Ok(()));
    assert_eq!(p.alphabetical(), Vec::<Item>::new());
}

#[test]
fn configuring_filters_keeps_the_contents() {
    let mut p = Placement::new();
    let a = plain(1, "Item1");
    p.add_item(a.clone()).unwrap();
    p.configure_filters(Vec::new());
    assert_eq!(p.id_search(1), Some(&a));
    assert_eq!(p.position_search(1), Some(vec![Position::new(0, 0, 0)]));
}

#[test]
fn later_item_of_the_same_name_wins_the_name() {
    let mut p = Placement::new();
    let first = plain(1, "Twin");
    let second = plain(2, "Twin");
    p.add_item(first.clone()).unwrap();
    p.add_item(second.clone()).unwrap();
    assert_eq!(p.name_search("Twin".to_string()), Some(&second));
    assert_eq!(p.id_search(1), Some(&first));
    assert_eq!(p.id_search(2), Some(&second));
}

#[test]
fn removing_an_item_drops_the_entry_under_its_name() {
    let mut p = Placement::new();
    let first = plain(1, "Twin");
    let second = plain(2, "Twin");
    p.add_item(first).unwrap();
    p.add_item(second.clone()).unwrap();
    p.remove_item(1).unwrap();
    assert_eq!(p.name_search("Twin".to_string()), None);
    assert_eq!(p.id_search(2), Some(&second));
}

#[test]
fn names_are_looked_up_exactly() {
    let mut p = Placement::new();
    p.add_item(plain(1, "Item1")).unwrap();
    assert_eq!(p.name_search("item1".to_string()), None);
    assert_eq!(p.name_search("Item".to_string()), None);
    assert_eq!(p.name_search(String::new()), None);
}

#[test]
fn searches_find_nothing_in_an_empty_placement() {
    let p = Placement::new();
    assert_eq!(p.id_search(1), None);
    assert_eq!(p.name_search("Item1".to_string()), None);
    assert_eq!(p.position_search(1), None);
    assert_eq!(p.alphabetical(), Vec::<Item>::new());
}

#[test]
fn alphabetical_ignores_case() {
    let mut p = Placement::new();
    let banana = plain(1, "Banana");
    let apple = plain(2, "apple");
    let cherry = plain(3, "cherry");
    let date = plain(4, "Date");
    p.add_item(banana.clone()).unwrap();
    p.add_item(apple.clone()).unwrap();
    p.add_item(cherry.clone()).unwrap();
    p.add_item(date.clone()).unwrap();
    assert_eq!(p.alphabetical(), vec![apple, banana, cherry, date]);
}

#[test]
fn alphabetical_keeps_grid_order_among_level_names() {
    let mut p = Placement::new();
    let upper = plain(1, "APPLE");
    let lower = plain(2, "apple");
    let mixed = plain(3, "Apple");
    let first = plain(4, "Aardvark");
    p.add_item(upper.clone()).unwrap();
    p.add_item(lower.clone()).unwrap();
    p.add_item(mixed.clone()).unwrap();
    p.add_item(first.clone()).unwrap();
    assert_eq!(p.alphabetical(), vec![first, upper, lower, mixed]);
}

#[test]
fn alphabetical_lists_each_stored_item_once() {
    let mut p = Placement::new();
    p.add_item(wide(1, "Sofa", 3)).unwrap();
    p.add_item(plain(2, "Lamp")).unwrap();
    p.add_item(brittle(3, "Vase", 4)).unwrap();
    p.add_item(plain(4, "Desk")).unwrap();
    p.remove_item(2).unwrap();
    let list = p.alphabetical();
    assert_eq!(list.len(), 3);
    let names: Vec<&str> = list.iter().map(|item| item.name.as_str()).collect();
    assert_eq!(names, vec!["Desk", "Sofa", "Vase"]);
}

#[test]
fn alphabetical_puts_a_prefix_first() {
    let mut p = Placement::new();
    let long = plain(1, "Table");
    let short = plain(2, "Tab");
    p.add_item(long.clone()).unwrap();
    p.add_item(short.clone()).unwrap();
    assert_eq!(p.alphabetical(), vec![short, long]);
}
