use placement::error::MyError;
use placement::filter::{AvoidTooFragile, AvoidTooLarge, Filter};
use placement::grid::Cell;
use placement::item::{Item, Quality};
use placement::engine::Placement;
use placement::position::Position;

fn normal(id: u32, name: &str) -> Item {
    Item { id, name: name.to_string(), quantity: 1, quality: Quality::Normal }
}

fn oversized(id: u32, name: &str, span: u32) -> Item {
    Item {
        id,
        name: name.to_string(),
        quantity: 1,
        quality: Quality::Oversized { continuous_zones: span },
    }
}

fn fragile(id: u32, name: &str, date: [u32; 3], row: u32) -> Item {
    Item {
        id,
        name: name.to_string(),
        quantity: 1,
        quality: Quality::Fragile { expiration_date: date, row },
    }
}

fn reference_filters() -> Vec<Box<dyn Filter>> {
    let mut filters: Vec<Box<dyn Filter>> = Vec::new();
    filters.push(Box::new(AvoidTooLarge { cutoff: 3 }));
    filters.push(Box::new(AvoidTooFragile { cutoff: 2 }));
    filters
}

#[test]
fn empty_grid_anchors_normal_item_at_origin() {
    let mut p = Placement::new();
    assert_eq!(p.add_item(normal(1, "Item1")), Ok(()));
    assert_eq!(p.position_search(1), Some(vec![Position::new(0, 0, 0)]));
}

#[test]
fn empty_grid_anchors_fragile_item_at_origin() {
    let mut p = Placement::new();
    assert_eq!(p.add_item(fragile(1, "Eggs", [1, 1, 1999], 2)), Ok(()));
    assert_eq!(p.position_search(1), Some(vec![Position::new(0, 0, 0)]));
}

#[test]
fn empty_grid_anchors_oversized_item_at_origin() {
    let mut p = Placement::new();
    assert_eq!(p.add_item(oversized(1, "Sofa", 3)), Ok(()));
    assert_eq!(
        p.position_search(1),
        Some(vec![Position::new(0, 0, 0), Position::new(0, 0, 1), Position::new(0, 0, 2)])
    );
}

#[test]
fn second_normal_item_goes_to_the_next_zone() {
    let mut p = Placement::new();
    p.add_item(normal(1, "Item1")).unwrap();
    assert_eq!(p.add_item(normal(2, "Item2")), Ok(()));
    assert_eq!(p.position_search(2), Some(vec![Position::new(0, 0, 1)]));
}

#[test]
fn span_filter_blocks_span_four_at_cutoff_three() {
    let mut p = Placement::new();
    p.configure_filters(reference_filters());
    let item = oversized(1, "Wardrobe", 4);
    assert_eq!(p.add_item(item.clone()), Err(MyError::BlockedByFilter(item)));
    assert_eq!(p.id_search(1), None);
    assert_eq!(p.position_search(1), None);
    assert_eq!(p.storage().get(&Position::new(0, 0, 0)), Some(&Cell::vacant()));
}

#[test]
fn span_filter_passes_span_three_at_cutoff_three() {
    let mut p = Placement::new();
    p.configure_filters(reference_filters());
    assert_eq!(p.add_item(oversized(1, "Sofa", 3)), Ok(()));
}

#[test]
fn flexibility_filter_blocks_max_row_one_at_cutoff_two() {
    let mut p = Placement::new();
    p.configure_filters(reference_filters());
    let item = fragile(1, "Eggs", [1, 1, 1999], 1);
    assert_eq!(p.add_item(item.clone()), Err(MyError::BlockedByFilter(item)));
    assert_eq!(p.id_search(1), None);
}

#[test]
fn flexibility_filter_passes_max_row_two_at_cutoff_two() {
    let mut p = Placement::new();
    p.configure_filters(reference_filters());
    assert_eq!(p.add_item(fragile(1, "Eggs", [1, 1, 1999], 2)), Ok(()));
}

#[test]
fn filters_leave_normal_items_alone() {
    let mut p = Placement::new();
    p.configure_filters(reference_filters());
    assert!(p.is_allowed_by_filters(&normal(1, "Item1")));
    assert!(!p.is_allowed_by_filters(&oversized(2, "Wardrobe", 4)));
    assert!(!p.is_allowed_by_filters(&fragile(3, "Eggs", [1, 1, 1999], 1)));
}

#[test]
fn no_filters_admit_everything() {
    let p = Placement::new();
    assert!(p.is_allowed_by_filters(&oversized(2, "Wardrobe", 400)));
    assert!(p.is_allowed_by_filters(&fragile(3, "Eggs", [1, 1, 1999], 0)));
}

#[test]
fn fragile_item_of_1999_is_expired_later_and_on_the_day_but_not_before() {
    let mut p = Placement::new();
    let item = fragile(5, "Item5", [1, 1, 1999], 2);
    p.add_item(item.clone()).unwrap();
    assert_eq!(p.check_expired_products([2, 2, 1999]), Some(vec![item.clone()]));
    assert_eq!(p.check_expired_products([1, 1, 1999]), Some(vec![item.clone()]));
    assert_eq!(p.check_expired_products([1, 1, 1998]), None);
}

#[test]
fn expiry_weighs_year_then_month_then_day() {
    let item = fragile(5, "Milk", [15, 6, 2020], 2);
    assert!(item.is_expired(&[15, 6, 2020]));
    assert!(item.is_expired(&[16, 6, 2020]));
    assert!(!item.is_expired(&[14, 6, 2020]));
    assert!(item.is_expired(&[1, 7, 2020]));
    assert!(!item.is_expired(&[31, 5, 2020]));
    assert!(item.is_expired(&[1, 1, 2021]));
    assert!(!item.is_expired(&[31, 12, 2019]));
}

#[test]
fn only_fragile_items_expire() {
    assert!(!normal(1, "Item1").is_expired(&[1, 1, 3000]));
    assert!(!oversized(2, "Sofa", 3).is_expired(&[1, 1, 3000]));
}

#[test]
fn expired_items_come_in_grid_order_without_the_others() {
    let mut p = Placement::new();
    let old_milk = fragile(1, "Milk", [1, 1, 1999], 5);
    let fresh = fragile(2, "Cheese", [1, 1, 2030], 5);
    let old_eggs = fragile(4, "Eggs", [31, 12, 1998], 5);
    p.add_item(old_milk.clone()).unwrap();
    p.add_item(fresh).unwrap();
    p.add_item(normal(3, "Nails")).unwrap();
    p.add_item(old_eggs.clone()).unwrap();
    assert_eq!(p.check_expired_products([1, 1, 2000]), Some(vec![old_milk, old_eggs]));
}

#[test]
fn nothing_expired_in_an_empty_placement() {
    let p = Placement::new();
    assert_eq!(p.check_expired_products([1, 1, 3000]), None);
}

#[test]
fn removing_an_absent_id_fails_and_changes_nothing() {
    let mut p = Placement::new();
    let a = normal(1, "Item1");
    let b = oversized(2, "Item2", 3);
    p.add_item(a.clone()).unwrap();
    p.add_item(b.clone()).unwrap();
    assert_eq!(p.remove_item(9), Err(MyError::FailedRemove(9)));
    assert_eq!(p.id_search(1), Some(&a));
    assert_eq!(p.id_search(2), Some(&b));
    assert_eq!(p.name_search("Item1".to_string()), Some(&a));
    assert_eq!(p.name_search("Item2".to_string()), Some(&b));
    assert_eq!(p.position_search(1), Some(vec![Position::new(0, 0, 0)]));
    assert_eq!(
        p.position_search(2),
        Some(vec![Position::new(0, 0, 1), Position::new(0, 0, 2), Position::new(0, 0, 3)])
    );
    assert_eq!(p.alphabetical(), vec![a, b]);
}

#[test]
fn removing_from_an_empty_placement_fails() {
    let mut p = Placement::new();
    assert_eq!(p.remove_item(0), Err(MyError::FailedRemove(0)));
}
