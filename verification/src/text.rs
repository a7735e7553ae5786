//! Order and case of text.

use vstd::prelude::*;

verus! {

/// The lower-case form of a text, as `str::to_lowercase` of std gives it.
/// Nothing is assumed of it but that it depends on the text alone.
pub uninterp spec fn lowercase(text: Seq<char>) -> Seq<char>;

/// Whether `a` comes strictly before `b` in dictionary order by character
/// code: after a common start of `n` characters, either `a` ends and `b`
/// goes on, or `a` has the smaller character.
pub open spec fn text_precedes(a: Seq<char>, b: Seq<char>) -> bool {
    exists|n: int| #[trigger] diverge_at(a, b, n)
}

/// Whether `a` and `b` agree on their first `n` characters and `a` comes
/// first by what follows.
pub open spec fn diverge_at(a: Seq<char>, b: Seq<char>, n: int) -> bool {
    &&& 0 <= n <= a.len()
    &&& n < b.len()
    &&& a.take(n) == b.take(n)
    &&& n < a.len() ==> (a[n] as int) < (b[n] as int)
}

/// Number of leading characters that `a` and `b` have in common.
spec fn common_start(a: Seq<char>, b: Seq<char>) -> int
    decreases a.len(),
{
    if a.len() == 0 || b.len() == 0 || a[0] != b[0] {
        0
    } else {
        1 + common_start(a.drop_first(), b.drop_first())
    }
}

/// `a` and `b` agree on their common start and differ right after it, unless
/// one of them ends there.
proof fn lemma_common_start(a: Seq<char>, b: Seq<char>)
    ensures
        0 <= common_start(a, b) <= a.len(),
        common_start(a, b) <= b.len(),
        a.take(common_start(a, b)) == b.take(common_start(a, b)),
        common_start(a, b) < a.len() && common_start(a, b) < b.len() ==> a[common_start(a, b)]
            != b[common_start(a, b)],
    decreases a.len(),
{
    if a.len() == 0 || b.len() == 0 || a[0] != b[0] {
        assert(a.take(0) =~= b.take(0));
    } else {
        let a1 = a.drop_first();
        let b1 = b.drop_first();
        lemma_common_start(a1, b1);
        let n = common_start(a1, b1);
        assert(a.take(n + 1) =~= seq![a[0]] + a1.take(n));
        assert(b.take(n + 1) =~= seq![b[0]] + b1.take(n));
        if n < a1.len() && n < b1.len() {
            assert(a[n + 1] == a1[n]);
            assert(b[n + 1] == b1[n]);
        }
    }
}

/// Of two texts exactly one holds: the first comes before the second, they
/// are the same text, or the second comes before the first.
pub proof fn lemma_text_order_trichotomy(a: Seq<char>, b: Seq<char>)
    ensures
        text_precedes(a, b) || a == b || text_precedes(b, a),
        !(text_precedes(a, b) && a == b),
        !(text_precedes(b, a) && a == b),
        !(text_precedes(a, b) && text_precedes(b, a)),
{
    lemma_common_start(a, b);
    let n = common_start(a, b);
    if n == a.len() && n == b.len() {
        assert(a.take(n) == a);
        assert(b.take(n) == b);
    } else if n == a.len() {
        assert(diverge_at(a, b, n));
    } else if n == b.len() {
        assert(diverge_at(b, a, n));
    } else if (a[n] as int) < (b[n] as int) {
        assert(diverge_at(a, b, n));
    } else {
        assert(a[n] != b[n]);
        assert(diverge_at(b, a, n));
    }
    if text_precedes(a, b) {
        let i = choose|i: int| #[trigger] diverge_at(a, b, i);
        if a == b {
            assert(false);
        }
        if text_precedes(b, a) {
            let j = choose|j: int| #[trigger] diverge_at(b, a, j);
            if i < j {
                assert(b.take(j)[i] == a.take(j)[i]);
            } else if j < i {
                assert(a.take(i)[j] == b.take(i)[j]);
            }
            assert(false);
        }
    } else if text_precedes(b, a) {
        let j = choose|j: int| #[trigger] diverge_at(b, a, j);
        if a == b {
            assert(false);
        }
    }
}

/// What comes before a text that comes before a third comes before the third.
pub proof fn lemma_text_order_transitive(a: Seq<char>, b: Seq<char>, c: Seq<char>)
    requires
        text_precedes(a, b),
        text_precedes(b, c),
    ensures
        text_precedes(a, c),
{
    let i = choose|i: int| #[trigger] diverge_at(a, b, i);
    let j = choose|j: int| #[trigger] diverge_at(b, c, j);
    let n = if i <= j { i } else { j };
    assert(a.take(n) =~= c.take(n)) by {
        assert forall|k: int| 0 <= k < n implies a[k] == c[k] by {
            assert(a.take(i)[k] == b.take(i)[k]);
            assert(b.take(j)[k] == c.take(j)[k]);
        }
    }
    if n < a.len() {
        if i < j {
            assert(b.take(j)[i] == c.take(j)[i]);
        } else if j < i {
            assert(a.take(i)[j] == b.take(i)[j]);
        }
    }
    assert(diverge_at(a, c, n));
}

} // verus!
