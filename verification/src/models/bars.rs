//! Bars of a price table, referred to by timestamp and row, and their ordering.
use vstd::prelude::*;

verus! {

/// A bar of the price table: its timestamp and its row in the table.
#[derive(Debug, Clone, Copy)]
pub struct Bar {
    pub timestamp: i64,
    pub row: usize,
}

/// Bars are ordered by timestamp, and bars with equal timestamps by row.
pub open spec fn bar_lt(a: Bar, b: Bar) -> bool {
    a.timestamp < b.timestamp || (a.timestamp == b.timestamp && a.row < b.row)
}

/// Every bar comes strictly before the bars that follow it.
pub open spec fn strictly_ascending(s: Seq<Bar>) -> bool {
    forall|i: int, j: int| 0 <= i < j < s.len() ==> #[trigger] bar_lt(s[i], s[j])
}

/// Timestamps never decrease along the sequence.
pub open spec fn time_ordered(s: Seq<Bar>) -> bool {
    forall|i: int, j: int| 0 <= i <= j < s.len() ==> s[i].timestamp <= s[j].timestamp
}

pub proof fn lemma_strictly_ascending_time_ordered(s: Seq<Bar>)
    requires
        strictly_ascending(s),
    ensures
        time_ordered(s),
{
    assert forall|i: int, j: int| 0 <= i <= j < s.len() implies s[i].timestamp <= s[j].timestamp by {
        if i < j {
            assert(bar_lt(s[i], s[j]));
        }
    }
}

fn bar_less(a: &Bar, b: &Bar) -> (r: bool)
    ensures
        r == bar_lt(*a, *b),
{
    a.timestamp < b.timestamp || (a.timestamp == b.timestamp && a.row < b.row)
}

/// Merges two strictly ascending sequences that share no bar.
fn merge(a: &Vec<Bar>, b: &Vec<Bar>) -> (r: Vec<Bar>)
    requires
        strictly_ascending(a@),
        strictly_ascending(b@),
        forall|x: Bar| !(a@.contains(x) && b@.contains(x)),
    ensures
        strictly_ascending(r@),
        forall|x: Bar| r@.contains(x) <==> (a@.contains(x) || b@.contains(x)),
{
    let mut r: Vec<Bar> = Vec::new();
    let mut i: usize = 0;
    let mut j: usize = 0;
    while i < a.len() || j < b.len()
        invariant
            i <= a.len(),
            j <= b.len(),
            strictly_ascending(a@),
            strictly_ascending(b@),
            forall|x: Bar| !(a@.contains(x) && b@.contains(x)),
            strictly_ascending(r@),
            r.len() == i + j,
            forall|x: Bar|
                r@.contains(x) <==> (a@.subrange(0, i as int).contains(x) || b@.subrange(
                    0,
                    j as int,
                ).contains(x)),
            r.len() > 0 && i < a.len() ==> bar_lt(r@.last(), a@[i as int]),
            r.len() > 0 && j < b.len() ==> bar_lt(r@.last(), b@[j as int]),
        decreases a.len() + b.len() - i - j,
    {
        let take_a = if i < a.len() && j < b.len() {
            bar_less(&a[i], &b[j])
        } else {
            i < a.len()
        };
        let ghost old_r = r@;
        if take_a {
            let x = a[i];
            proof {
                if j < b.len() && !bar_lt(x, b@[j as int]) {
                    // x and b[j] are distinct bars, so b[j] comes first
                    assert(a@.contains(x));
                    assert(b@.contains(b@[j as int]));
                    assert(x != b@[j as int]);
                }
                assert(a@.subrange(0, i + 1) =~= a@.subrange(0, i as int).push(x));
            }
            r.push(x);
            proof {
                lemma_push_contains(old_r, x);
                lemma_push_contains(a@.subrange(0, i as int), x);
            }
            i = i + 1;
        } else {
            let x = b[j];
            proof {
                if i < a.len() {
                    assert(!bar_lt(a@[i as int], x));
                    assert(a@.contains(a@[i as int]));
                    assert(b@.contains(x));
                    assert(x != a@[i as int]);
                }
                assert(b@.subrange(0, j + 1) =~= b@.subrange(0, j as int).push(x));
            }
            r.push(x);
            proof {
                lemma_push_contains(old_r, x);
                lemma_push_contains(b@.subrange(0, j as int), x);
            }
            j = j + 1;
        }
        proof {
            assert forall|p: int, q: int| 0 <= p < q < r@.len() implies #[trigger] bar_lt(
                r@[p],
                r@[q],
            ) by {
                if q < old_r.len() {
                    assert(bar_lt(old_r[p], old_r[q]));
                } else if p < old_r.len() - 1 {
                    assert(bar_lt(old_r[p], old_r[old_r.len() - 1]));
                }
            }
        }
    }
    proof {
        assert(a@.subrange(0, i as int) =~= a@);
        assert(b@.subrange(0, j as int) =~= b@);
    }
    r
}

proof fn lemma_push_contains<A>(s: Seq<A>, x: A)
    ensures
        forall|y: A| #[trigger] s.push(x).contains(y) <==> (s.contains(y) || y == x),
{
    assert forall|y: A| #[trigger] s.push(x).contains(y) <==> (s.contains(y) || y == x) by {
        if s.contains(y) {
            let p = choose|p: int| 0 <= p < s.len() && s[p] == y;
            assert(s.push(x)[p] == y);
        }
        if y == x {
            assert(s.push(x)[s.len() as int] == y);
        }
        if s.push(x).contains(y) {
            let p = choose|p: int| 0 <= p < s.len() + 1 && s.push(x)[p] == y;
            if p < s.len() {
                assert(s[p] == y);
            }
        }
    }
}

/// Sorts bars that are all distinct into strictly ascending order.
pub fn sort_bars(v: Vec<Bar>) -> (r: Vec<Bar>)
    requires
        v@.no_duplicates(),
    ensures
        strictly_ascending(r@),
        r@.len() == v@.len(),
        forall|x: Bar| r@.contains(x) <==> v@.contains(x),
    decreases v.len(),
{
    if v.len() <= 1 {
        return v;
    }
    let mut left = v;
    let mid = left.len() / 2;
    let ghost whole = left@;
    let right = left.split_off(mid);
    proof {
        assert(left@ =~= whole.subrange(0, mid as int));
        assert(right@ =~= whole.subrange(mid as int, whole.len() as int));
        assert forall|x: Bar| !(left@.contains(x) && right@.contains(x)) by {
            if left@.contains(x) && right@.contains(x) {
                let p = choose|p: int| 0 <= p < left@.len() && left@[p] == x;
                let q = choose|q: int| 0 <= q < right@.len() && right@[q] == x;
                assert(whole[p] == whole[mid + q]);
            }
        }
        assert(left@.no_duplicates());
        assert(right@.no_duplicates());
        assert forall|x: Bar| whole.contains(x) <==> (left@.contains(x) || right@.contains(x)) by {
            if whole.contains(x) {
                let p = choose|p: int| 0 <= p < whole.len() && whole[p] == x;
                if p < mid {
                    assert(left@[p] == x);
                } else {
                    assert(right@[p - mid] == x);
                }
            }
        }
    }
    let sl = sort_bars(left);
    let sr = sort_bars(right);
    let r = merge(&sl, &sr);
    proof {
        // the merged sequence is strictly ascending, so it has no duplicates and
        // its length is that of the input
        lemma_ascending_same_elements_same_len(r@, whole);
    }
    r
}

/// A strictly ascending sequence that holds exactly the elements of a
/// sequence without duplicates has the length of that sequence.
proof fn lemma_ascending_same_elements_same_len(s: Seq<Bar>, t: Seq<Bar>)
    requires
        strictly_ascending(s),
        t.no_duplicates(),
        forall|x: Bar| s.contains(x) <==> t.contains(x),
    ensures
        s.len() == t.len(),
{
    lemma_ascending_no_duplicates(s);
    s.unique_seq_to_set();
    t.unique_seq_to_set();
    assert(s.to_set() =~= t.to_set());
}

pub proof fn lemma_ascending_no_duplicates(s: Seq<Bar>)
    requires
        strictly_ascending(s),
    ensures
        s.no_duplicates(),
{
    assert forall|i: int, j: int| 0 <= i < s.len() && 0 <= j < s.len() && i != j implies s[i]
        != s[j] by {
        if i < j {
            assert(bar_lt(s[i], s[j]));
        } else {
            assert(bar_lt(s[j], s[i]));
        }
    }
}

/// In a strictly ascending sequence, the elements after the first are those
/// other than the first.
proof fn lemma_drop_first_contains(s: Seq<Bar>)
    requires
        strictly_ascending(s),
        s.len() > 0,
    ensures
        forall|x: Bar| #[trigger] s.drop_first().contains(x) <==> (s.contains(x) && x != s[0]),
{
    assert forall|x: Bar| #[trigger] s.drop_first().contains(x) <==> (s.contains(x) && x != s[0]) by {
        if s.drop_first().contains(x) {
            let p = choose|p: int| 0 <= p < s.len() - 1 && s.drop_first()[p] == x;
            assert(s[p + 1] == x);
            assert(bar_lt(s[0], s[p + 1]));
        }
        if s.contains(x) && x != s[0] {
            let p = choose|p: int| 0 <= p < s.len() && s[p] == x;
            assert(s.drop_first()[p - 1] == x);
        }
    }
}

/// Two strictly ascending sequences that hold the same bars are equal: the
/// order of distinct bars is fixed.
pub proof fn lemma_ascending_unique(s: Seq<Bar>, t: Seq<Bar>)
    requires
        strictly_ascending(s),
        strictly_ascending(t),
        forall|x: Bar| s.contains(x) <==> t.contains(x),
    ensures
        s == t,
    decreases s.len(),
{
    if s.len() == 0 {
        if t.len() > 0 {
            assert(t.contains(t[0]));
        }
        assert(s =~= t);
    } else {
        assert(s.contains(s[0]));
        assert(t.contains(s[0]));
        assert(t.contains(t[0]));
        assert(s.contains(t[0]));
        let j = choose|j: int| 0 <= j < t.len() && t[j] == s[0];
        let k = choose|k: int| 0 <= k < s.len() && s[k] == t[0];
        if j > 0 {
            assert(bar_lt(t[0], t[j]));
            if k > 0 {
                assert(bar_lt(s[0], s[k]));
            }
        }
        assert(s[0] == t[0]);
        lemma_drop_first_contains(s);
        lemma_drop_first_contains(t);
        assert(strictly_ascending(s.drop_first()));
        assert(strictly_ascending(t.drop_first())) by {
            assert forall|p: int, q: int| 0 <= p < q < t.drop_first().len() implies #[trigger] bar_lt(
                t.drop_first()[p],
                t.drop_first()[q],
            ) by {
                assert(bar_lt(t[p + 1], t[q + 1]));
            }
        }
        assert forall|x: Bar| s.drop_first().contains(x) <==> t.drop_first().contains(x) by {
            assert(s.drop_first().contains(x) <==> (s.contains(x) && x != s[0]));
            assert(t.drop_first().contains(x) <==> (t.contains(x) && x != t[0]));
        }
        lemma_ascending_unique(s.drop_first(), t.drop_first());
        assert(s =~= t.drop_first().insert(0, t[0]));
        assert(t =~= t.drop_first().insert(0, t[0]));
    }
}

} // verus!
