//! The order of things by the time at which they were made.

use vstd::prelude::*;
use vstd::string::*;

use crate::text::{is_before, law_text_order, text_before, texts};

verus! {

/// Whether the thing at `i` stands before the thing at `j` in the order from the
/// newest to the oldest; of two of the same time the one that came first.
pub open spec fn is_newer(times: Seq<Seq<char>>, i: int, j: int) -> bool {
    text_before(times[j], times[i]) || (times[i] == times[j] && i < j)
}

/// Whether `order` lists all positions from the newest to the oldest.
pub open spec fn is_newest_first(order: Seq<int>, times: Seq<Seq<char>>) -> bool {
    &&& order.len() == times.len()
    &&& forall|a: int| 0 <= a < order.len() ==> 0 <= #[trigger] order[a] < times.len()
    &&& forall|i: int| 0 <= i < times.len() ==> #[trigger] order.contains(i)
    &&& forall|a: int, b: int|
        0 <= a < b < order.len() ==> is_newer(times, #[trigger] order[a], #[trigger] order[b])
}

/// All positions from the newest to the oldest.
pub open spec fn newest_first(times: Seq<Seq<char>>) -> Seq<int> {
    choose|order: Seq<int>| is_newest_first(order, times)
}

proof fn lemma_newer(times: Seq<Seq<char>>, i: int, j: int, k: int)
    ensures
        !(is_newer(times, i, j) && is_newer(times, j, i)),
        i == j || is_newer(times, i, j) || is_newer(times, j, i),
        is_newer(times, i, j) && is_newer(times, j, k) ==> is_newer(times, i, k),
{
    law_text_order(times[i], times[j], times[k]);
    law_text_order(times[j], times[i], times[k]);
    law_text_order(times[k], times[j], times[i]);
}

proof fn lemma_same_prefix(a: Seq<int>, b: Seq<int>, times: Seq<Seq<char>>, n: int)
    requires
        is_newest_first(a, times),
        is_newest_first(b, times),
        0 <= n <= a.len(),
    ensures
        forall|k: int| 0 <= k < n ==> a[k] == b[k],
    decreases n,
{
    if n > 0 {
        lemma_same_prefix(a, b, times, n - 1);
        let x = a[n - 1];
        let y = b[n - 1];
        if x != y {
            assert(b.contains(x));
            assert(a.contains(y));
            let p = b.index_of(x);
            let q = a.index_of(y);
            assert(p >= n) by {
                if p < n - 1 {
                    assert(a[p] == b[p]);
                    lemma_newer(times, a[p], a[n - 1], x);
                }
            }
            assert(q >= n) by {
                if q < n - 1 {
                    assert(a[q] == b[q]);
                    lemma_newer(times, b[q], b[n - 1], y);
                }
            }
            assert(is_newer(times, b[n - 1], b[p]));
            assert(is_newer(times, a[n - 1], a[q]));
            lemma_newer(times, x, y, x);
        }
    }
}

/// There is one order from the newest to the oldest.
pub proof fn law_newest_first_unique(order: Seq<int>, times: Seq<Seq<char>>)
    requires
        is_newest_first(order, times),
    ensures
        newest_first(times) == order,
{
    let other = newest_first(times);
    assert(is_newest_first(other, times));
    lemma_same_prefix(order, other, times, order.len() as int);
    assert(other =~= order);
}

/// The positions that a vector of indices stands for.
pub open spec fn positions(v: Seq<usize>) -> Seq<int> {
    v.map_values(|i: usize| i as int)
}

/// Whether `order` lists the first `n` positions from the newest to the oldest.
spec fn orders_first(order: Seq<int>, times: Seq<Seq<char>>, n: int) -> bool {
    &&& order.len() == n
    &&& forall|a: int| 0 <= a < n ==> 0 <= #[trigger] order[a] < n
    &&& forall|i: int| 0 <= i < n ==> #[trigger] order.contains(i)
    &&& forall|a: int, b: int|
        0 <= a < b < n ==> is_newer(times, #[trigger] order[a], #[trigger] order[b])
}

proof fn lemma_insert(order: Seq<int>, times: Seq<Seq<char>>, n: int, at: int)
    requires
        0 <= n < times.len(),
        orders_first(order, times, n),
        0 <= at <= n,
        forall|a: int| 0 <= a < at ==> is_newer(times, #[trigger] order[a], n),
        at < n ==> is_newer(times, n, order[at]),
    ensures
        orders_first(order.insert(at, n), times, n + 1),
{
    let after = order.insert(at, n);
    assert forall|i: int| 0 <= i < n + 1 implies #[trigger] after.contains(i) by {
        if i == n {
            assert(after[at] == n);
        } else {
            assert(order.contains(i));
            let a = order.index_of(i);
            if a < at {
                assert(after[a] == i);
            } else {
                assert(after[a + 1] == i);
            }
        }
    }
    assert forall|a: int, b: int| 0 <= a < b < n + 1 implies is_newer(
        times,
        #[trigger] after[a],
        #[trigger] after[b],
    ) by {
        if a < at && b < at {
            assert(is_newer(times, order[a], order[b]));
        } else if a < at && b == at {
            assert(is_newer(times, order[a], n));
        } else if a < at && b > at {
            assert(is_newer(times, order[a], order[b - 1]));
        } else if a == at {
            if b - 1 > at {
                assert(is_newer(times, order[at], order[b - 1]));
                lemma_newer(times, n, order[at], order[b - 1]);
            }
        } else {
            assert(is_newer(times, order[a - 1], order[b - 1]));
        }
    }
    assert forall|a: int| 0 <= a < n + 1 implies 0 <= #[trigger] after[a] < n + 1 by {
        if a < at {
            assert(after[a] == order[a]);
        } else if a > at {
            assert(after[a] == order[a - 1]);
        }
    }
}

/// All positions from the newest to the oldest.
pub fn sort_newest_first(times: &Vec<String>) -> (r: Vec<usize>)
    ensures
        is_newest_first(positions(r@), texts(times@)),
        positions(r@) == newest_first(texts(times@)),
{
    let ghost t = texts(times@);
    let mut out: Vec<usize> = Vec::new();
    let mut n: usize = 0;
    while n < times.len()
        invariant
            n <= times@.len(),
            t == texts(times@),
            orders_first(positions(out@), t, n as int),
        decreases times@.len() - n,
    {
        let ghost order = positions(out@);
        let mut at: usize = 0;
        assert(out@.len() == n);
        assert forall|a: int| 0 <= a < n implies #[trigger] out@[a] < n by {
            assert(order[a] == out@[a]);
        }
        while at < out.len() && !is_before(times[out[at]].as_str(), times[n].as_str())
            invariant
                n < times@.len(),
                t == texts(times@),
                order == positions(out@),
                out@.len() == n,
                orders_first(order, t, n as int),
                at <= n,
                forall|a: int| 0 <= a < n ==> #[trigger] out@[a] < n,
                forall|a: int| 0 <= a < at ==> is_newer(t, #[trigger] order[a], n as int),
            decreases n - at,
        {
            proof {
                assert(order[at as int] == out@[at as int]);
                assert(t[order[at as int]] == times@[out@[at as int] as int]@);
                lemma_newer(t, order[at as int], n as int, 0);
            }
            at = at + 1;
        }
        proof {
            if at < n {
                assert(order[at as int] == out@[at as int]);
            }
            lemma_insert(order, t, n as int, at as int);
        }
        out.insert(at, n);
        assert(positions(out@) =~= order.insert(at as int, n as int));
        n = n + 1;
    }
    assert(is_newest_first(positions(out@), t));
    proof {
        law_newest_first_unique(positions(out@), t);
    }
    out
}

// ---------------------------------------------------------------------------
// The oldest
// ---------------------------------------------------------------------------

/// Whether the thing at `i` is the oldest; of several of the same time the one that
/// came first.
pub open spec fn is_oldest(times: Seq<Seq<char>>, i: int) -> bool {
    &&& 0 <= i < times.len()
    &&& forall|j: int| 0 <= j < i ==> text_before(times[i], #[trigger] times[j])
    &&& forall|j: int| i < j < times.len() ==> !text_before(#[trigger] times[j], times[i])
}

/// The position of the oldest.
pub open spec fn oldest_index(times: Seq<Seq<char>>) -> int {
    choose|i: int| is_oldest(times, i)
}

proof fn lemma_oldest_unique(times: Seq<Seq<char>>, i: int, j: int)
    requires
        is_oldest(times, i),
        is_oldest(times, j),
    ensures
        i == j,
{
    if i < j {
        assert(text_before(times[j], times[i]));
        assert(!text_before(times[j], times[i]));
    } else if j < i {
        assert(text_before(times[i], times[j]));
        assert(!text_before(times[i], times[j]));
    }
}

/// The position of the oldest.
pub fn find_oldest(times: &Vec<String>) -> (r: usize)
    requires
        times@.len() > 0,
    ensures
        is_oldest(texts(times@), r as int),
        r == oldest_index(texts(times@)),
{
    let ghost t = texts(times@);
    let mut best: usize = 0;
    let mut i: usize = 1;
    while i < times.len()
        invariant
            t == texts(times@),
            best < i <= times@.len(),
            is_oldest(t.take(i as int), best as int),
        decreases times@.len() - i,
    {
        let ghost before = t.take(i as int);
        let ghost after = t.take(i + 1);
        let ghost old_best = best as int;
        assert(t[i as int] == times@[i as int]@);
        assert(t[best as int] == times@[best as int]@);
        assert forall|j: int| 0 <= j < i implies after[j] == before[j] by {}
        if is_before(times[i].as_str(), times[best].as_str()) {
            best = i;
            assert forall|j: int| 0 <= j < i implies text_before(after[i as int], #[trigger] after[j]) by {
                law_text_order(t[i as int], t[old_best], t[j]);
                law_text_order(t[j], t[old_best], t[i as int]);
                if j < old_best {
                    assert(text_before(before[old_best], before[j]));
                } else if j > old_best {
                    assert(!text_before(before[j], before[old_best]));
                }
            }
        } else {
            assert forall|j: int| 0 <= j < best implies text_before(
                after[best as int],
                #[trigger] after[j],
            ) by {
                assert(before[j] == after[j]);
            }
            assert forall|j: int| best < j < after.len() implies !text_before(
                #[trigger] after[j],
                after[best as int],
            ) by {
                if j < i {
                    assert(before[j] == after[j]);
                }
            }
        }
        i = i + 1;
    }
    proof {
        assert(t.take(i as int) =~= t);
        lemma_oldest_unique(t, best as int, oldest_index(t));
    }
    best
}

} // verus!
