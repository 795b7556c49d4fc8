//! Sequences of texts.

use vstd::prelude::*;
use vstd::string::*;

use crate::text::{same, texts};

verus! {

/// The elements in the order of their first appearance, each once.
pub open spec fn distinct(s: Seq<Seq<char>>) -> Seq<Seq<char>>
    decreases s.len(),
{
    if s.len() == 0 {
        Seq::empty()
    } else {
        let before = distinct(s.drop_last());
        if before.contains(s.last()) {
            before
        } else {
            before.push(s.last())
        }
    }
}

/// [`distinct`] has the same elements as the sequence, and none of them twice.
pub proof fn law_distinct(s: Seq<Seq<char>>)
    ensures
        distinct(s).no_duplicates(),
        forall|x: Seq<char>| distinct(s).contains(x) <==> s.contains(x),
        distinct(s).len() <= s.len(),
    decreases s.len(),
{
    if s.len() > 0 {
        let t = s.drop_last();
        let before = distinct(t);
        law_distinct(t);
        assert forall|x: Seq<char>| distinct(s).contains(x) <==> s.contains(x) by {
            if s.contains(x) {
                let i = s.index_of(x);
                if i < t.len() {
                    assert(t[i] == x);
                    assert(t.contains(x));
                    let j = before.index_of(x);
                    assert(distinct(s)[j] == x);
                } else if !before.contains(x) {
                    assert(distinct(s).last() == x);
                }
            }
            if distinct(s).contains(x) {
                let j = distinct(s).index_of(x);
                if j < before.len() {
                    assert(before[j] == x);
                    assert(before.contains(x));
                    assert(t.contains(x));
                    let i = t.index_of(x);
                    assert(s[i] == x);
                } else {
                    assert(x == s.last());
                }
            }
        }
    }
}

/// Whether a text stands among the texts.
pub fn has_text(v: &Vec<String>, item: &str) -> (r: bool)
    ensures
        r == texts(v@).contains(item@),
{
    let mut i: usize = 0;
    while i < v.len()
        invariant
            i <= v@.len(),
            forall|j: int| 0 <= j < i ==> (#[trigger] v@[j])@ != item@,
        decreases v@.len() - i,
    {
        if same(v[i].as_str(), item) {
            assert(texts(v@)[i as int] == item@);
            return true;
        }
        i = i + 1;
    }
    proof {
        if texts(v@).contains(item@) {
            let j = texts(v@).index_of(item@);
            assert(v@[j]@ == item@);
        }
    }
    false
}

/// Adds a text behind the others, unless it stands there.
pub fn push_distinct(v: &mut Vec<String>, item: &str)
    ensures
        texts(final(v)@) == if texts(old(v)@).contains(item@) {
            texts(old(v)@)
        } else {
            texts(old(v)@).push(item@)
        },
{
    if !has_text(v, item) {
        v.push(item.to_owned());
        assert(texts(v@) =~= texts(old(v)@).push(item@));
    }
}

/// The last position of a text.
pub open spec fn last_index(s: Seq<Seq<char>>, x: Seq<char>) -> Option<int>
    decreases s.len(),
{
    if s.len() == 0 {
        None
    } else if s.last() == x {
        Some(s.len() - 1)
    } else {
        last_index(s.drop_last(), x)
    }
}

/// [`last_index`] gives the greatest position at which the text stands, and gives
/// none exactly when it stands nowhere.
pub proof fn law_last_index(s: Seq<Seq<char>>, x: Seq<char>)
    ensures
        match last_index(s, x) {
            Some(i) => 0 <= i < s.len() && s[i] == x && (forall|j: int|
                i < j < s.len() ==> s[j] != x),
            None => forall|j: int| 0 <= j < s.len() ==> s[j] != x,
        },
    decreases s.len(),
{
    if s.len() > 0 && s.last() != x {
        law_last_index(s.drop_last(), x);
        let t = s.drop_last();
        assert forall|j: int| 0 <= j < t.len() implies t[j] == s[j] by {}
    }
}

/// The last position of a text.
pub fn find_last(v: &Vec<String>, x: &str) -> (r: Option<usize>)
    ensures
        match r {
            Some(i) => last_index(texts(v@), x@) == Some(i as int),
            None => last_index(texts(v@), x@) is None,
        },
{
    let mut n: usize = v.len();
    assert(texts(v@).take(n as int) =~= texts(v@));
    while n > 0
        invariant
            n <= v@.len(),
            last_index(texts(v@).take(n as int), x@) == last_index(texts(v@), x@),
        decreases n,
    {
        assert(texts(v@).take(n as int).last() == v@[n - 1]@);
        assert(texts(v@).take(n as int).drop_last() =~= texts(v@).take(n - 1));
        if same(v[n - 1].as_str(), x) {
            return Some(n - 1);
        }
        n = n - 1;
    }
    None
}

} // verus!
