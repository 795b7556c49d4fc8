//! Version numbers.

use vstd::prelude::*;
use vstd::string::*;

use crate::text::{
    begins_with, dec, fields, is_digit, law_decimal_read_back, law_fields, law_trimmed, lemma_dec,
    parse_u64, split_fields, texts, trim, trim_start_of, trim_start_word, trimmed, u64_of,
    without_leading, without_leading_word, CharClass,
};

verus! {

/// A version without the white space around it, without letters `v` and the word
/// `openclaw` before it.
pub open spec fn normalized(v: Seq<char>) -> Seq<char> {
    trimmed(
        without_leading_word(without_leading(trimmed(v), CharClass::Just('v')), "openclaw"@),
    )
}

/// A version without what stands around its number.
pub fn normalize_version(v: &str) -> (r: String)
    ensures
        r@ == normalized(v@),
{
    proof {
        reveal_strlit("openclaw");
    }
    trim(trim_start_word(trim_start_of(trim(v), CharClass::Just('v')), "openclaw")).to_owned()
}

/// The numbers of 64 bits that the texts write, in their order.
pub open spec fn numbers_in(parts: Seq<Seq<char>>) -> Seq<u64>
    decreases parts.len(),
{
    if parts.len() == 0 {
        Seq::empty()
    } else {
        let before = numbers_in(parts.drop_last());
        match u64_of(parts.last()) {
            Some(n) => before.push(n),
            None => before,
        }
    }
}

/// The numbers of a version, by which versions are compared.
pub open spec fn key_of(v: Seq<char>) -> Seq<u64> {
    numbers_in(fields(normalized(v), CharClass::NonDigit))
}

/// The numbers of a version.
pub fn version_key(v: &str) -> (r: Vec<u64>)
    ensures
        r@ == key_of(v@),
{
    let plain = normalize_version(v);
    let parts = split_fields(plain.as_str(), CharClass::NonDigit);
    let ghost all = texts(parts@);
    let mut out: Vec<u64> = Vec::new();
    let mut i: usize = 0;
    assert(all.take(0) =~= Seq::<Seq<char>>::empty());
    while i < parts.len()
        invariant
            i <= parts@.len(),
            all == texts(parts@),
            out@ == numbers_in(all.take(i as int)),
        decreases parts@.len() - i,
    {
        proof {
            assert(all.take(i + 1).drop_last() =~= all.take(i as int));
            assert(all.take(i + 1).last() == parts@[i as int]@);
        }
        match parse_u64(parts[i].as_str()) {
            Some(n) => {
                out.push(n);
            },
            None => {},
        }
        i = i + 1;
    }
    assert(all.take(i as int) =~= all);
    out
}

/// Whether the numbers `a` stand before the numbers `b` in the order of their first
/// difference; numbers stand before what continues them.
pub open spec fn key_before(a: Seq<u64>, b: Seq<u64>) -> bool
    decreases a.len(),
{
    if b.len() == 0 {
        false
    } else if a.len() == 0 {
        true
    } else if a[0] != b[0] {
        a[0] < b[0]
    } else {
        key_before(a.drop_first(), b.drop_first())
    }
}

/// Whether the numbers `a` stand before the numbers `b`.
fn is_key_before(a: &Vec<u64>, b: &Vec<u64>) -> (r: bool)
    ensures
        r == key_before(a@, b@),
{
    let mut i: usize = 0;
    assert(a@.skip(0) =~= a@);
    assert(b@.skip(0) =~= b@);
    loop
        invariant
            i <= a@.len(),
            i <= b@.len(),
            key_before(a@.skip(i as int), b@.skip(i as int)) == key_before(a@, b@),
        decreases a@.len() - i,
    {
        if i == b.len() {
            return false;
        }
        if i == a.len() {
            return true;
        }
        if a[i] != b[i] {
            return a[i] < b[i];
        }
        proof {
            assert(a@.skip(i as int).drop_first() =~= a@.skip(i + 1));
            assert(b@.skip(i as int).drop_first() =~= b@.skip(i + 1));
        }
        i = i + 1;
    }
}

/// Whether `candidate` is a later version than `current`.
pub open spec fn is_later(candidate: Seq<char>, current: Seq<char>) -> bool {
    key_before(key_of(current), key_of(candidate))
}

/// Whether there is an update: known only where both versions are.
pub open spec fn update_known(
    candidate: Option<Seq<char>>,
    current: Option<Seq<char>>,
) -> Option<bool> {
    match (current, candidate) {
        (Some(current), Some(candidate)) => Some(is_later(candidate, current)),
        _ => None,
    }
}

/// Whether `candidate` is a later version than `current`.
pub fn is_later_version(candidate: &str, current: &str) -> (r: bool)
    ensures
        r == is_later(candidate@, current@),
{
    let a = version_key(current);
    let b = version_key(candidate);
    is_key_before(&a, &b)
}

proof fn lemma_key_order(a: Seq<u64>, b: Seq<u64>, c: Seq<u64>)
    ensures
        !key_before(a, a),
        key_before(a, b) ==> !key_before(b, a),
        a == b || key_before(a, b) || key_before(b, a),
        key_before(a, b) && key_before(b, c) ==> key_before(a, c),
    decreases a.len() + b.len() + c.len(),
{
    if a.len() > 0 {
        if b.len() > 0 && c.len() > 0 {
            lemma_key_order(a.drop_first(), b.drop_first(), c.drop_first());
        } else if b.len() > 0 {
            lemma_key_order(a.drop_first(), b.drop_first(), Seq::empty());
        } else {
            lemma_key_order(a.drop_first(), Seq::empty(), Seq::empty());
        }
        if b.len() > 0 && a[0] == b[0] && a.drop_first() == b.drop_first() {
            assert(a =~= seq![a[0]] + a.drop_first());
            assert(b =~= seq![b[0]] + b.drop_first());
        }
    } else if b.len() == 0 {
        assert(a =~= b);
    }
}

/// Versions are ordered: none is later than itself, of two not both are later than
/// the other, what is later than a later one is later, and two of which neither is
/// later have the same numbers.
pub proof fn law_version_order(a: Seq<char>, b: Seq<char>, c: Seq<char>)
    ensures
        !is_later(a, a),
        is_later(a, b) ==> !is_later(b, a),
        is_later(a, b) && is_later(b, c) ==> is_later(a, c),
        !is_later(a, b) && !is_later(b, a) ==> key_of(a) == key_of(b),
{
    lemma_key_order(key_of(a), key_of(b), key_of(c));
    lemma_key_order(key_of(c), key_of(b), key_of(a));
}

/// The text of a version with three numbers.
pub open spec fn version_text(a: u64, b: u64, c: u64) -> Seq<char> {
    dec(a as nat) + "."@ + dec(b as nat) + "."@ + dec(c as nat)
}

proof fn lemma_number_fields(n: u64, rest: Seq<char>)
    ensures
        numbers_in(fields(dec(n as nat) + "."@ + rest, CharClass::NonDigit)) == seq![n]
            + numbers_in(fields(rest, CharClass::NonDigit)),
        numbers_in(fields(dec(n as nat), CharClass::NonDigit)) == seq![n],
{
    let d = dec(n as nat);
    let class = CharClass::NonDigit;
    reveal_strlit(".");
    lemma_dec(n as nat);
    law_decimal_read_back(n);
    assert forall|j: int| 0 <= j < d.len() implies !class.has(#[trigger] d[j]) by {
        assert(is_digit(d[j]));
    }
    law_fields(d, '.', rest, class);
    assert(d + "."@ + rest =~= d.push('.') + rest);
    lemma_numbers_first(d, fields(rest, class));
    lemma_numbers_first(d, Seq::empty());
    assert(seq![d] + Seq::<Seq<char>>::empty() =~= seq![d]);
    assert(numbers_in(Seq::empty()) =~= Seq::<u64>::empty());
    assert(seq![n] + Seq::<u64>::empty() =~= seq![n]);
}

proof fn lemma_numbers_first(d: Seq<char>, rest: Seq<Seq<char>>)
    requires
        u64_of(d) is Some,
    ensures
        numbers_in(seq![d] + rest) == seq![u64_of(d)->0] + numbers_in(rest),
    decreases rest.len(),
{
    let all = seq![d] + rest;
    if rest.len() == 0 {
        assert(all.drop_last() =~= Seq::<Seq<char>>::empty());
        assert(numbers_in(all.drop_last()) =~= Seq::<u64>::empty());
        assert(numbers_in(rest) =~= Seq::<u64>::empty());
        assert(all.last() == d);
        assert(numbers_in(all) =~= seq![u64_of(d)->0] + numbers_in(rest));
    } else {
        lemma_numbers_first(d, rest.drop_last());
        assert(all.drop_last() =~= seq![d] + rest.drop_last());
        assert(all.last() == rest.last());
        assert(numbers_in(all) =~= seq![u64_of(d)->0] + numbers_in(rest));
    }
}

proof fn lemma_plain_version(s: Seq<char>)
    requires
        s.len() > 0,
        is_digit(s[0]),
        is_digit(s.last()),
    ensures
        normalized(s) == s,
        normalized("v"@ + s) == s,
        normalized("openclaw "@ + s) == s,
{
    let none = Seq::<char>::empty();
    let word = "openclaw"@;
    reveal_strlit("v");
    reveal_strlit("openclaw");
    reveal_strlit("openclaw ");
    law_trimmed(none, s, none, CharClass::White);
    assert(none + s + none =~= s);
    assert(word.len() == 8);
    reveal_with_fuel(without_leading, 3);
    reveal_with_fuel(without_leading_word, 3);
    assert(!begins_with(s, word)) by {
        if begins_with(s, word) {
            assert(s.subrange(0, 8)[0] == 'o');
        }
    }
    let v = "v"@ + s;
    assert(v[0] == 'v');
    assert(v.drop_first() =~= s);
    law_trimmed(none, v, none, CharClass::White);
    assert(none + v + none =~= v);
    assert(without_leading(v, CharClass::Just('v')) == s);
    let o = "openclaw "@ + s;
    assert(o[0] == 'o');
    law_trimmed(none, o, none, CharClass::White);
    assert(none + o + none =~= o);
    let t = o.skip(8);
    assert(o.subrange(0, 8) =~= word);
    assert(t =~= seq![' '] + s + none);
    assert(!begins_with(t, word)) by {
        if begins_with(t, word) {
            assert(t.subrange(0, 8)[0] == 'o');
        }
    }
    law_trimmed(seq![' '], s, none, CharClass::White);
}

/// Versions go by their numbers, the first of which counts most: of two with three numbers
/// the one with the greater first number is later, or where these are the same the one with
/// the greater second, and then third. A letter `v` or the name of the program before the
/// numbers does not matter.
pub proof fn law_later_by_numbers(a: u64, b: u64, c: u64, x: u64, y: u64, z: u64)
    ensures
        is_later(version_text(a, b, c), version_text(x, y, z)) <==> a > x || (a == x && b > y) || (a
            == x && b == y && c > z),
        normalized("v"@ + version_text(a, b, c)) == version_text(a, b, c),
        normalized("openclaw "@ + version_text(a, b, c)) == version_text(a, b, c),
        normalized(version_text(a, b, c)) == version_text(a, b, c),
{
    lemma_version_key(a, b, c);
    lemma_version_key(x, y, z);
    let k = seq![a, b, c];
    let l = seq![x, y, z];
    reveal_with_fuel(key_before, 4);
    assert(k.drop_first() =~= seq![b, c]);
    assert(l.drop_first() =~= seq![y, z]);
    assert(seq![b, c].drop_first() =~= seq![c]);
    assert(seq![y, z].drop_first() =~= seq![z]);
    assert(seq![c].drop_first() =~= Seq::empty());
    assert(seq![z].drop_first() =~= Seq::empty());
}

proof fn lemma_version_key(a: u64, b: u64, c: u64)
    ensures
        key_of(version_text(a, b, c)) == seq![a, b, c],
        normalized("v"@ + version_text(a, b, c)) == version_text(a, b, c),
        normalized("openclaw "@ + version_text(a, b, c)) == version_text(a, b, c),
        normalized(version_text(a, b, c)) == version_text(a, b, c),
{
    let s = version_text(a, b, c);
    lemma_dec(a as nat);
    lemma_dec(c as nat);
    let da = dec(a as nat);
    let dc = dec(c as nat);
    assert(s[0] == da[0]);
    assert(s.last() == dc.last());
    assert(is_digit(da[0]));
    assert(is_digit(dc[dc.len() - 1]));
    lemma_plain_version(s);
    let tail = dec(b as nat) + "."@ + dc;
    assert(s =~= da + "."@ + tail);
    lemma_number_fields(a, tail);
    lemma_number_fields(b, dc);
    lemma_number_fields(c, tail);
    assert(seq![a] + (seq![b] + seq![c]) =~= seq![a, b, c]);
}

/// Whether there is an update is known exactly where both versions are.
pub proof fn law_update_known(candidate: Option<Seq<char>>, current: Option<Seq<char>>)
    ensures
        update_known(candidate, current) is Some <==> candidate is Some && current is Some,
        candidate is Some && current is Some ==> update_known(candidate, current) == Some(
            is_later(candidate->0, current->0),
        ),
        candidate is Some && candidate == current ==> update_known(candidate, current) == Some(
            false,
        ),
{
    if candidate is Some && current is Some {
        law_version_order(candidate->0, current->0, candidate->0);
    }
}

} // verus!
