//! Numbers with a fraction, as counts of a small unit.

use vstd::arithmetic::power::pow;
use vstd::prelude::*;
use vstd::string::*;

use crate::clock::Moment;
use crate::json::{Json, JsonNumber, JsonView, NumberView};
use crate::text::{all_digits, cat3, dec, digit, digit_char, digits_value, lemma_dec};

verus! {

/// The last `k` digits of a number, with leading zeros.
pub open spec fn last_digits(n: nat, k: nat) -> Seq<char>
    decreases k,
{
    if k == 0 {
        Seq::empty()
    } else {
        last_digits(n / 10, (k - 1) as nat).push(digit_char(n % 10))
    }
}

/// The number without its last `k` digits.
pub open spec fn without_digits(n: nat, k: nat) -> nat
    decreases k,
{
    if k == 0 {
        n
    } else {
        without_digits(n / 10, (k - 1) as nat)
    }
}

/// The text of `n` units of which ten to the power of `k` make one.
pub open spec fn fixed_text(n: nat, k: nat) -> Seq<char> {
    dec(without_digits(n, k)) + "."@ + last_digits(n, k)
}

/// The text of `n` units, with a minus sign before a negative number.
pub open spec fn signed_text(n: int, k: nat) -> Seq<char> {
    if n < 0 {
        "-"@ + fixed_text((-n) as nat, k)
    } else {
        fixed_text(n as nat, k)
    }
}

/// The JSON number of `n` units of which ten to the power of `k` make one.
pub open spec fn fixed_value(n: int, k: nat) -> JsonView {
    JsonView::Number(NumberView::Decimal(signed_text(n, k)))
}

fn digits(n: u128) -> (r: String)
    ensures
        r@ == dec(n as nat),
    decreases n,
{
    if n < 10 {
        let mut out = String::new();
        out.push(digit(n as u64));
        assert(out@ =~= dec(n as nat));
        out
    } else {
        let mut out = digits(n / 10);
        out.push(digit((n % 10) as u64));
        out
    }
}

fn tail(n: u128, k: u32) -> (r: String)
    ensures
        r@ == last_digits(n as nat, k as nat),
    decreases k,
{
    if k == 0 {
        let out = String::new();
        assert(out@ =~= Seq::<char>::empty());
        out
    } else {
        let mut out = tail(n / 10, k - 1);
        out.push(digit((n % 10) as u64));
        out
    }
}

fn head(n: u128, k: u32) -> (r: u128)
    ensures
        r == without_digits(n as nat, k as nat),
    decreases k,
{
    if k == 0 {
        n
    } else {
        head(n / 10, k - 1)
    }
}

/// The text of `n` units.
pub fn fixed_decimal(n: u128, k: u32) -> (r: String)
    ensures
        r@ == fixed_text(n as nat, k as nat),
{
    cat3(digits(head(n, k)).as_str(), ".", tail(n, k).as_str())
}

/// The JSON number of `n` units.
pub fn json_fixed(n: u128, k: u32) -> (r: Json)
    ensures
        r@ == fixed_value(n as int, k as nat),
{
    Json::Number(JsonNumber::Decimal(fixed_decimal(n, k)))
}

/// The JSON number of `n` units, with its sign.
pub fn json_fixed_signed(n: i128, k: u32) -> (r: Json)
    requires
        n > i128::MIN,
    ensures
        r@ == fixed_value(n as int, k as nat),
{
    if n < 0 {
        let mut text = "-".to_owned();
        text.append(fixed_decimal((-n) as u128, k).as_str());
        Json::Number(JsonNumber::Decimal(text))
    } else {
        json_fixed(n as u128, k)
    }
}

/// The JSON number of a count of hundredths, or null.
pub open spec fn hundredths_or_null(n: Option<u64>) -> JsonView {
    match n {
        Some(n) => fixed_value(n as int, 2),
        None => JsonView::Null,
    }
}

/// The JSON number of a count of hundredths, or null.
pub fn json_hundredths(n: Option<u64>) -> (r: Json)
    ensures
        r@ == hundredths_or_null(n),
{
    match n {
        Some(n) => json_fixed(n as u128, 2),
        None => Json::Null,
    }
}

/// The JSON number of the seconds of a moment.
pub open spec fn moment_value(m: Moment) -> JsonView {
    fixed_value(m.total_nanos(), 9)
}

/// The JSON number of the seconds of an optional moment, or null.
pub open spec fn moment_or_null(m: Option<Moment>) -> JsonView {
    match m {
        Some(m) => moment_value(m),
        None => JsonView::Null,
    }
}

/// The JSON number of the seconds of a moment.
pub fn json_moment(m: Moment) -> (r: Json)
    ensures
        r@ == moment_value(m),
{
    json_fixed(m.as_nanos(), 9)
}

/// The JSON number of the seconds of an optional moment, or null.
pub fn json_opt_moment(m: Option<Moment>) -> (r: Json)
    ensures
        r@ == moment_or_null(m),
{
    match m {
        Some(m) => json_moment(m),
        None => Json::Null,
    }
}

proof fn lemma_pow_step(k: nat)
    requires
        k > 0,
    ensures
        pow(10, k) == 10 * pow(10, (k - 1) as nat),
        pow(10, (k - 1) as nat) > 0,
{
    reveal(pow);
    vstd::arithmetic::power::lemma_pow_positive(10, (k - 1) as nat);
}

/// Leaving out `k` digits is dividing by ten to the power of `k`, rounded down.
pub proof fn law_without_digits(n: nat, k: nat)
    ensures
        pow(10, k) > 0,
        without_digits(n, k) == n as int / pow(10, k),
        last_digits(n, k).len() == k,
    decreases k,
{
    vstd::arithmetic::power::lemma_pow_positive(10, k);
    if k == 0 {
        vstd::arithmetic::power::lemma_pow0(10);
    } else {
        law_without_digits(n / 10, (k - 1) as nat);
        lemma_pow_step(k);
        vstd::arithmetic::div_mod::lemma_div_denominator(
            n as int,
            10,
            pow(10, (k - 1) as nat),
        );
    }
}

/// The text of a number of units is its decimal digits, with a point before the last `k`
/// of them: without the point it writes the number of units again.
pub proof fn law_fixed_text(n: nat, k: nat)
    ensures
        ({
            let s = fixed_text(n, k);
            let at = s.len() - k - 1;
            &&& at > 0
            &&& s[at] == '.'
            &&& all_digits(s.take(at) + s.skip(at + 1))
            &&& digits_value(s.take(at) + s.skip(at + 1)) == n
        }),
{
    let whole = dec(without_digits(n, k));
    let part = last_digits(n, k);
    let s = fixed_text(n, k);
    reveal_strlit(".");
    law_without_digits(n, k);
    lemma_dec(without_digits(n, k));
    lemma_digits_kept(n, k);
    let at = s.len() - k - 1;
    assert(s.take(at) =~= whole);
    assert(s.skip(at + 1) =~= part);
}

proof fn lemma_digits_kept(n: nat, k: nat)
    ensures
        all_digits(dec(without_digits(n, k)) + last_digits(n, k)),
        digits_value(dec(without_digits(n, k)) + last_digits(n, k)) == n,
    decreases k,
{
    let s = dec(without_digits(n, k)) + last_digits(n, k);
    if k == 0 {
        lemma_dec(n);
        assert(s =~= dec(n));
    } else {
        let m = n / 10;
        lemma_digits_kept(m, (k - 1) as nat);
        let t = dec(without_digits(m, (k - 1) as nat)) + last_digits(m, (k - 1) as nat);
        assert(s =~= t.push(digit_char(n % 10)));
        assert(s.drop_last() =~= t);
    }
}

/// A number of hundredths is told with two digits behind the point, and one that is not known
/// as null.
pub proof fn law_hundredths(n: u64)
    ensures
        hundredths_or_null(Some(n)) == fixed_value(n as int, 2),
        hundredths_or_null(None) is Null,
{
}

} // verus!
