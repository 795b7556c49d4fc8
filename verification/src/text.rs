//! Text operations on strings, seen as sequences of characters.

use vstd::prelude::*;
use vstd::string::*;

verus! {

/// `String::push`: appends the given character to the end of the string.
pub assume_specification[ String::push ](s: &mut String, c: char)
    ensures
        final(s)@ == old(s)@.push(c),
;

// ---------------------------------------------------------------------------
// Character classes
// ---------------------------------------------------------------------------

/// Characters with the Unicode `White_Space` property.
pub open spec fn is_white(c: char) -> bool {
    ||| '\u{9}' <= c <= '\u{d}'
    ||| c == ' '
    ||| c == '\u{85}'
    ||| c == '\u{a0}'
    ||| c == '\u{1680}'
    ||| '\u{2000}' <= c <= '\u{200a}'
    ||| c == '\u{2028}'
    ||| c == '\u{2029}'
    ||| c == '\u{202f}'
    ||| c == '\u{205f}'
    ||| c == '\u{3000}'
}

/// The ASCII digits.
pub open spec fn is_digit(c: char) -> bool {
    '0' <= c <= '9'
}

/// A class of characters.
#[derive(Clone, Copy)]
pub enum CharClass {
    /// White space.
    White,
    /// White space and the two braces.
    BraceOrWhite,
    /// Everything but the ASCII digits.
    NonDigit,
    /// Everything but the ASCII digits and the full stop.
    NonDecimal,
    /// One character.
    Just(char),
}

impl CharClass {
    /// Whether `c` belongs to the class.
    pub open spec fn has(self, c: char) -> bool {
        match self {
            CharClass::White => is_white(c),
            CharClass::BraceOrWhite => c == '{' || c == '}' || is_white(c),
            CharClass::NonDigit => !is_digit(c),
            CharClass::NonDecimal => !is_digit(c) && c != '.',
            CharClass::Just(d) => c == d,
        }
    }

    /// Whether `c` belongs to the class.
    pub fn contains(self, c: char) -> (r: bool)
        ensures
            r == self.has(c),
    {
        match self {
            CharClass::White => white(c),
            CharClass::BraceOrWhite => c == '{' || c == '}' || white(c),
            CharClass::NonDigit => !('0' <= c && c <= '9'),
            CharClass::NonDecimal => !('0' <= c && c <= '9') && c != '.',
            CharClass::Just(d) => c == d,
        }
    }
}

fn white(c: char) -> (r: bool)
    ensures
        r == is_white(c),
{
    ('\u{9}' <= c && c <= '\u{d}') || c == ' ' || c == '\u{85}' || c == '\u{a0}' || c == '\u{1680}'
        || ('\u{2000}' <= c && c <= '\u{200a}') || c == '\u{2028}' || c == '\u{2029}'
        || c == '\u{202f}' || c == '\u{205f}' || c == '\u{3000}'
}

// ---------------------------------------------------------------------------
// Strings and characters
// ---------------------------------------------------------------------------

/// Whether two texts are the same.
pub fn same(a: &str, b: &str) -> (r: bool)
    ensures
        r == (a@ == b@),
{
    a.to_owned() == b.to_owned()
}

/// The characters of a text.
pub fn chars_of(s: &str) -> (r: Vec<char>)
    ensures
        r@ == s@,
{
    let mut out: Vec<char> = Vec::new();
    for c in it: s.chars()
        invariant
            it.seq() == s@,
            out@ == s@.take(it.index()),
    {
        out.push(c);
        assert(s@.take(it.index() + 1) =~= s@.take(it.index()).push(c));
    }
    assert(s@.take(s@.len() as int) =~= s@);
    out
}

/// The characters `from..to` of `chars`, as a string.
pub fn string_between(chars: &Vec<char>, from: usize, to: usize) -> (r: String)
    requires
        from <= to <= chars@.len(),
    ensures
        r@ == chars@.subrange(from as int, to as int),
{
    let mut out = String::new();
    let mut i: usize = from;
    while i < to
        invariant
            from <= i <= to <= chars@.len(),
            out@ == chars@.subrange(from as int, i as int),
        decreases to - i,
    {
        out.push(chars[i]);
        assert(chars@.subrange(from as int, i + 1) =~= chars@.subrange(from as int, i as int).push(
            chars@[i as int],
        ));
        i = i + 1;
    }
    out
}

// ---------------------------------------------------------------------------
// Trimming
// ---------------------------------------------------------------------------

/// `s` without its leading characters of the class.
pub open spec fn without_leading(s: Seq<char>, class: CharClass) -> Seq<char>
    decreases s.len(),
{
    if s.len() > 0 && class.has(s[0]) {
        without_leading(s.drop_first(), class)
    } else {
        s
    }
}

/// `s` without its trailing characters of the class.
pub open spec fn without_trailing(s: Seq<char>, class: CharClass) -> Seq<char>
    decreases s.len(),
{
    if s.len() > 0 && class.has(s.last()) {
        without_trailing(s.drop_last(), class)
    } else {
        s
    }
}

/// `s` without its leading and trailing characters of the class.
pub open spec fn trimmed_of(s: Seq<char>, class: CharClass) -> Seq<char> {
    without_trailing(without_leading(s, class), class)
}

/// `s` without leading and trailing white space.
pub open spec fn trimmed(s: Seq<char>) -> Seq<char> {
    trimmed_of(s, CharClass::White)
}

proof fn lemma_without_leading(s: Seq<char>, class: CharClass, i: int)
    requires
        0 <= i <= s.len(),
        forall|j: int| 0 <= j < i ==> class.has(#[trigger] s[j]),
        i < s.len() ==> !class.has(s[i]),
    ensures
        without_leading(s, class) == s.skip(i),
    decreases i,
{
    if i == 0 {
        assert(s.skip(0) =~= s);
    } else {
        let t = s.drop_first();
        assert forall|j: int| 0 <= j < i - 1 implies class.has(#[trigger] t[j]) by {
            assert(t[j] == s[j + 1]);
        }
        lemma_without_leading(t, class, i - 1);
        assert(t.skip(i - 1) =~= s.skip(i));
    }
}

proof fn lemma_without_trailing(s: Seq<char>, class: CharClass, n: int)
    requires
        0 <= n <= s.len(),
        forall|j: int| n <= j < s.len() ==> class.has(#[trigger] s[j]),
        n > 0 ==> !class.has(s[n - 1]),
    ensures
        without_trailing(s, class) == s.take(n),
    decreases s.len(),
{
    if n == s.len() {
        assert(s.take(n) =~= s);
    } else {
        lemma_without_trailing(s.drop_last(), class, n);
        assert(s.drop_last().take(n) =~= s.take(n));
    }
}

/// The text without its leading characters of the class.
pub fn trim_start_of(s: &str, class: CharClass) -> (r: &str)
    ensures
        r@ == without_leading(s@, class),
{
    let chars = chars_of(s);
    let n = chars.len();
    let mut i: usize = 0;
    while i < n && class.contains(chars[i])
        invariant
            i <= n == chars@.len(),
            forall|j: int| 0 <= j < i ==> class.has(#[trigger] chars@[j]),
        decreases n - i,
    {
        i = i + 1;
    }
    proof {
        lemma_without_leading(s@, class, i as int);
        assert(s@.subrange(i as int, n as int) =~= s@.skip(i as int));
    }
    s.substring_char(i, n)
}

/// The text without its trailing characters of the class.
pub fn trim_end_of(s: &str, class: CharClass) -> (r: &str)
    ensures
        r@ == without_trailing(s@, class),
{
    let chars = chars_of(s);
    let mut n: usize = chars.len();
    while n > 0 && class.contains(chars[n - 1])
        invariant
            n <= chars@.len(),
            forall|j: int| n <= j < chars@.len() ==> class.has(#[trigger] chars@[j]),
        decreases n,
    {
        n = n - 1;
    }
    proof {
        lemma_without_trailing(s@, class, n as int);
        assert(s@.subrange(0, n as int) =~= s@.take(n as int));
    }
    s.substring_char(0, n)
}

/// The text without its leading and trailing characters of the class.
pub fn trim_of(s: &str, class: CharClass) -> (r: &str)
    ensures
        r@ == trimmed_of(s@, class),
{
    trim_end_of(trim_start_of(s, class), class)
}

/// The text without leading and trailing white space.
pub fn trim(s: &str) -> (r: &str)
    ensures
        r@ == trimmed(s@),
{
    trim_of(s, CharClass::White)
}

// ---------------------------------------------------------------------------
// Searching
// ---------------------------------------------------------------------------

/// Whether `p` stands in `s` at position `i`.
pub open spec fn occurs_at(s: Seq<char>, p: Seq<char>, i: int) -> bool {
    0 <= i && i + p.len() <= s.len() && s.subrange(i, i + p.len()) == p
}

/// The first position at or after `from` at which `p` stands in `s`.
pub open spec fn first_from(s: Seq<char>, p: Seq<char>, from: int) -> Option<int>
    decreases s.len() - from,
{
    if from < 0 || from + p.len() > s.len() {
        None
    } else if occurs_at(s, p, from) {
        Some(from)
    } else if from < s.len() {
        first_from(s, p, from + 1)
    } else {
        None
    }
}

/// The first position at which `p` stands in `s`.
pub open spec fn first_of(s: Seq<char>, p: Seq<char>) -> Option<int> {
    first_from(s, p, 0)
}

/// Whether `p` stands somewhere in `s`.
pub open spec fn occurs(s: Seq<char>, p: Seq<char>) -> bool {
    exists|i: int| occurs_at(s, p, i)
}

/// Whether `p` stands in `chars` at position `i`.
fn stands_at(chars: &Vec<char>, p: &Vec<char>, i: usize) -> (r: bool)
    requires
        i <= chars@.len(),
    ensures
        r == occurs_at(chars@, p@, i as int),
{
    if p.len() > chars.len() - i {
        return false;
    }
    let n = chars.len();
    let mut k: usize = 0;
    while k < p.len()
        invariant
            k <= p@.len(),
            i + p@.len() <= n == chars@.len(),
            chars@.subrange(i as int, i + k) == p@.take(k as int),
        decreases p@.len() - k,
    {
        if chars[i + k] != p[k] {
            proof {
                assert(chars@.subrange(i as int, i + p@.len())[k as int] != p@[k as int]);
            }
            return false;
        }
        proof {
            assert(chars@.subrange(i as int, i + k + 1) =~= chars@.subrange(
                i as int,
                i + k,
            ).push(chars@[i + k]));
            assert(p@.take(k + 1) =~= p@.take(k as int).push(p@[k as int]));
        }
        k = k + 1;
    }
    assert(p@.take(k as int) =~= p@);
    true
}

/// The first position at or after `from` at which `p` stands in `chars`.
pub fn find_from(chars: &Vec<char>, p: &str, from: usize) -> (r: Option<usize>)
    requires
        from <= chars@.len(),
    ensures
        match r {
            Some(i) => first_from(chars@, p@, from as int) == Some(i as int),
            None => first_from(chars@, p@, from as int) is None,
        },
{
    let pattern = chars_of(p);
    let mut i: usize = from;
    loop
        invariant
            from <= i <= chars@.len(),
            pattern@ == p@,
            first_from(chars@, p@, from as int) == first_from(chars@, p@, i as int),
        decreases chars@.len() - i,
    {
        if stands_at(chars, &pattern, i) {
            return Some(i);
        }
        if i == chars.len() {
            return None;
        }
        i = i + 1;
    }
}

proof fn lemma_first_from(s: Seq<char>, p: Seq<char>, from: int)
    requires
        0 <= from <= s.len(),
    ensures
        match first_from(s, p, from) {
            Some(i) => from <= i && occurs_at(s, p, i) && (forall|j: int|
                from <= j < i ==> !occurs_at(s, p, j)),
            None => forall|j: int| from <= j ==> !occurs_at(s, p, j),
        },
    decreases s.len() - from,
{
    if from + p.len() <= s.len() && !occurs_at(s, p, from) && from < s.len() {
        lemma_first_from(s, p, from + 1);
    }
}

/// [`first_of`] gives the least position at which the pattern stands, and gives
/// none exactly when the pattern stands nowhere.
pub proof fn law_first_of(s: Seq<char>, p: Seq<char>)
    ensures
        first_of(s, p) is Some <==> occurs(s, p),
        first_of(s, p) matches Some(i) ==> occurs_at(s, p, i) && (forall|j: int|
            j < i ==> !occurs_at(s, p, j)),
{
    lemma_first_from(s, p, 0);
}

/// Whether `p` stands somewhere in `s`.
pub fn contains(s: &str, p: &str) -> (r: bool)
    ensures
        r == occurs(s@, p@),
{
    let chars = chars_of(s);
    let found = find_from(&chars, p, 0);
    proof {
        law_first_of(s@, p@);
    }
    found.is_some()
}

/// Whether the character stands somewhere in `s`.
pub fn contains_char(s: &str, c: char) -> (r: bool)
    ensures
        r == s@.contains(c),
{
    let chars = chars_of(s);
    let mut i: usize = 0;
    while i < chars.len()
        invariant
            i <= chars@.len(),
            chars@ == s@,
            forall|j: int| 0 <= j < i ==> s@[j] != c,
        decreases chars@.len() - i,
    {
        if chars[i] == c {
            return true;
        }
        i = i + 1;
    }
    false
}

/// Whether `s` begins with `p`.
pub open spec fn begins_with(s: Seq<char>, p: Seq<char>) -> bool {
    occurs_at(s, p, 0)
}

/// What follows the prefix `p`, if `s` begins with it.
pub fn strip_prefix<'a>(s: &'a str, p: &str) -> (r: Option<&'a str>)
    ensures
        match r {
            Some(rest) => begins_with(s@, p@) && rest@ == s@.skip(p@.len() as int),
            None => !begins_with(s@, p@),
        },
{
    let chars = chars_of(s);
    let pattern = chars_of(p);
    if stands_at(&chars, &pattern, 0) {
        assert(s@.subrange(p@.len() as int, s@.len() as int) =~= s@.skip(p@.len() as int));
        Some(s.substring_char(pattern.len(), chars.len()))
    } else {
        None
    }
}

/// Whether `s` begins with `p`.
pub fn starts_with(s: &str, p: &str) -> (r: bool)
    ensures
        r == begins_with(s@, p@),
{
    let chars = chars_of(s);
    let pattern = chars_of(p);
    stands_at(&chars, &pattern, 0)
}

/// `s` without the word `p` as often as `p` stands at its beginning.
pub open spec fn without_leading_word(s: Seq<char>, p: Seq<char>) -> Seq<char>
    decreases s.len(),
{
    if p.len() > 0 && begins_with(s, p) {
        without_leading_word(s.skip(p.len() as int), p)
    } else {
        s
    }
}

/// The text without the word `p` as often as `p` stands at its beginning.
pub fn trim_start_word<'a>(s: &'a str, p: &str) -> (r: &'a str)
    requires
        p@.len() > 0,
    ensures
        r@ == without_leading_word(s@, p@),
    decreases s@.len(),
{
    match strip_prefix(s, p) {
        Some(rest) => trim_start_word(rest, p),
        None => s,
    }
}

// ---------------------------------------------------------------------------
// Splitting
// ---------------------------------------------------------------------------

/// The number of characters before the first one of the class.
pub open spec fn run_len(s: Seq<char>, class: CharClass) -> nat
    decreases s.len(),
{
    if s.len() > 0 && !class.has(s[0]) {
        1 + run_len(s.drop_first(), class)
    } else {
        0
    }
}

proof fn lemma_run_len(s: Seq<char>, class: CharClass, n: int)
    requires
        0 <= n <= s.len(),
        forall|j: int| 0 <= j < n ==> !class.has(#[trigger] s[j]),
        n < s.len() ==> class.has(s[n]),
    ensures
        run_len(s, class) == n,
    decreases n,
{
    if n > 0 {
        let t = s.drop_first();
        assert forall|j: int| 0 <= j < n - 1 implies !class.has(#[trigger] t[j]) by {
            assert(t[j] == s[j + 1]);
        }
        lemma_run_len(t, class, n - 1);
    }
}

proof fn lemma_run_len_bound(s: Seq<char>, class: CharClass)
    ensures
        run_len(s, class) <= s.len(),
        forall|j: int| 0 <= j < run_len(s, class) ==> !class.has(#[trigger] s[j]),
        run_len(s, class) < s.len() ==> class.has(s[run_len(s, class) as int]),
    decreases s.len(),
{
    if s.len() > 0 && !class.has(s[0]) {
        lemma_run_len_bound(s.drop_first(), class);
        let t = s.drop_first();
        assert forall|j: int| 0 <= j < run_len(s, class) implies !class.has(#[trigger] s[j]) by {
            if j > 0 {
                assert(t[j - 1] == s[j]);
            }
        }
    }
}

/// The position of the first character of the class at or after `from`, or the end.
pub fn run_end(chars: &Vec<char>, class: CharClass, from: usize) -> (r: usize)
    requires
        from <= chars@.len(),
    ensures
        from <= r <= chars@.len(),
        r == from + run_len(chars@.skip(from as int), class),
{
    let n = chars.len();
    let mut i: usize = from;
    while i < n && !class.contains(chars[i])
        invariant
            from <= i <= n == chars@.len(),
            forall|j: int| from <= j < i ==> !class.has(#[trigger] chars@[j]),
        decreases n - i,
    {
        i = i + 1;
    }
    proof {
        let s = chars@.skip(from as int);
        assert forall|j: int| 0 <= j < i - from implies !class.has(#[trigger] s[j]) by {
            assert(s[j] == chars@[from + j]);
        }
        lemma_run_len(s, class, i - from);
    }
    i
}

proof fn lemma_without_leading_len(s: Seq<char>, class: CharClass)
    ensures
        without_leading(s, class).len() <= s.len(),
        without_leading(s, class).len() > 0 ==> !class.has(without_leading(s, class)[0]),
    decreases s.len(),
{
    if s.len() > 0 && class.has(s[0]) {
        lemma_without_leading_len(s.drop_first(), class);
    }
}

/// The longest runs of characters outside the class, in order.
pub open spec fn fields(s: Seq<char>, class: CharClass) -> Seq<Seq<char>>
    decreases s.len(),
    via fields_decreases
{
    let t = without_leading(s, class);
    if t.len() == 0 {
        Seq::empty()
    } else {
        let n = run_len(t, class) as int;
        seq![t.take(n)] + fields(t.skip(n), class)
    }
}

#[via_fn]
proof fn fields_decreases(s: Seq<char>, class: CharClass) {
    lemma_without_leading_len(s, class);
    let t = without_leading(s, class);
    if t.len() > 0 {
        lemma_run_len_bound(t, class);
    }
}

/// The views of a sequence of strings.
pub open spec fn texts(v: Seq<String>) -> Seq<Seq<char>> {
    v.map_values(|s: String| s@)
}

/// The longest runs of characters outside the class, in order.
pub fn split_fields(s: &str, class: CharClass) -> (r: Vec<String>)
    ensures
        texts(r@) == fields(s@, class),
{
    let chars = chars_of(s);
    let n = chars.len();
    let mut out: Vec<String> = Vec::new();
    let mut i: usize = 0;
    assert(s@.skip(0) =~= s@);
    assert(texts(out@) + fields(s@, class) =~= fields(s@, class));
    loop
        invariant
            i <= n == chars@.len(),
            chars@ == s@,
            texts(out@) + fields(s@.skip(i as int), class) == fields(s@, class),
        decreases n - i,
    {
        let ghost rest = s@.skip(i as int);
        let mut a: usize = i;
        while a < n && class.contains(chars[a])
            invariant
                i <= a <= n == chars@.len(),
                chars@ == s@,
                forall|j: int| i <= j < a ==> class.has(#[trigger] chars@[j]),
            decreases n - a,
        {
            a = a + 1;
        }
        proof {
            assert forall|j: int| 0 <= j < a - i implies class.has(#[trigger] rest[j]) by {
                assert(rest[j] == chars@[i + j]);
            }
            lemma_without_leading(rest, class, a - i);
            assert(rest.skip(a - i) =~= s@.skip(a as int));
        }
        if a == n {
            assert(fields(rest, class) =~= Seq::empty());
            assert(texts(out@) + Seq::<Seq<char>>::empty() =~= texts(out@));
            return out;
        }
        let b = run_end(&chars, class, a);
        let ghost t = s@.skip(a as int);
        proof {
            lemma_without_leading_len(rest, class);
            lemma_run_len_bound(t, class);
            assert(t.take(b - a) =~= s@.subrange(a as int, b as int));
            assert(t.skip(b - a) =~= s@.skip(b as int));
        }
        let word = string_between(&chars, a, b);
        let ghost before = out@;
        out.push(word);
        proof {
            assert(texts(out@) =~= texts(before).push(word@));
            assert(texts(out@) + fields(s@.skip(b as int), class) =~= texts(before) + (seq![word@]
                + fields(s@.skip(b as int), class)));
        }
        i = b;
    }
}

/// `s` without one trailing carriage return.
pub open spec fn without_carriage_return(s: Seq<char>) -> Seq<char> {
    if s.len() > 0 && s.last() == '\r' {
        s.drop_last()
    } else {
        s
    }
}

/// The lines of a text: each ends with a line feed or with a carriage return and
/// a line feed, neither of which belongs to it; the last one may end with the text.
pub open spec fn lines(s: Seq<char>) -> Seq<Seq<char>>
    decreases s.len(),
{
    let n = run_len(s, CharClass::Just('\n')) as int;
    if s.len() == 0 {
        Seq::empty()
    } else if n >= s.len() {
        seq![s]
    } else {
        seq![without_carriage_return(s.take(n))] + lines(s.skip(n + 1))
    }
}

/// The lines of a text.
pub fn split_lines(s: &str) -> (r: Vec<String>)
    ensures
        texts(r@) == lines(s@),
{
    let chars = chars_of(s);
    let n = chars.len();
    let mut out: Vec<String> = Vec::new();
    let mut i: usize = 0;
    assert(s@.skip(0) =~= s@);
    assert(texts(out@) + lines(s@) =~= lines(s@));
    while i < n
        invariant
            i <= n == chars@.len(),
            chars@ == s@,
            texts(out@) + lines(s@.skip(i as int)) == lines(s@),
        decreases n - i,
    {
        let ghost rest = s@.skip(i as int);
        let ghost before = out@;
        let b = run_end(&chars, CharClass::Just('\n'), i);
        if b == n {
            let line = string_between(&chars, i, n);
            out.push(line);
            proof {
                assert(line@ =~= rest);
                assert(texts(out@) =~= texts(before).push(line@));
                assert(texts(out@) =~= texts(before) + seq![rest]);
                assert(s@.skip(n as int) =~= Seq::empty());
                assert(lines(s@.skip(n as int)) =~= Seq::empty());
                assert(texts(out@) + lines(s@.skip(n as int)) =~= texts(out@));
            }
            i = n;
        } else {
            let mut e: usize = b;
            if e > i && chars[e - 1] == '\r' {
                e = e - 1;
            }
            let line = string_between(&chars, i, e);
            out.push(line);
            proof {
                assert(rest.take(b - i) =~= s@.subrange(i as int, b as int));
                assert(line@ =~= without_carriage_return(rest.take(b - i)));
                assert(rest.skip(b - i + 1) =~= s@.skip(b + 1));
                assert(texts(out@) =~= texts(before).push(line@));
                assert(texts(out@) + lines(s@.skip(b + 1)) =~= texts(before) + (seq![line@] + lines(
                    s@.skip(b + 1),
                )));
            }
            i = b + 1;
        }
    }
    proof {
        assert(s@.skip(n as int) =~= Seq::empty());
        assert(texts(out@) + lines(s@.skip(n as int)) =~= texts(out@));
    }
    out
}

// ---------------------------------------------------------------------------
// Numbers
// ---------------------------------------------------------------------------

/// The digit with the value `n`.
pub open spec fn digit_char(n: nat) -> char {
    if n == 0 {
        '0'
    } else if n == 1 {
        '1'
    } else if n == 2 {
        '2'
    } else if n == 3 {
        '3'
    } else if n == 4 {
        '4'
    } else if n == 5 {
        '5'
    } else if n == 6 {
        '6'
    } else if n == 7 {
        '7'
    } else if n == 8 {
        '8'
    } else {
        '9'
    }
}

/// The value of a digit.
pub open spec fn digit_value(c: char) -> nat {
    if is_digit(c) {
        (c as int - '0' as int) as nat
    } else {
        0
    }
}

/// The decimal text of a natural number.
pub open spec fn dec(n: nat) -> Seq<char>
    decreases n,
{
    if n < 10 {
        seq![digit_char(n)]
    } else {
        dec(n / 10).push(digit_char(n % 10))
    }
}

/// The decimal text of an integer: a minus sign stands before a negative one.
pub open spec fn dec_int(n: int) -> Seq<char> {
    if n < 0 {
        seq!['-'] + dec((-n) as nat)
    } else {
        dec(n as nat)
    }
}

/// Whether `s` holds digits only.
pub open spec fn all_digits(s: Seq<char>) -> bool {
    forall|i: int| 0 <= i < s.len() ==> is_digit(#[trigger] s[i])
}

/// The number that a sequence of digits writes.
pub open spec fn digits_value(s: Seq<char>) -> nat
    decreases s.len(),
{
    if s.len() == 0 {
        0
    } else {
        digits_value(s.drop_last()) * 10 + digit_value(s.last())
    }
}

/// `s` without one leading plus sign.
pub open spec fn without_plus(s: Seq<char>) -> Seq<char> {
    if s.len() > 0 && s[0] == '+' {
        s.drop_first()
    } else {
        s
    }
}

/// The number that `s` writes, if it writes one of 64 bits without sign.
pub open spec fn u64_of(s: Seq<char>) -> Option<u64> {
    let d = without_plus(s);
    if d.len() > 0 && all_digits(d) && digits_value(d) <= u64::MAX {
        Some(digits_value(d) as u64)
    } else {
        None
    }
}

/// The number that `s` writes, if it writes one of 64 bits with sign.
pub open spec fn i64_of(s: Seq<char>) -> Option<i64> {
    if s.len() > 0 && s[0] == '-' {
        let d = s.drop_first();
        if d.len() > 0 && all_digits(d) && digits_value(d) <= -(i64::MIN as int) {
            Some((-(digits_value(d) as int)) as i64)
        } else {
            None
        }
    } else {
        let d = without_plus(s);
        if d.len() > 0 && all_digits(d) && digits_value(d) <= i64::MAX {
            Some(digits_value(d) as i64)
        } else {
            None
        }
    }
}

proof fn lemma_digits_value_grows(s: Seq<char>, n: int)
    requires
        0 <= n <= s.len(),
    ensures
        digits_value(s.take(n)) <= digits_value(s),
    decreases s.len(),
{
    if n == s.len() {
        assert(s.take(n) =~= s);
    } else {
        lemma_digits_value_grows(s.drop_last(), n);
        assert(s.drop_last().take(n) =~= s.take(n));
    }
}

/// The number that the digits from position `from` on write, if it fits.
fn magnitude(chars: &Vec<char>, from: usize) -> (r: Option<u64>)
    requires
        from <= chars@.len(),
    ensures
        ({
            let d = chars@.skip(from as int);
            r == if d.len() > 0 && all_digits(d) && digits_value(d) <= u64::MAX {
                Some(digits_value(d) as u64)
            } else {
                None
            }
        }),
{
    let n = chars.len();
    let ghost d = chars@.skip(from as int);
    if from == n {
        return None;
    }
    let mut i: usize = from;
    let mut value: u64 = 0;
    assert(d.take(0) =~= Seq::empty());
    while i < n
        invariant
            from <= i <= n == chars@.len(),
            d == chars@.skip(from as int),
            value == digits_value(d.take(i - from)),
            forall|j: int| 0 <= j < i - from ==> is_digit(#[trigger] d[j]),
        decreases n - i,
    {
        let c = chars[i];
        proof {
            assert(d[i - from] == c);
            assert(d.take(i - from + 1).drop_last() =~= d.take(i - from));
            lemma_digits_value_grows(d, i - from + 1);
        }
        if !('0' <= c && c <= '9') {
            return None;
        }
        let digit: u64 = (c as u32 - '0' as u32) as u64;
        if value > (u64::MAX - digit) / 10 {
            assert(value * 10 + digit > u64::MAX);
            return None;
        }
        value = value * 10 + digit;
        i = i + 1;
    }
    assert(d.take(n - from) =~= d);
    Some(value)
}

/// The number that the text writes, if it writes one of 64 bits without sign.
pub fn parse_u64(s: &str) -> (r: Option<u64>)
    ensures
        r == u64_of(s@),
{
    let chars = chars_of(s);
    if chars.len() > 0 && chars[0] == '+' {
        assert(s@.skip(1) =~= s@.drop_first());
        magnitude(&chars, 1)
    } else {
        assert(s@.skip(0) =~= s@);
        magnitude(&chars, 0)
    }
}

/// The number that the text writes, if it writes one of 64 bits with sign.
pub fn parse_i64(s: &str) -> (r: Option<i64>)
    ensures
        r == i64_of(s@),
{
    let chars = chars_of(s);
    assert(s@.skip(0) =~= s@);
    if chars.len() > 0 && chars[0] == '-' {
        assert(s@.skip(1) =~= s@.drop_first());
        match magnitude(&chars, 1) {
            Some(m) => {
                if m == 0x8000_0000_0000_0000 {
                    Some(i64::MIN)
                } else if m < 0x8000_0000_0000_0000 {
                    Some(-(m as i64))
                } else {
                    None
                }
            },
            None => None,
        }
    } else {
        let m = if chars.len() > 0 && chars[0] == '+' {
            assert(s@.skip(1) =~= s@.drop_first());
            magnitude(&chars, 1)
        } else {
            magnitude(&chars, 0)
        };
        match m {
            Some(m) => {
                if m < 0x8000_0000_0000_0000 {
                    Some(m as i64)
                } else {
                    None
                }
            },
            None => None,
        }
    }
}

/// The digit with the value `n`.
pub(crate) fn digit(n: u64) -> (r: char)
    requires
        n < 10,
    ensures
        r == digit_char(n as nat),
{
    match n {
        0 => '0',
        1 => '1',
        2 => '2',
        3 => '3',
        4 => '4',
        5 => '5',
        6 => '6',
        7 => '7',
        8 => '8',
        _ => '9',
    }
}

/// The decimal text of a number.
pub fn decimal(n: u64) -> (r: String)
    ensures
        r@ == dec(n as nat),
    decreases n,
{
    if n < 10 {
        let mut out = String::new();
        out.push(digit(n));
        assert(out@ =~= dec(n as nat));
        out
    } else {
        let mut out = decimal(n / 10);
        out.push(digit(n % 10));
        out
    }
}

/// The decimal text of a number with sign.
pub fn decimal_i64(n: i64) -> (r: String)
    ensures
        r@ == dec_int(n as int),
{
    if n < 0 {
        let magnitude: u64 = if n == i64::MIN {
            0x8000_0000_0000_0000
        } else {
            (-n) as u64
        };
        let mut out = String::new();
        out.push('-');
        let digits = decimal(magnitude);
        out.append(digits.as_str());
        assert(out@ =~= dec_int(n as int));
        out
    } else {
        decimal(n as u64)
    }
}

/// The decimal text of a number holds digits only, and their value is the number.
pub proof fn lemma_dec(n: nat)
    ensures
        dec(n).len() > 0,
        all_digits(dec(n)),
        digits_value(dec(n)) == n,
    decreases n,
{
    if n < 10 {
        let s = dec(n);
        assert(s.drop_last() =~= Seq::empty());
        assert(digits_value(s.drop_last()) == 0);
    } else {
        lemma_dec(n / 10);
        let s = dec(n);
        assert(s.drop_last() =~= dec(n / 10));
        assert forall|i: int| 0 <= i < s.len() implies is_digit(#[trigger] s[i]) by {
            if i < s.len() - 1 {
                assert(s[i] == dec(n / 10)[i]);
            }
        }
    }
}

/// Reading back the decimal text of a number gives the number.
pub proof fn law_decimal_read_back(n: u64)
    ensures
        u64_of(dec(n as nat)) == Some(n),
{
    lemma_dec(n as nat);
    assert(is_digit(dec(n as nat)[0]));
}

/// Reading back the decimal text of a number with sign gives the number.
pub proof fn law_decimal_i64_read_back(n: i64)
    ensures
        i64_of(dec_int(n as int)) == Some(n),
{
    if n < 0 {
        lemma_dec((-n) as nat);
        assert(dec_int(n as int).drop_first() =~= dec((-n) as nat));
    } else {
        lemma_dec(n as nat);
        assert(is_digit(dec(n as nat)[0]));
    }
}

// ---------------------------------------------------------------------------
// Order
// ---------------------------------------------------------------------------

/// Whether `a` stands before `b` in the order of their first difference; a text
/// stands before what continues it.
pub open spec fn text_before(a: Seq<char>, b: Seq<char>) -> bool
    decreases a.len(),
{
    if b.len() == 0 {
        false
    } else if a.len() == 0 {
        true
    } else if a[0] != b[0] {
        a[0] < b[0]
    } else {
        text_before(a.drop_first(), b.drop_first())
    }
}

/// Whether `a` stands before `b`.
pub fn is_before(a: &str, b: &str) -> (r: bool)
    ensures
        r == text_before(a@, b@),
{
    let x = chars_of(a);
    let y = chars_of(b);
    let mut i: usize = 0;
    assert(a@.skip(0) =~= a@);
    assert(b@.skip(0) =~= b@);
    loop
        invariant
            i <= x@.len(),
            i <= y@.len(),
            x@ == a@,
            y@ == b@,
            text_before(a@.skip(i as int), b@.skip(i as int)) == text_before(a@, b@),
        decreases x@.len() - i,
    {
        if i == y.len() {
            return false;
        }
        if i == x.len() {
            return true;
        }
        if x[i] != y[i] {
            return x[i] < y[i];
        }
        proof {
            assert(a@.skip(i as int).drop_first() =~= a@.skip(i + 1));
            assert(b@.skip(i as int).drop_first() =~= b@.skip(i + 1));
        }
        i = i + 1;
    }
}

/// [`text_before`] is a strict total order.
pub proof fn law_text_order(a: Seq<char>, b: Seq<char>, c: Seq<char>)
    ensures
        !text_before(a, a),
        text_before(a, b) ==> !text_before(b, a),
        a == b || text_before(a, b) || text_before(b, a),
        text_before(a, b) && text_before(b, c) ==> text_before(a, c),
    decreases a.len() + b.len() + c.len(),
{
    if a.len() > 0 {
        if b.len() > 0 && c.len() > 0 {
            law_text_order(a.drop_first(), b.drop_first(), c.drop_first());
        } else if b.len() > 0 {
            law_text_order(a.drop_first(), b.drop_first(), Seq::empty());
        } else {
            law_text_order(a.drop_first(), Seq::empty(), Seq::empty());
        }
        if b.len() > 0 && a[0] == b[0] && a.drop_first() == b.drop_first() {
            assert(a =~= seq![a[0]] + a.drop_first());
            assert(b =~= seq![b[0]] + b.drop_first());
        }
    } else if b.len() == 0 {
        assert(a =~= b);
    }
}

// ---------------------------------------------------------------------------
// Joining
// ---------------------------------------------------------------------------

/// Two texts one after the other.
pub fn cat(a: &str, b: &str) -> (r: String)
    ensures
        r@ == a@ + b@,
{
    let mut out = a.to_owned();
    out.append(b);
    out
}

/// Three texts one after the other.
pub fn cat3(a: &str, b: &str, c: &str) -> (r: String)
    ensures
        r@ == a@ + b@ + c@,
{
    let mut out = a.to_owned();
    out.append(b);
    out.append(c);
    out
}

/// Five texts one after the other.
pub fn cat5(a: &str, b: &str, c: &str, d: &str, e: &str) -> (r: String)
    ensures
        r@ == a@ + b@ + c@ + d@ + e@,
{
    let mut out = cat3(a, b, c);
    out.append(d);
    out.append(e);
    out
}

/// The parts one after the other, with `sep` between each two.
pub open spec fn joined(parts: Seq<Seq<char>>, sep: Seq<char>) -> Seq<char>
    decreases parts.len(),
{
    if parts.len() == 0 {
        Seq::empty()
    } else if parts.len() == 1 {
        parts[0]
    } else {
        joined(parts.drop_last(), sep) + sep + parts.last()
    }
}

/// The parts one after the other, with `sep` between each two.
pub fn join(parts: &Vec<String>, sep: &str) -> (r: String)
    ensures
        r@ == joined(texts(parts@), sep@),
{
    let mut out = String::new();
    let mut i: usize = 0;
    assert(texts(parts@).take(0) =~= Seq::empty());
    while i < parts.len()
        invariant
            i <= parts@.len(),
            out@ == joined(texts(parts@).take(i as int), sep@),
        decreases parts@.len() - i,
    {
        let ghost t = texts(parts@);
        proof {
            assert(t.take(i + 1).drop_last() =~= t.take(i as int));
            assert(t.take(i + 1).last() == parts@[i as int]@);
        }
        if i > 0 {
            out.append(sep);
            out.append(parts[i].as_str());
        } else {
            out.append(parts[i].as_str());
            assert(out@ =~= t.take(1)[0]);
        }
        i = i + 1;
    }
    assert(texts(parts@).take(parts@.len() as int) =~= texts(parts@));
    out
}

/// Trimming takes away what belongs to the class at both ends, and nothing else.
pub proof fn law_trimmed(a: Seq<char>, s: Seq<char>, b: Seq<char>, class: CharClass)
    requires
        forall|i: int| 0 <= i < a.len() ==> class.has(#[trigger] a[i]),
        forall|i: int| 0 <= i < b.len() ==> class.has(#[trigger] b[i]),
        s.len() > 0 ==> !class.has(s[0]) && !class.has(s.last()),
    ensures
        trimmed_of(a + s + b, class) == s,
{
    let t = a + s + b;
    if s.len() > 0 {
        assert forall|j: int| 0 <= j < a.len() implies class.has(#[trigger] t[j]) by {
            assert(t[j] == a[j]);
        }
        assert(t[a.len() as int] == s[0]);
        lemma_without_leading(t, class, a.len() as int);
        let u = t.skip(a.len() as int);
        assert(u =~= s + b);
        assert forall|j: int| s.len() <= j < u.len() implies class.has(#[trigger] u[j]) by {
            assert(u[j] == b[j - s.len()]);
        }
        lemma_without_trailing(u, class, s.len() as int);
        assert(u.take(s.len() as int) =~= s);
    } else {
        assert forall|j: int| 0 <= j < t.len() implies class.has(#[trigger] t[j]) by {
            if j < a.len() {
                assert(t[j] == a[j]);
            } else {
                assert(t[j] == b[j - a.len()]);
            }
        }
        lemma_without_leading(t, class, t.len() as int);
        assert(t.skip(t.len() as int) =~= s);
    }
}

/// What is left after trimming stands in the text.
pub proof fn lemma_trimmed_occurs(s: Seq<char>, class: CharClass)
    ensures
        occurs(s, trimmed_of(s, class)),
{
    let i = lemma_leading_part(s, class);
    let t = without_leading(s, class);
    let n = lemma_trailing_part(t, class);
    assert(s.subrange(i, i + n) =~= trimmed_of(s, class));
    assert(occurs_at(s, trimmed_of(s, class), i));
}

proof fn lemma_leading_part(s: Seq<char>, class: CharClass) -> (i: int)
    ensures
        0 <= i <= s.len(),
        without_leading(s, class) == s.skip(i),
    decreases s.len(),
{
    if s.len() > 0 && class.has(s[0]) {
        let i = lemma_leading_part(s.drop_first(), class);
        assert(s.drop_first().skip(i) =~= s.skip(i + 1));
        i + 1
    } else {
        assert(s.skip(0) =~= s);
        0
    }
}

proof fn lemma_trailing_part(s: Seq<char>, class: CharClass) -> (n: int)
    ensures
        0 <= n <= s.len(),
        without_trailing(s, class) == s.take(n),
    decreases s.len(),
{
    if s.len() > 0 && class.has(s.last()) {
        let n = lemma_trailing_part(s.drop_last(), class);
        assert(s.drop_last().take(n) =~= s.take(n));
        n
    } else {
        assert(s.take(s.len() as int) =~= s);
        s.len() as int
    }
}

/// What stands in a part of a text stands in the text.
pub proof fn lemma_occurs_in_part(s: Seq<char>, from: int, to: int, p: Seq<char>)
    requires
        0 <= from <= to <= s.len(),
        occurs(s.subrange(from, to), p),
    ensures
        occurs(s, p),
{
    let t = s.subrange(from, to);
    let i = choose|i: int| occurs_at(t, p, i);
    assert(t.subrange(i, i + p.len()) =~= s.subrange(from + i, from + i + p.len()));
    assert(occurs_at(s, p, from + i));
}

/// The run at the beginning of a text ends at the first character of the class.
pub proof fn law_run(a: Seq<char>, c: char, rest: Seq<char>, class: CharClass)
    requires
        forall|j: int| 0 <= j < a.len() ==> !class.has(#[trigger] a[j]),
        class.has(c),
    ensures
        run_len(a.push(c) + rest, class) == a.len(),
        run_len(a, class) == a.len(),
{
    let s = a.push(c) + rest;
    assert forall|j: int| 0 <= j < a.len() implies !class.has(#[trigger] s[j]) by {
        assert(s[j] == a[j]);
    }
    assert(s[a.len() as int] == c);
    lemma_run_len(s, class, a.len() as int);
    lemma_run_len(a, class, a.len() as int);
}

/// A text falls into words at the characters of the class, however many stand together: a
/// word that one of them ends comes before the words of the rest, and one of them at the
/// beginning does not matter.
pub proof fn law_fields(a: Seq<char>, c: char, rest: Seq<char>, class: CharClass)
    requires
        forall|j: int| 0 <= j < a.len() ==> !class.has(#[trigger] a[j]),
        class.has(c),
    ensures
        a.len() > 0 ==> fields(a.push(c) + rest, class) == seq![a] + fields(rest, class),
        a.len() > 0 ==> fields(a, class) == seq![a],
        fields(seq![c] + rest, class) == fields(rest, class),
        fields(Seq::empty(), class).len() == 0,
{
    let led = seq![c] + rest;
    assert(led.drop_first() =~= rest);
    assert(without_leading(led, class) == without_leading(rest, class));
    assert(fields(led, class) =~= fields(rest, class));
    let none = Seq::<char>::empty();
    assert(fields(none, class).len() == 0);
    if a.len() > 0 {
        let s = a.push(c) + rest;
        assert(s[0] == a[0]);
        law_run(a, c, rest, class);
        let n = a.len() as int;
        assert(s.take(n) =~= a);
        assert(s.skip(n) =~= led);
        assert(a.take(n) =~= a);
        assert(a.skip(n) =~= none);
        assert(seq![a] + fields(none, class) =~= seq![a]);
    }
}

/// A text falls into lines at the line feeds: what stands before the first one is the first
/// line, without a carriage return at its end, and the others are the lines of the rest. A
/// text without a line feed is one line, and one without characters is none.
pub proof fn law_lines(line: Seq<char>, rest: Seq<char>)
    requires
        forall|j: int| 0 <= j < line.len() ==> #[trigger] line[j] != '\n',
        line.len() == 0 || line.last() != '\r',
    ensures
        lines(line.push('\n') + rest) == seq![line] + lines(rest),
        lines(line.push('\r').push('\n') + rest) == seq![line] + lines(rest),
        line.len() > 0 ==> lines(line) == seq![line],
        lines(Seq::empty()).len() == 0,
{
    let class = CharClass::Just('\n');
    assert forall|j: int| 0 <= j < line.len() implies !class.has(#[trigger] line[j]) by {}
    law_run(line, '\n', rest, class);
    let s = line.push('\n') + rest;
    let n = line.len() as int;
    assert(s.take(n) =~= line);
    assert(s.skip(n + 1) =~= rest);
    let long = line.push('\r');
    assert forall|j: int| 0 <= j < long.len() implies !class.has(#[trigger] long[j]) by {}
    law_run(long, '\n', rest, class);
    let t = long.push('\n') + rest;
    assert(t.take(n + 1) =~= long);
    assert(t.skip(n + 2) =~= rest);
    assert(long.drop_last() =~= line);
}

/// Of two texts that begin alike, the one with the lesser character at the first difference
/// stands before the other; and a text stands before what continues it.
pub proof fn law_first_difference(
    start: Seq<char>,
    c: char,
    x: Seq<char>,
    d: char,
    y: Seq<char>,
)
    requires
        c < d,
    ensures
        text_before(start.push(c) + x, start.push(d) + y),
        !text_before(start.push(d) + y, start.push(c) + x),
        text_before(start, start.push(c) + x),
        !text_before(start.push(c) + x, start),
    decreases start.len(),
{
    let a = start.push(c) + x;
    let b = start.push(d) + y;
    if start.len() > 0 {
        let rest = start.drop_first();
        assert(a[0] == start[0] && b[0] == start[0]);
        law_first_difference(rest, c, x, d, y);
        assert(a.drop_first() =~= rest.push(c) + x);
        assert(b.drop_first() =~= rest.push(d) + y);
    } else {
        assert(a[0] == c && b[0] == d);
    }
}

/// Joining texts puts all of them one behind the other, with the separator in between and
/// nowhere else.
pub proof fn law_joined(parts: Seq<Seq<char>>, last: Seq<char>, sep: Seq<char>)
    ensures
        joined(Seq::empty(), sep).len() == 0,
        joined(seq![last], sep) == last,
        parts.len() > 0 ==> joined(parts.push(last), sep) == joined(parts, sep) + sep + last,
{
    assert(seq![last].drop_last() =~= Seq::empty());
    assert(parts.push(last).drop_last() =~= parts);
}

} // verus!
