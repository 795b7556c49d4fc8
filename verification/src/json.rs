//! JSON values as plain data.

use vstd::prelude::*;
use vstd::string::*;

use crate::text::{same, texts};

verus! {

/// A JSON number, told apart the way the parser tells numbers apart.
#[derive(Debug)]
pub enum JsonNumber {
    /// A non-negative integer.
    Unsigned(u64),
    /// A negative integer.
    Negative(i64),
    /// Any other number, by its shortest decimal text.
    Decimal(String),
}

/// A JSON value.
#[derive(Debug)]
pub enum Json {
    Null,
    Bool(bool),
    Number(JsonNumber),
    Str(String),
    Array(Vec<Json>),
    Object(Vec<(String, Json)>),
}

/// The mathematical value of a [`JsonNumber`].
pub enum NumberView {
    Unsigned(u64),
    Negative(i64),
    Decimal(Seq<char>),
}

/// The mathematical value of a [`Json`].
pub enum JsonView {
    Null,
    Bool(bool),
    Number(NumberView),
    Str(Seq<char>),
    Array(Seq<JsonView>),
    Object(Seq<(Seq<char>, JsonView)>),
}

impl View for JsonNumber {
    type V = NumberView;

    open spec fn view(&self) -> NumberView {
        match self {
            JsonNumber::Unsigned(n) => NumberView::Unsigned(*n),
            JsonNumber::Negative(n) => NumberView::Negative(*n),
            JsonNumber::Decimal(text) => NumberView::Decimal(text@),
        }
    }
}

impl View for Json {
    type V = JsonView;

    open spec fn view(&self) -> JsonView {
        json_view(*self)
    }
}

/// The value that `j` stands for.
pub open spec fn json_view(j: Json) -> JsonView
    decreases j,
{
    match j {
        Json::Null => JsonView::Null,
        Json::Bool(b) => JsonView::Bool(b),
        Json::Number(n) => JsonView::Number(n@),
        Json::Str(s) => JsonView::Str(s@),
        Json::Array(items) => JsonView::Array(
            Seq::new(
                items@.len(),
                |i: int|
                    if 0 <= i < items@.len() {
                        json_view(items@[i])
                    } else {
                        JsonView::Null
                    },
            ),
        ),
        Json::Object(entries) => JsonView::Object(
            Seq::new(
                entries@.len(),
                |i: int|
                    if 0 <= i < entries@.len() {
                        (entries@[i].0@, json_view(entries@[i].1))
                    } else {
                        (Seq::empty(), JsonView::Null)
                    },
            ),
        ),
    }
}

/// The value of the first entry with the given key.
pub open spec fn entry_value(entries: Seq<(Seq<char>, JsonView)>, key: Seq<char>) -> Option<JsonView>
    decreases entries.len(),
{
    if entries.len() == 0 {
        None
    } else if entries[0].0 == key {
        Some(entries[0].1)
    } else {
        entry_value(entries.drop_first(), key)
    }
}

impl JsonView {
    /// The value under a key of an object.
    pub open spec fn get(self, key: Seq<char>) -> Option<JsonView> {
        match self {
            JsonView::Object(entries) => entry_value(entries, key),
            _ => None,
        }
    }

    /// The text of a string.
    pub open spec fn as_str(self) -> Option<Seq<char>> {
        match self {
            JsonView::Str(s) => Some(s),
            _ => None,
        }
    }

    /// The truth value of a boolean.
    pub open spec fn as_bool(self) -> Option<bool> {
        match self {
            JsonView::Bool(b) => Some(b),
            _ => None,
        }
    }

    /// The value of an integer of 64 bits with sign.
    pub open spec fn as_i64(self) -> Option<i64> {
        match self {
            JsonView::Number(NumberView::Unsigned(n)) => if n <= i64::MAX {
                Some(n as i64)
            } else {
                None
            },
            JsonView::Number(NumberView::Negative(n)) => Some(n),
            _ => None,
        }
    }

    /// The elements of an array.
    pub open spec fn as_array(self) -> Option<Seq<JsonView>> {
        match self {
            JsonView::Array(items) => Some(items),
            _ => None,
        }
    }

    /// The entries of an object.
    pub open spec fn as_object(self) -> Option<Seq<(Seq<char>, JsonView)>> {
        match self {
            JsonView::Object(entries) => Some(entries),
            _ => None,
        }
    }

    /// Whether the value is an object.
    pub open spec fn is_object(self) -> bool {
        self is Object
    }

    /// The text under a key, if it holds a string.
    pub open spec fn str_at(self, key: Seq<char>) -> Option<Seq<char>> {
        match self.get(key) {
            Some(v) => v.as_str(),
            None => None,
        }
    }

    /// The truth value under a key, if it holds a boolean.
    pub open spec fn bool_at(self, key: Seq<char>) -> Option<bool> {
        match self.get(key) {
            Some(v) => v.as_bool(),
            None => None,
        }
    }

    /// The integer under a key, if it holds one of 64 bits with sign.
    pub open spec fn i64_at(self, key: Seq<char>) -> Option<i64> {
        match self.get(key) {
            Some(v) => v.as_i64(),
            None => None,
        }
    }

    /// The elements under a key, if it holds an array.
    pub open spec fn array_at(self, key: Seq<char>) -> Option<Seq<JsonView>> {
        match self.get(key) {
            Some(v) => v.as_array(),
            None => None,
        }
    }

    /// The value under the key `inner` of the value under the key `outer`.
    pub open spec fn get_in(self, outer: Seq<char>, inner: Seq<char>) -> Option<JsonView> {
        match self.get(outer) {
            Some(v) => v.get(inner),
            None => None,
        }
    }
}

/// There is no value under a key that no entry has.
pub proof fn lemma_no_entry(entries: Seq<(Seq<char>, JsonView)>, key: Seq<char>)
    requires
        forall|j: int| 0 <= j < entries.len() ==> (#[trigger] entries[j]).0 != key,
    ensures
        entry_value(entries, key) is None,
    decreases entries.len(),
{
    if entries.len() > 0 {
        let rest = entries.drop_first();
        assert(entries[0].0 != key);
        assert forall|j: int| 0 <= j < rest.len() implies (#[trigger] rest[j]).0 != key by {
            assert(rest[j] == entries[j + 1]);
        }
        lemma_no_entry(rest, key);
    }
}

/// The value under a key is that of the first entry with the key.
pub proof fn lemma_entry_value(entries: Seq<(Seq<char>, JsonView)>, key: Seq<char>, i: int)
    requires
        0 <= i < entries.len(),
        entries[i].0 == key,
        forall|j: int| 0 <= j < i ==> (#[trigger] entries[j]).0 != key,
    ensures
        entry_value(entries, key) == Some(entries[i].1),
    decreases entries.len(),
{
    if i > 0 {
        let rest = entries.drop_first();
        assert(entries[0].0 != key);
        assert forall|j: int| 0 <= j < i - 1 implies (#[trigger] rest[j]).0 != key by {
            assert(rest[j] == entries[j + 1]);
        }
        lemma_entry_value(rest, key, i - 1);
    }
}

/// The values that a sequence of [`Json`] stands for.
pub open spec fn json_views(items: Seq<Json>) -> Seq<JsonView> {
    items.map_values(|j: Json| j@)
}

/// What an optional reference stands for.
pub open spec fn opt_ref_view(o: Option<&Json>) -> Option<JsonView> {
    match o {
        Some(j) => Some(j@),
        None => None,
    }
}

/// What an optional value stands for.
pub open spec fn opt_json_view(o: Option<Json>) -> Option<JsonView> {
    match o {
        Some(j) => Some(j@),
        None => None,
    }
}

/// What an optional text slice stands for.
pub open spec fn opt_str_view(o: Option<&str>) -> Option<Seq<char>> {
    match o {
        Some(s) => Some(s@),
        None => None,
    }
}

/// What an optional text stands for.
pub open spec fn opt_text(o: Option<String>) -> Option<Seq<char>> {
    match o {
        Some(s) => Some(s@),
        None => None,
    }
}

impl Json {
    /// The value under a key of an object.
    pub fn get(&self, key: &str) -> (r: Option<&Json>)
        ensures
            opt_ref_view(r) == self@.get(key@),
    {
        match self {
            Json::Object(entries) => {
                let ghost all = self@->Object_0;
                let mut i: usize = 0;
                assert(all.skip(0) =~= all);
                while i < entries.len()
                    invariant
                        i <= entries@.len(),
                        *self == Json::Object(*entries),
                        all == self@->Object_0,
                        all.len() == entries@.len(),
                        entry_value(all.skip(i as int), key@) == entry_value(all, key@),
                    decreases entries@.len() - i,
                {
                    assert(all[i as int] == (entries@[i as int].0@, entries@[i as int].1@));
                    if same(entries[i].0.as_str(), key) {
                        return Some(&entries[i].1);
                    }
                    assert(all.skip(i as int).drop_first() =~= all.skip(i + 1));
                    i = i + 1;
                }
                None
            },
            _ => None,
        }
    }

    /// The text of a string.
    pub fn as_str(&self) -> (r: Option<&str>)
        ensures
            opt_str_view(r) == self@.as_str(),
    {
        match self {
            Json::Str(s) => Some(s.as_str()),
            _ => None,
        }
    }

    /// The truth value of a boolean.
    pub fn as_bool(&self) -> (r: Option<bool>)
        ensures
            r == self@.as_bool(),
    {
        match self {
            Json::Bool(b) => Some(*b),
            _ => None,
        }
    }

    /// The value of an integer of 64 bits with sign.
    pub fn as_i64(&self) -> (r: Option<i64>)
        ensures
            r == self@.as_i64(),
    {
        match self {
            Json::Number(JsonNumber::Unsigned(n)) => if *n <= 0x7fff_ffff_ffff_ffff {
                Some(*n as i64)
            } else {
                None
            },
            Json::Number(JsonNumber::Negative(n)) => Some(*n),
            _ => None,
        }
    }

    /// The elements of an array.
    pub fn as_array(&self) -> (r: Option<&Vec<Json>>)
        ensures
            match r {
                Some(items) => self@.as_array() == Some(json_views(items@)),
                None => self@.as_array() is None,
            },
    {
        match self {
            Json::Array(items) => {
                assert(self@->Array_0 =~= json_views(items@));
                Some(items)
            },
            _ => None,
        }
    }

    /// The entries of an object.
    pub fn as_object(&self) -> (r: Option<&Vec<(String, Json)>>)
        ensures
            match r {
                Some(entries) => self@.as_object() == Some(
                    entries@.map_values(|e: (String, Json)| (e.0@, e.1@)),
                ),
                None => self@.as_object() is None,
            },
    {
        match self {
            Json::Object(entries) => {
                assert(self@->Object_0 =~= entries@.map_values(
                    |e: (String, Json)| (e.0@, e.1@),
                ));
                Some(entries)
            },
            _ => None,
        }
    }

    /// Whether the value is an object.
    pub fn is_object(&self) -> (r: bool)
        ensures
            r == self@.is_object(),
    {
        match self {
            Json::Object(_) => true,
            _ => false,
        }
    }

    /// The text under a key, if it holds a string.
    pub fn str_at(&self, key: &str) -> (r: Option<&str>)
        ensures
            opt_str_view(r) == self@.str_at(key@),
    {
        match self.get(key) {
            Some(v) => v.as_str(),
            None => None,
        }
    }

    /// The truth value under a key, if it holds a boolean.
    pub fn bool_at(&self, key: &str) -> (r: Option<bool>)
        ensures
            r == self@.bool_at(key@),
    {
        match self.get(key) {
            Some(v) => v.as_bool(),
            None => None,
        }
    }

    /// The integer under a key, if it holds one of 64 bits with sign.
    pub fn i64_at(&self, key: &str) -> (r: Option<i64>)
        ensures
            r == self@.i64_at(key@),
    {
        match self.get(key) {
            Some(v) => v.as_i64(),
            None => None,
        }
    }

    /// The elements under a key, if it holds an array.
    pub fn array_at(&self, key: &str) -> (r: Option<&Vec<Json>>)
        ensures
            match r {
                Some(items) => self@.array_at(key@) == Some(json_views(items@)),
                None => self@.array_at(key@) is None,
            },
    {
        match self.get(key) {
            Some(v) => v.as_array(),
            None => None,
        }
    }

    /// The value under the key `inner` of the value under the key `outer`.
    pub fn get_in(&self, outer: &str, inner: &str) -> (r: Option<&Json>)
        ensures
            opt_ref_view(r) == self@.get_in(outer@, inner@),
    {
        match self.get(outer) {
            Some(v) => v.get(inner),
            None => None,
        }
    }

    /// Another value that stands for the same.
    pub fn copy(&self) -> (r: Json)
        ensures
            r@ == self@,
        decreases self@,
    {
        match self {
            Json::Null => Json::Null,
            Json::Bool(b) => Json::Bool(*b),
            Json::Number(n) => Json::Number(
                match n {
                    JsonNumber::Unsigned(n) => JsonNumber::Unsigned(*n),
                    JsonNumber::Negative(n) => JsonNumber::Negative(*n),
                    JsonNumber::Decimal(t) => JsonNumber::Decimal(t.clone()),
                },
            ),
            Json::Str(s) => Json::Str(s.clone()),
            Json::Array(items) => {
                let mut out: Vec<Json> = Vec::new();
                let mut i: usize = 0;
                while i < items.len()
                    invariant
                        i <= items@.len(),
                        out@.len() == i,
                        *self == Json::Array(*items),
                        forall|k: int| 0 <= k < i ==> (#[trigger] out@[k])@ == items@[k]@,
                    decreases items@.len() - i,
                {
                    proof {
                        let all = self@->Array_0;
                        assert(all[i as int] == items@[i as int]@);
                        assert(decreases_to!(self@ => all[i as int]));
                    }
                    out.push(items[i].copy());
                    i = i + 1;
                }
                assert(json_view(Json::Array(out))->Array_0 =~= self@->Array_0);
                Json::Array(out)
            },
            Json::Object(entries) => {
                let mut out: Vec<(String, Json)> = Vec::new();
                let mut i: usize = 0;
                while i < entries.len()
                    invariant
                        i <= entries@.len(),
                        out@.len() == i,
                        *self == Json::Object(*entries),
                        forall|k: int|
                            0 <= k < i ==> (#[trigger] out@[k]).0@ == entries@[k].0@ && out@[k].1@
                                == entries@[k].1@,
                    decreases entries@.len() - i,
                {
                    proof {
                        let all = self@->Object_0;
                        assert(all[i as int].1 == entries@[i as int].1@);
                        assert(decreases_to!(self@ => all[i as int]));
                        assert(decreases_to!(all[i as int] => all[i as int].1));
                    }
                    out.push((entries[i].0.clone(), entries[i].1.copy()));
                    i = i + 1;
                }
                assert(json_view(Json::Object(out))->Object_0 =~= self@->Object_0);
                Json::Object(out)
            },
        }
    }
}

// ---------------------------------------------------------------------------
// Optional values
// ---------------------------------------------------------------------------

/// The value under a key of an optional object.
pub open spec fn value_at(o: Option<JsonView>, key: Seq<char>) -> Option<JsonView> {
    match o {
        Some(v) => v.get(key),
        None => None,
    }
}

/// The text of an optional string.
pub open spec fn text_in(o: Option<JsonView>) -> Option<Seq<char>> {
    match o {
        Some(v) => v.as_str(),
        None => None,
    }
}

/// The integer of an optional number.
pub open spec fn int_in(o: Option<JsonView>) -> Option<i64> {
    match o {
        Some(v) => v.as_i64(),
        None => None,
    }
}

/// The first of two optional values that is there.
pub open spec fn either<T>(a: Option<T>, b: Option<T>) -> Option<T> {
    match a {
        Some(v) => Some(v),
        None => b,
    }
}

/// The value that is there, or else the other one.
pub open spec fn value_or<T>(a: Option<T>, b: T) -> T {
    match a {
        Some(v) => v,
        None => b,
    }
}

/// The value under a key of an optional object.
pub fn at<'a>(o: Option<&'a Json>, key: &str) -> (r: Option<&'a Json>)
    ensures
        opt_ref_view(r) == value_at(opt_ref_view(o), key@),
{
    match o {
        Some(v) => v.get(key),
        None => None,
    }
}

/// The text of an optional string.
pub fn str_in<'a>(o: Option<&'a Json>) -> (r: Option<&'a str>)
    ensures
        opt_str_view(r) == text_in(opt_ref_view(o)),
{
    match o {
        Some(v) => v.as_str(),
        None => None,
    }
}

/// The integer of an optional number.
pub fn i64_in(o: Option<&Json>) -> (r: Option<i64>)
    ensures
        r == int_in(opt_ref_view(o)),
{
    match o {
        Some(v) => v.as_i64(),
        None => None,
    }
}

/// The first of two optional values that is there.
pub fn first_some<'a>(a: Option<&'a Json>, b: Option<&'a Json>) -> (r: Option<&'a Json>)
    ensures
        opt_ref_view(r) == either(opt_ref_view(a), opt_ref_view(b)),
{
    match a {
        Some(v) => Some(v),
        None => b,
    }
}

/// The first of two optional texts that is there.
pub fn first_text<'a>(a: Option<&'a str>, b: Option<&'a str>) -> (r: Option<&'a str>)
    ensures
        opt_str_view(r) == either(opt_str_view(a), opt_str_view(b)),
{
    match a {
        Some(v) => Some(v),
        None => b,
    }
}

/// The text that is there, or else the other one.
pub fn text_or<'a>(a: Option<&'a str>, b: &'a str) -> (r: &'a str)
    ensures
        r@ == value_or(opt_str_view(a), b@),
{
    match a {
        Some(v) => v,
        None => b,
    }
}

/// The text slice of an optional text.
pub fn opt_slice<'a>(o: &'a Option<String>) -> (r: Option<&'a str>)
    ensures
        opt_str_view(r) == opt_text(*o),
{
    match o {
        Some(s) => Some(s.as_str()),
        None => None,
    }
}

/// An optional text with the characters of an optional text slice.
pub fn opt_owned(o: Option<&str>) -> (r: Option<String>)
    ensures
        opt_text(r) == opt_str_view(o),
{
    match o {
        Some(s) => Some(s.to_owned()),
        None => None,
    }
}

// ---------------------------------------------------------------------------
// Building
// ---------------------------------------------------------------------------

/// The JSON value of an optional text: the text, or null.
pub open spec fn text_or_null(o: Option<Seq<char>>) -> JsonView {
    match o {
        Some(s) => JsonView::Str(s),
        None => JsonView::Null,
    }
}

/// The JSON value of an optional value: the value, or null.
pub open spec fn value_or_null(o: Option<JsonView>) -> JsonView {
    match o {
        Some(v) => v,
        None => JsonView::Null,
    }
}

/// The JSON value of an optional truth value: the truth value, or null.
pub open spec fn bool_or_null(o: Option<bool>) -> JsonView {
    match o {
        Some(b) => JsonView::Bool(b),
        None => JsonView::Null,
    }
}

/// The JSON number of a natural number of 64 bits.
pub open spec fn nat_value(n: u64) -> JsonView {
    JsonView::Number(NumberView::Unsigned(n))
}

/// The JSON number of an integer of 64 bits.
pub open spec fn int_value(n: i64) -> JsonView {
    if n < 0 {
        JsonView::Number(NumberView::Negative(n))
    } else {
        JsonView::Number(NumberView::Unsigned(n as u64))
    }
}

/// The JSON value of an optional integer: the integer, or null.
pub open spec fn int_or_null(o: Option<i64>) -> JsonView {
    match o {
        Some(n) => int_value(n),
        None => JsonView::Null,
    }
}

/// The JSON array of a sequence of texts.
pub open spec fn text_array(s: Seq<Seq<char>>) -> JsonView {
    JsonView::Array(s.map_values(|t: Seq<char>| JsonView::Str(t)))
}

/// The JSON object without entries.
pub open spec fn empty_object() -> JsonView {
    JsonView::Object(Seq::empty())
}

/// The JSON array without elements.
pub open spec fn empty_array() -> JsonView {
    JsonView::Array(Seq::empty())
}

/// The JSON value of a text.
pub fn json_text(s: &str) -> (r: Json)
    ensures
        r@ == JsonView::Str(s@),
{
    Json::Str(s.to_owned())
}

/// The JSON value of an optional text.
pub fn json_opt_text(o: Option<&str>) -> (r: Json)
    ensures
        r@ == text_or_null(opt_str_view(o)),
{
    match o {
        Some(s) => Json::Str(s.to_owned()),
        None => Json::Null,
    }
}

/// The JSON value of an optional value.
pub fn json_opt(o: Option<&Json>) -> (r: Json)
    ensures
        r@ == value_or_null(opt_ref_view(o)),
{
    match o {
        Some(v) => v.copy(),
        None => Json::Null,
    }
}

/// The JSON value of an optional truth value.
pub fn json_opt_bool(o: Option<bool>) -> (r: Json)
    ensures
        r@ == bool_or_null(o),
{
    match o {
        Some(b) => Json::Bool(b),
        None => Json::Null,
    }
}

/// The JSON number of a natural number.
pub fn json_nat(n: u64) -> (r: Json)
    ensures
        r@ == nat_value(n),
{
    Json::Number(JsonNumber::Unsigned(n))
}

/// The JSON number of an integer.
pub fn json_int(n: i64) -> (r: Json)
    ensures
        r@ == int_value(n),
{
    if n < 0 {
        Json::Number(JsonNumber::Negative(n))
    } else {
        Json::Number(JsonNumber::Unsigned(n as u64))
    }
}

/// The JSON value of an optional integer.
pub fn json_opt_int(o: Option<i64>) -> (r: Json)
    ensures
        r@ == int_or_null(o),
{
    match o {
        Some(n) => json_int(n),
        None => Json::Null,
    }
}

/// The JSON array of the given elements.
pub fn json_array(items: Vec<Json>) -> (r: Json)
    ensures
        r@ == JsonView::Array(json_views(items@)),
{
    assert(json_view(Json::Array(items))->Array_0 =~= json_views(items@));
    Json::Array(items)
}

/// The JSON array of the given texts.
pub fn json_texts(items: &Vec<String>) -> (r: Json)
    ensures
        r@ == text_array(texts(items@)),
{
    let mut out: Vec<Json> = Vec::new();
    let mut i: usize = 0;
    while i < items.len()
        invariant
            i <= items@.len(),
            out@.len() == i,
            forall|k: int| 0 <= k < i ==> (#[trigger] out@[k])@ == JsonView::Str(items@[k]@),
        decreases items@.len() - i,
    {
        out.push(Json::Str(items[i].clone()));
        i = i + 1;
    }
    assert(json_view(Json::Array(out))->Array_0 =~= text_array(texts(items@))->Array_0);
    Json::Array(out)
}

/// The entries of a JSON object in the making.
pub struct Fields {
    entries: Vec<(String, Json)>,
}

impl View for Fields {
    type V = Seq<(Seq<char>, JsonView)>;

    closed spec fn view(&self) -> Seq<(Seq<char>, JsonView)> {
        self.entries@.map_values(|e: (String, Json)| (e.0@, e.1@))
    }
}

impl Fields {
    /// No entries.
    pub fn new() -> (r: Self)
        ensures
            r@ == Seq::<(Seq<char>, JsonView)>::empty(),
    {
        let r = Fields { entries: Vec::new() };
        assert(r@ =~= Seq::empty());
        r
    }

    /// Adds an entry behind the others.
    pub fn put(&mut self, key: &str, value: Json)
        ensures
            final(self)@ == old(self)@.push((key@, value@)),
    {
        let ghost before = self@;
        self.entries.push((key.to_owned(), value));
        assert(self@ =~= before.push((key@, value@)));
    }

    /// The object with these entries.
    pub fn object(self) -> (r: Json)
        ensures
            r@ == JsonView::Object(self@),
    {
        let entries = self.entries;
        assert(json_view(Json::Object(entries))->Object_0 =~= self@);
        Json::Object(entries)
    }
}

/// The entries with `value` under `key`: in the place of the first entry with that
/// key, or behind the others.
pub open spec fn with_entry(
    entries: Seq<(Seq<char>, JsonView)>,
    key: Seq<char>,
    value: JsonView,
) -> Seq<(Seq<char>, JsonView)>
    decreases entries.len(),
{
    if entries.len() == 0 {
        seq![(key, value)]
    } else if entries[0].0 == key {
        seq![(key, value)] + entries.drop_first()
    } else {
        seq![entries[0]] + with_entry(entries.drop_first(), key, value)
    }
}

impl JsonView {
    /// The object with `value` under `key`; any other value is left as it is.
    pub open spec fn with(self, key: Seq<char>, value: JsonView) -> JsonView {
        match self {
            JsonView::Object(entries) => JsonView::Object(with_entry(entries, key, value)),
            _ => self,
        }
    }

    /// The object with each of the given entries set in turn.
    pub open spec fn with_all(self, entries: Seq<(Seq<char>, JsonView)>) -> JsonView
        decreases entries.len(),
    {
        if entries.len() == 0 {
            self
        } else {
            self.with(entries[0].0, entries[0].1).with_all(entries.drop_first())
        }
    }
}

proof fn lemma_with_entry(
    entries: Seq<(Seq<char>, JsonView)>,
    key: Seq<char>,
    value: JsonView,
    i: int,
)
    requires
        0 <= i <= entries.len(),
        forall|j: int| 0 <= j < i ==> (#[trigger] entries[j]).0 != key,
        i < entries.len() ==> entries[i].0 == key,
    ensures
        with_entry(entries, key, value) == if i < entries.len() {
            entries.update(i, (key, value))
        } else {
            entries.push((key, value))
        },
    decreases entries.len(),
{
    if entries.len() == 0 {
        assert(with_entry(entries, key, value) =~= entries.push((key, value)));
    } else if i == 0 {
        assert(with_entry(entries, key, value) =~= entries.update(0, (key, value)));
    } else {
        let t = entries.drop_first();
        assert forall|j: int| 0 <= j < i - 1 implies (#[trigger] t[j]).0 != key by {
            assert(t[j] == entries[j + 1]);
        }
        lemma_with_entry(t, key, value, i - 1);
        if i < entries.len() {
            assert(seq![entries[0]] + t.update(i - 1, (key, value)) =~= entries.update(
                i,
                (key, value),
            ));
        } else {
            assert(seq![entries[0]] + t.push((key, value)) =~= entries.push((key, value)));
        }
    }
}

/// What was set under a key is what is found there, and every other key keeps what
/// it had.
pub proof fn law_entry_read_back(object: JsonView, key: Seq<char>, value: JsonView, other: Seq<char>)
    requires
        object is Object,
    ensures
        object.with(key, value).get(key) == Some(value),
        other != key ==> object.with(key, value).get(other) == object.get(other),
    decreases object->Object_0.len(),
{
    let entries = object->Object_0;
    let after = with_entry(entries, key, value);
    if entries.len() == 0 {
        assert(after.drop_first() =~= entries);
    } else if entries[0].0 == key {
        assert(after.drop_first() =~= entries.drop_first());
    } else {
        law_entry_read_back(JsonView::Object(entries.drop_first()), key, value, other);
        assert(after.drop_first() =~= with_entry(entries.drop_first(), key, value));
    }
}

impl Json {
    /// Puts `value` under `key` of an object; any other value is left as it is.
    pub fn set(&mut self, key: &str, value: Json)
        ensures
            final(self)@ == old(self)@.with(key@, value@),
    {
        let ghost before = *self;
        let mut taken = Json::Null;
        std::mem::swap(&mut taken, self);
        match taken {
            Json::Object(entries) => {
                let ghost all = before@->Object_0;
                let ghost start = entries@;
                let mut entries = entries;
                let mut i: usize = 0;
                while i < entries.len() && !same(entries[i].0.as_str(), key)
                    invariant
                        i <= entries@.len(),
                        entries@ == start,
                        all.len() == start.len(),
                        forall|j: int| 0 <= j < start.len() ==> (#[trigger] all[j]) == (start[j].0@, start[j].1@),
                        forall|j: int| 0 <= j < i ==> (#[trigger] all[j]).0 != key@,
                    decreases entries@.len() - i,
                {
                    assert(all[i as int].0 == entries@[i as int].0@);
                    i = i + 1;
                }
                proof {
                    lemma_with_entry(all, key@, value@, i as int);
                }
                let entry = (key.to_owned(), value);
                if i < entries.len() {
                    entries.set(i, entry);
                    assert(json_view(Json::Object(entries))->Object_0 =~= all.update(
                        i as int,
                        (key@, value@),
                    ));
                } else {
                    entries.push(entry);
                    assert(json_view(Json::Object(entries))->Object_0 =~= all.push(
                        (key@, value@),
                    ));
                }
                *self = Json::Object(entries);
            },
            other => {
                *self = other;
            },
        }
    }

    /// Sets each entry of an object in turn.
    pub fn set_all(&mut self, entries: &Vec<(String, Json)>)
        ensures
            final(self)@ == old(self)@.with_all(
                entries@.map_values(|e: (String, Json)| (e.0@, e.1@)),
            ),
    {
        let ghost all = entries@.map_values(|e: (String, Json)| (e.0@, e.1@));
        let mut i: usize = 0;
        assert(all.skip(0) =~= all);
        while i < entries.len()
            invariant
                i <= entries@.len(),
                all == entries@.map_values(|e: (String, Json)| (e.0@, e.1@)),
                self@.with_all(all.skip(i as int)) == old(self)@.with_all(all),
            decreases entries@.len() - i,
        {
            assert(all.skip(i as int)[0] == (entries@[i as int].0@, entries@[i as int].1@));
            assert(all.skip(i as int).drop_first() =~= all.skip(i + 1));
            self.set(entries[i].0.as_str(), entries[i].1.copy());
            i = i + 1;
        }
    }
}

// ---------------------------------------------------------------------------
// Parsing
// ---------------------------------------------------------------------------

/// The value type of `serde_json`.
#[verifier::external_type_specification]
#[verifier::external_body]
pub struct ExValue(serde_json::Value);

/// What a `serde_json::Value` holds.
pub uninterp spec fn value_contents(v: serde_json::Value) -> JsonView;

/// The value that `serde_json::from_str` reads from a text, if it reads one.
pub uninterp spec fn parsed_json(text: Seq<char>) -> Option<JsonView>;

/// `serde_json::from_str` into a `serde_json::Value`: a value that holds
/// [`parsed_json`] of the text, or nothing where the parser reports an error.
#[verifier::external_body]
fn value_from_text(text: &str) -> (r: Option<serde_json::Value>)
    ensures
        match r {
            Some(v) => parsed_json(text@) == Some(value_contents(v)),
            None => parsed_json(text@) is None,
        },
{
    serde_json::from_str(text).ok()
}

/// The outermost level of a `serde_json::Value`.
enum Shape {
    Null,
    Bool(bool),
    Number(JsonNumber),
    Str(String),
    Array(Vec<serde_json::Value>),
    Object(Vec<(String, serde_json::Value)>),
}

/// What a value of this shape holds.
spec fn shape_contents(s: Shape) -> JsonView {
    match s {
        Shape::Null => JsonView::Null,
        Shape::Bool(b) => JsonView::Bool(b),
        Shape::Number(n) => JsonView::Number(n@),
        Shape::Str(t) => JsonView::Str(t@),
        Shape::Array(items) => JsonView::Array(
            items@.map_values(|v: serde_json::Value| value_contents(v)),
        ),
        Shape::Object(entries) => JsonView::Object(
            entries@.map_values(|e: (String, serde_json::Value)| (e.0@, value_contents(e.1))),
        ),
    }
}

/// Takes a `serde_json::Value` apart, variant by variant; a number goes by what
/// `Number::as_u64` and `Number::as_i64` give, and by its text where both give
/// nothing. The parts hold what the value held: the elements of an array in their
/// order, the entries of an object in the order in which the map yields them.
#[verifier::external_body]
fn open_value(v: serde_json::Value) -> (r: Shape)
    ensures
        shape_contents(r) == value_contents(v),
{
    match v {
        serde_json::Value::Null => Shape::Null,
        serde_json::Value::Bool(b) => Shape::Bool(b),
        serde_json::Value::Number(n) => Shape::Number(match (n.as_u64(), n.as_i64()) {
            (Some(u), _) => JsonNumber::Unsigned(u),
            (None, Some(i)) => JsonNumber::Negative(i),
            (None, None) => JsonNumber::Decimal(n.to_string()),
        }),
        serde_json::Value::String(s) => Shape::Str(s),
        serde_json::Value::Array(items) => Shape::Array(items),
        serde_json::Value::Object(map) => Shape::Object(map.into_iter().collect()),
    }
}

/// The plain value that holds the same as a `serde_json::Value`.
fn json_of_value(v: serde_json::Value) -> (r: Json)
    ensures
        r@ == value_contents(v),
    decreases value_contents(v),
{
    match open_value(v) {
        Shape::Null => Json::Null,
        Shape::Bool(b) => Json::Bool(b),
        Shape::Number(n) => Json::Number(n),
        Shape::Str(s) => Json::Str(s),
        Shape::Array(items) => {
            let ghost all = items@;
            let mut out: Vec<Json> = Vec::new();
            for item in it: items
                invariant
                    it.seq() == all,
                    out@.len() == it.index(),
                    value_contents(v) == JsonView::Array(
                        all.map_values(|v: serde_json::Value| value_contents(v)),
                    ),
                    forall|i: int| 0 <= i < out@.len() ==> (#[trigger] out@[i])@ == value_contents(all[i]),
            {
                proof {
                    let k = it.index();
                    assert(value_contents(v)->Array_0[k] == value_contents(item));
                    assert(decreases_to!(value_contents(v) => value_contents(v)->Array_0[k]));
                }
                out.push(json_of_value(item));
            }
            proof {
                assert(json_view(Json::Array(out))->Array_0 =~= value_contents(v)->Array_0);
            }
            Json::Array(out)
        }
        Shape::Object(entries) => {
            let ghost all = entries@;
            let mut out: Vec<(String, Json)> = Vec::new();
            for entry in it: entries
                invariant
                    it.seq() == all,
                    out@.len() == it.index(),
                    value_contents(v) == JsonView::Object(
                        all.map_values(|e: (String, serde_json::Value)| (e.0@, value_contents(e.1))),
                    ),
                    forall|i: int| 0 <= i < out@.len() ==> (#[trigger] out@[i]).0@ == all[i].0@
                        && out@[i].1@ == value_contents(all[i].1),
            {
                let (key, value) = entry;
                proof {
                    let k = it.index();
                    assert(value_contents(v)->Object_0[k] == (key@, value_contents(value)));
                    assert(decreases_to!(value_contents(v) => value_contents(v)->Object_0[k]));
                    assert(decreases_to!(value_contents(v)->Object_0[k] => value_contents(v)->Object_0[k].1));
                }
                out.push((key, json_of_value(value)));
            }
            proof {
                assert(json_view(Json::Object(out))->Object_0 =~= value_contents(v)->Object_0);
            }
            Json::Object(out)
        }
    }
}

/// The value that a JSON text writes, if it is one.
pub fn parse_json(text: &str) -> (r: Option<Json>)
    ensures
        opt_json_view(r) == parsed_json(text@),
{
    match value_from_text(text) {
        Some(v) => Some(json_of_value(v)),
        None => None,
    }
}

} // verus!
