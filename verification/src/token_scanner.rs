//! Token usage in session files, and what it costs.

use vstd::prelude::*;
use vstd::string::*;
use vstd::utf8::encode_utf8;

use crate::json::{
    at, either, first_some, int_value, lemma_entry_value, lemma_no_entry, opt_ref_view,
    opt_str_view, opt_text, parse_json, parsed_json, str_in, text_in, text_or, value_at, value_or,
    Fields, Json, JsonView,
};
use crate::numbers::{fixed_value, json_fixed};
use crate::paths::{extension, extension_of, is_plain_name, law_extension};
use crate::text::{
    cat3, chars_of, contains, contains_char, lines, occurs, run_len, same, split_lines,
    string_between, texts, trim, trimmed, CharClass,
};

verus! {

// ---------------------------------------------------------------------------
// Prices
// ---------------------------------------------------------------------------

/// The prices of a model, in thousandths of a US dollar for a million tokens.
#[derive(Debug, Clone, Copy, PartialEq, Eq, Structural)]
pub struct ModelPricing {
    pub input: u32,
    pub output: u32,
    pub cache_read: u32,
    pub cache_write: u32,
}

/// A model and its prices.
pub struct PricedModel {
    pub name: String,
    pub pricing: ModelPricing,
}

/// Prices of input, output, and tokens read from and written to the cache.
pub open spec fn priced(input: u32, output: u32, cache_read: u32, cache_write: u32) -> ModelPricing {
    ModelPricing { input, output, cache_read, cache_write }
}

/// The models whose prices are known without a list of prices.
pub open spec fn pricing_table() -> Seq<(Seq<char>, ModelPricing)> {
    seq![
        ("openai/gpt-5.4"@, priced(2_000, 10_000, 500, 1_000)),
        ("openai/gpt-5.3-codex"@, priced(2_000, 10_000, 500, 1_000)),
        ("openai-codex/gpt-5.3-codex"@, priced(2_000, 10_000, 500, 1_000)),
        ("openai/gpt-4o"@, priced(2_500, 10_000, 1_250, 2_500)),
        ("openai/gpt-4o-mini"@, priced(150, 600, 75, 150)),
        ("google/gemini-2.5-pro"@, priced(1_250, 10_000, 315, 1_250)),
    ]
}

/// What a sequence of [`PricedModel`] stands for.
pub open spec fn model_views(models: Seq<PricedModel>) -> Seq<(Seq<char>, ModelPricing)> {
    models.map_values(|m: PricedModel| (m.name@, m.pricing))
}

/// Whether the table holds a model with the name.
pub open spec fn is_named(table: Seq<(Seq<char>, ModelPricing)>, name: Seq<char>) -> bool {
    exists|i: int| 0 <= i < table.len() && (#[trigger] table[i]).0 == name
}

/// The table with a model added, where it holds none with the name.
pub open spec fn with_model(
    table: Seq<(Seq<char>, ModelPricing)>,
    model: (Seq<char>, ModelPricing),
) -> Seq<(Seq<char>, ModelPricing)> {
    if is_named(table, model.0) {
        table
    } else {
        table.push(model)
    }
}

/// The table with models added in order, each where it holds none with the name by then.
pub open spec fn with_models(
    table: Seq<(Seq<char>, ModelPricing)>,
    models: Seq<(Seq<char>, ModelPricing)>,
) -> Seq<(Seq<char>, ModelPricing)>
    decreases models.len(),
{
    if models.len() == 0 {
        table
    } else {
        with_model(with_models(table, models.drop_last()), models.last())
    }
}

proof fn lemma_with_last(
    table: Seq<(Seq<char>, ModelPricing)>,
    models: Seq<(Seq<char>, ModelPricing)>,
    model: (Seq<char>, ModelPricing),
)
    ensures
        with_models(table, models.push(model)) == with_model(with_models(table, models), model),
{
    assert(models.push(model).drop_last() =~= models);
}

fn push_model(
    models: &mut Vec<PricedModel>,
    name: &str,
    input: u32,
    output: u32,
    cache_read: u32,
    cache_write: u32,
)
    ensures
        model_views(final(models)@) == with_model(
            model_views(old(models)@),
            (name@, priced(input, output, cache_read, cache_write)),
        ),
{
    let ghost before = model_views(models@);
    let mut i: usize = 0;
    while i < models.len()
        invariant
            i <= models@.len(),
            before == model_views(models@),
            forall|k: int| 0 <= k < i ==> (#[trigger] before[k]).0 != name@,
        decreases models@.len() - i,
    {
        assert(before[i as int].0 == models@[i as int].name@);
        if same(models[i].name.as_str(), name) {
            return;
        }
        i = i + 1;
    }
    let pricing = ModelPricing { input, output, cache_read, cache_write };
    models.push(PricedModel { name: name.to_owned(), pricing });
    assert(model_views(models@) =~= before.push((name@, pricing)));
}

/// Adds the models whose prices are known without a list of prices.
fn push_table(models: &mut Vec<PricedModel>)
    ensures
        model_views(final(models)@) == with_models(model_views(old(models)@), pricing_table()),
{
    let ghost before = model_views(models@);
    push_model(models, "openai/gpt-5.4", 2_000, 10_000, 500, 1_000);
    push_model(models, "openai/gpt-5.3-codex", 2_000, 10_000, 500, 1_000);
    push_model(models, "openai-codex/gpt-5.3-codex", 2_000, 10_000, 500, 1_000);
    push_model(models, "openai/gpt-4o", 2_500, 10_000, 1_250, 2_500);
    push_model(models, "openai/gpt-4o-mini", 150, 600, 75, 150);
    push_model(models, "google/gemini-2.5-pro", 1_250, 10_000, 315, 1_250);
    proof {
        let t = pricing_table();
        lemma_with_last(before, t.take(0), t[0]);
        lemma_with_last(before, t.take(1), t[1]);
        lemma_with_last(before, t.take(2), t[2]);
        lemma_with_last(before, t.take(3), t[3]);
        lemma_with_last(before, t.take(4), t[4]);
        lemma_with_last(before, t.take(5), t[5]);
        assert(t.take(0).push(t[0]) =~= t.take(1));
        assert(t.take(1).push(t[1]) =~= t.take(2));
        assert(t.take(2).push(t[2]) =~= t.take(3));
        assert(t.take(3).push(t[3]) =~= t.take(4));
        assert(t.take(4).push(t[4]) =~= t.take(5));
        assert(t.take(5).push(t[5]) =~= t);
    }
}

/// The price under a key of an entry of a list of prices.
pub open spec fn listed_price(entry: JsonView, key: Seq<char>) -> Option<u32> {
    match entry.i64_at(key) {
        Some(n) => if 0 <= n <= u32::MAX {
            Some(n as u32)
        } else {
            None
        },
        None => None,
    }
}

fn price_in(entry: &Json, key: &str) -> (r: Option<u32>)
    ensures
        r == listed_price(entry@, key@),
{
    match entry.i64_at(key) {
        Some(n) => if 0 <= n && n <= 0xffff_ffff {
            Some(n as u32)
        } else {
            None
        },
        None => None,
    }
}

/// The prices in an entry of a list of prices, if it holds all four of them.
pub open spec fn listed_pricing(entry: JsonView) -> Option<ModelPricing> {
    match (
        listed_price(entry, "input"@),
        listed_price(entry, "output"@),
        listed_price(entry, "cache_read"@),
        listed_price(entry, "cache_write"@),
    ) {
        (Some(i), Some(o), Some(r), Some(w)) => Some(priced(i, o, r, w)),
        _ => None,
    }
}

/// The models in a list of prices, in order; entries without prices are left out.
pub open spec fn listed_models(entries: Seq<(Seq<char>, JsonView)>) -> Seq<
    (Seq<char>, ModelPricing),
>
    decreases entries.len(),
{
    if entries.len() == 0 {
        Seq::empty()
    } else {
        let before = listed_models(entries.drop_last());
        match listed_pricing(entries.last().1) {
            Some(p) => before.push((entries.last().0, p)),
            None => before,
        }
    }
}

/// The models whose prices are known: those in the list of prices, an object with the
/// prices of each model in thousandths of a dollar, and then those that are known without
/// one. Of models with the same name the first one counts.
pub open spec fn known_models(list: Option<JsonView>) -> Seq<(Seq<char>, ModelPricing)> {
    let listed = match list {
        Some(JsonView::Object(entries)) => listed_models(entries),
        _ => Seq::empty(),
    };
    with_models(with_models(Seq::empty(), listed), pricing_table())
}

/// The models whose prices are known, with a list of prices or without one.
pub fn model_pricing_table(list: Option<&Json>) -> (r: Vec<PricedModel>)
    ensures
        model_views(r@) == known_models(opt_ref_view(list)),
{
    let mut models: Vec<PricedModel> = Vec::new();
    assert(model_views(models@) =~= Seq::<(Seq<char>, ModelPricing)>::empty());
    let entries = match list {
        Some(l) => l.as_object(),
        None => None,
    };
    match entries {
        Some(entries) => {
            let ghost all = entries@.map_values(|e: (String, Json)| (e.0@, e.1@));
            let mut i: usize = 0;
            assert(all.take(0) =~= Seq::<(Seq<char>, JsonView)>::empty());
            while i < entries.len()
                invariant
                    i <= entries@.len(),
                    all == entries@.map_values(|e: (String, Json)| (e.0@, e.1@)),
                    model_views(models@) == with_models(
                        Seq::empty(),
                        listed_models(all.take(i as int)),
                    ),
                decreases entries@.len() - i,
            {
                let name = &entries[i].0;
                let entry = &entries[i].1;
                proof {
                    assert(all.take(i + 1).drop_last() =~= all.take(i as int));
                    assert(all.take(i + 1).last() == (name@, entry@));
                }
                let input = price_in(entry, "input");
                let output = price_in(entry, "output");
                let read = price_in(entry, "cache_read");
                let write = price_in(entry, "cache_write");
                match (input, output, read, write) {
                    (Some(input), Some(output), Some(read), Some(write)) => {
                        proof {
                            lemma_with_last(
                                Seq::empty(),
                                listed_models(all.take(i as int)),
                                (name@, priced(input, output, read, write)),
                            );
                        }
                        push_model(&mut models, name.as_str(), input, output, read, write);
                    },
                    _ => {},
                }
                i = i + 1;
            }
            assert(all.take(i as int) =~= all);
        },
        None => {},
    }
    push_table(&mut models);
    models
}

/// The models whose prices are known, with the text of a list of prices or without one.
/// A text that is no JSON is as good as none.
pub fn read_pricing_table(text: Option<&str>) -> (r: Vec<PricedModel>)
    ensures
        model_views(r@) == known_models(
            match opt_str_view(text) {
                Some(t) => parsed_json(t),
                None => None,
            },
        ),
{
    match text {
        Some(t) => match parse_json(t) {
            Some(list) => model_pricing_table(Some(&list)),
            None => model_pricing_table(None),
        },
        None => model_pricing_table(None),
    }
}

/// The prices of a model as they are reported, in dollars for a million tokens.
pub open spec fn pricing_entries(p: ModelPricing) -> Seq<(Seq<char>, JsonView)> {
    seq![
        ("input"@, fixed_value(p.input as int, 3)),
        ("output"@, fixed_value(p.output as int, 3)),
        ("cache_read"@, fixed_value(p.cache_read as int, 3)),
        ("cache_write"@, fixed_value(p.cache_write as int, 3)),
    ]
}

/// A table of prices as it is reported.
pub open spec fn pricing_report(prices: Seq<(Seq<char>, ModelPricing)>) -> JsonView {
    JsonView::Object(
        prices.map_values(
            |m: (Seq<char>, ModelPricing)| (m.0, JsonView::Object(pricing_entries(m.1))),
        ),
    )
}

/// A table of prices as it is reported.
pub fn model_pricing_json(prices: &Vec<PricedModel>) -> (r: Json)
    ensures
        r@ == pricing_report(model_views(prices@)),
{
    let ghost all = model_views(prices@);
    let ghost goal = pricing_report(all)->Object_0;
    let mut fields = Fields::new();
    let mut i: usize = 0;
    while i < prices.len()
        invariant
            i <= prices@.len(),
            all == model_views(prices@),
            goal == all.map_values(
                |m: (Seq<char>, ModelPricing)| (m.0, JsonView::Object(pricing_entries(m.1))),
            ),
            fields@ == goal.take(i as int),
        decreases prices@.len() - i,
    {
        let m = &prices[i];
        assert(all[i as int] == (m.name@, m.pricing));
        let mut f = Fields::new();
        f.put("input", json_fixed(m.pricing.input as u128, 3));
        f.put("output", json_fixed(m.pricing.output as u128, 3));
        f.put("cache_read", json_fixed(m.pricing.cache_read as u128, 3));
        f.put("cache_write", json_fixed(m.pricing.cache_write as u128, 3));
        assert(f@ == pricing_entries(m.pricing));
        fields.put(m.name.as_str(), f.object());
        assert(goal.take(i + 1) =~= goal.take(i as int).push(goal[i as int]));
        i = i + 1;
    }
    assert(goal.take(i as int) =~= goal);
    fields.object()
}

/// Whether the model at position `i` is the first with the name.
pub open spec fn first_named(table: Seq<(Seq<char>, ModelPricing)>, name: Seq<char>, i: int) -> bool {
    &&& 0 <= i < table.len()
    &&& table[i].0 == name
    &&& forall|j: int| 0 <= j < i ==> (#[trigger] table[j]).0 != name
}

/// Whether the name at position `i` is the first to stand in the name of the model or
/// to hold it.
pub open spec fn first_alike(table: Seq<(Seq<char>, ModelPricing)>, name: Seq<char>, i: int) -> bool {
    &&& 0 <= i < table.len()
    &&& alike(table[i].0, name)
    &&& forall|j: int| 0 <= j < i ==> !alike((#[trigger] table[j]).0, name)
}

/// Whether one of two names stands in the other.
pub open spec fn alike(a: Seq<char>, b: Seq<char>) -> bool {
    occurs(b, a) || occurs(a, b)
}

/// Whether these are the prices of a model: those of the first model with its name, or
/// else of the first one whose name stands in its name or holds it, if there is one.
pub open spec fn is_priced(
    table: Seq<(Seq<char>, ModelPricing)>,
    name: Seq<char>,
    pricing: Option<ModelPricing>,
) -> bool {
    match pricing {
        Some(p) => (exists|i: int| first_named(table, name, i) && table[i].1 == p) || ((forall|
            i: int,
        |
            0 <= i < table.len() ==> (#[trigger] table[i]).0 != name) && exists|i: int|
            first_alike(table, name, i) && table[i].1 == p),
        None => forall|i: int| 0 <= i < table.len() ==> !alike((#[trigger] table[i]).0, name)
            && table[i].0 != name,
    }
}

/// The prices of a model.
pub open spec fn pricing_of(table: Seq<(Seq<char>, ModelPricing)>, name: Seq<char>) -> Option<
    ModelPricing,
> {
    choose|p: Option<ModelPricing>| is_priced(table, name, p)
}

/// A model has one price: what [`is_priced`] tells of it is unique.
pub proof fn law_price_unique(
    table: Seq<(Seq<char>, ModelPricing)>,
    name: Seq<char>,
    a: Option<ModelPricing>,
    b: Option<ModelPricing>,
)
    requires
        is_priced(table, name, a),
        is_priced(table, name, b),
    ensures
        a == b,
{
    if a is Some && b is Some {
        if exists|i: int| first_named(table, name, i) {
            let i = choose|i: int| first_named(table, name, i) && table[i].1 == a->0;
            let j = choose|i: int| first_named(table, name, i) && table[i].1 == b->0;
            assert(table[i].0 == name && table[j].0 == name);
            assert(i == j);
        } else {
            let i = choose|i: int| first_alike(table, name, i) && table[i].1 == a->0;
            let j = choose|i: int| first_alike(table, name, i) && table[i].1 == b->0;
            if i < j {
                assert(!alike(table[i].0, name));
            } else if j < i {
                assert(!alike(table[j].0, name));
            }
        }
    } else if a is Some {
        lemma_priced_alike(table, name, a->0);
    } else if b is Some {
        lemma_priced_alike(table, name, b->0);
    }
}

proof fn lemma_priced_alike(
    table: Seq<(Seq<char>, ModelPricing)>,
    name: Seq<char>,
    p: ModelPricing,
)
    requires
        is_priced(table, name, Some(p)),
    ensures
        !is_priced(table, name, None),
{
    if exists|i: int| first_named(table, name, i) && table[i].1 == p {
        let i = choose|i: int| first_named(table, name, i) && table[i].1 == p;
        assert(table[i].0 == name);
    } else {
        let i = choose|i: int| first_alike(table, name, i) && table[i].1 == p;
        assert(alike(table[i].0, name));
    }
}

/// Whether the names of the models in the table are different ones.
pub open spec fn names_once(table: Seq<(Seq<char>, ModelPricing)>) -> bool {
    forall|i: int, j: int|
        0 <= i < j < table.len() ==> (#[trigger] table[i]).0 != (#[trigger] table[j]).0
}

proof fn lemma_names_once(
    table: Seq<(Seq<char>, ModelPricing)>,
    models: Seq<(Seq<char>, ModelPricing)>,
)
    requires
        names_once(table),
    ensures
        names_once(with_models(table, models)),
    decreases models.len(),
{
    if models.len() > 0 {
        lemma_names_once(table, models.drop_last());
    }
}

/// What is reported of prices is what is charged. No model stands twice in the table, with
/// a list of prices or without one; and the prices that the report gives for a name that
/// it holds are the prices of that model.
pub proof fn law_report_is_charged(list: Option<JsonView>, name: Seq<char>)
    ensures
        ({
            let table = known_models(list);
            let reported = pricing_report(table).get(name);
            &&& names_once(table)
            &&& reported is Some <==> is_named(table, name)
            &&& reported is Some ==> pricing_of(table, name) is Some && reported
                == Some(JsonView::Object(pricing_entries(pricing_of(table, name)->0)))
        }),
{
    let listed = match list {
        Some(JsonView::Object(entries)) => listed_models(entries),
        _ => Seq::empty(),
    };
    lemma_names_once(Seq::empty(), listed);
    lemma_names_once(with_models(Seq::empty(), listed), pricing_table());
    let table = known_models(list);
    let entries = pricing_report(table)->Object_0;
    if is_named(table, name) {
        let i = choose|i: int| 0 <= i < table.len() && (#[trigger] table[i]).0 == name;
        assert(first_named(table, name, i));
        assert(is_priced(table, name, Some(table[i].1)));
        law_price_unique(table, name, Some(table[i].1), pricing_of(table, name));
        assert(entries[i] == (name, JsonView::Object(pricing_entries(table[i].1))));
        assert forall|j: int| 0 <= j < i implies (#[trigger] entries[j]).0 != name by {
            assert(table[j].0 != table[i].0);
        }
        lemma_entry_value(entries, name, i);
    } else {
        assert forall|j: int| 0 <= j < entries.len() implies (#[trigger] entries[j]).0 != name by {
            assert(entries[j].0 == table[j].0);
        }
        lemma_no_entry(entries, name);
    }
}

/// Without a list of prices the models are those of [`pricing_table`].
pub proof fn law_known_without_list()
    ensures
        known_models(None) == pricing_table(),
{
    let t = pricing_table();
    reveal_strlit("openai/gpt-5.4");
    reveal_strlit("openai/gpt-5.3-codex");
    reveal_strlit("openai-codex/gpt-5.3-codex");
    reveal_strlit("openai/gpt-4o");
    reveal_strlit("openai/gpt-4o-mini");
    reveal_strlit("google/gemini-2.5-pro");
    assert(t[0].0.len() == 14);
    assert(t[1].0.len() == 20);
    assert(t[2].0.len() == 26);
    assert(t[3].0.len() == 13);
    assert(t[4].0.len() == 18);
    assert(t[5].0.len() == 21);
    assert(names_once(t));
    lemma_all_added(t);
}

proof fn lemma_all_added(models: Seq<(Seq<char>, ModelPricing)>)
    requires
        names_once(models),
    ensures
        with_models(Seq::empty(), models) == models,
    decreases models.len(),
{
    if models.len() > 0 {
        let rest = models.drop_last();
        lemma_all_added(rest);
        assert(!is_named(rest, models.last().0)) by {
            if is_named(rest, models.last().0) {
                let i = choose|i: int| 0 <= i < rest.len() && (#[trigger] rest[i]).0
                    == models.last().0;
                assert(models[i].0 != models[models.len() - 1].0);
            }
        }
        assert(rest.push(models.last()) =~= models);
    } else {
        assert(models =~= Seq::empty());
    }
}

/// The prices of a model: those of the first model with its name, or else of the first
/// one in the table whose name stands in its name or holds it.
pub fn find_pricing(prices: &Vec<PricedModel>, name: &str) -> (r: Option<ModelPricing>)
    ensures
        is_priced(model_views(prices@), name@, r),
        r == pricing_of(model_views(prices@), name@),
{
    let ghost all = model_views(prices@);
    let mut i: usize = 0;
    let mut found: Option<ModelPricing> = None;
    let mut exact: bool = false;
    while i < prices.len() && !exact
        invariant
            i <= prices@.len(),
            all == model_views(prices@),
            exact ==> (exists|k: int| first_named(all, name@, k) && Some(all[k].1) == found),
            !exact ==> forall|k: int| 0 <= k < i ==> (#[trigger] all[k]).0 != name@,
            !exact && found is None ==> forall|k: int|
                0 <= k < i ==> !alike((#[trigger] all[k]).0, name@),
            !exact && found is Some ==> exists|k: int|
                k < i && first_alike(all, name@, k) && Some(all[k].1) == found,
        decreases prices@.len() - i,
    {
        let m = &prices[i];
        assert(all[i as int] == (m.name@, m.pricing));
        if same(m.name.as_str(), name) {
            assert(first_named(all, name@, i as int));
            found = Some(m.pricing);
            exact = true;
        } else {
            if found.is_none() && (contains(name, m.name.as_str()) || contains(
                m.name.as_str(),
                name,
            )) {
                assert(first_alike(all, name@, i as int));
                found = Some(m.pricing);
            }
        }
        i = i + 1;
    }
    proof {
        assert(is_priced(all, name@, found));
        law_price_unique(all, name@, found, pricing_of(all, name@));
    }
    found
}

/// `n` parts of which `d` make one, rounded to the nearest whole number, halves away
/// from zero.
pub open spec fn rounded(n: int, d: int) -> int {
    if n >= 0 {
        (n + d / 2) / d
    } else {
        -((-n + d / 2) / d)
    }
}

/// The price of tokens, in thousandths of a millionth of a dollar.
pub open spec fn price_of(
    p: ModelPricing,
    input: int,
    output: int,
    cache_read: int,
    cache_write: int,
) -> int {
    input * p.input + output * p.output + cache_read * p.cache_read + cache_write * p.cache_write
}

/// The estimated cost of tokens in whole millionths of a dollar; nothing for a model
/// that is not known.
pub open spec fn cost_of(
    prices: Seq<(Seq<char>, ModelPricing)>,
    model: Option<Seq<char>>,
    input: int,
    output: int,
    cache_read: int,
    cache_write: int,
) -> int {
    match model {
        Some(m) => if m.len() == 0 {
            0
        } else {
            match pricing_of(prices, m) {
                Some(p) => rounded(price_of(p, input, output, cache_read, cache_write), 1000),
                None => 0,
            }
        },
        None => 0,
    }
}

fn share(tokens: i64, price: u32) -> (r: i128)
    ensures
        r == tokens * price,
        -0x8000_0000_0000_0000 * 0x1_0000_0000 <= r <= 0x8000_0000_0000_0000 * 0x1_0000_0000,
{
    assert(-0x8000_0000_0000_0000 * 0x1_0000_0000 <= tokens * price <= 0x8000_0000_0000_0000
        * 0x1_0000_0000) by (nonlinear_arith)
        requires
            -0x8000_0000_0000_0000 <= tokens <= 0x7fff_ffff_ffff_ffff,
            0 <= price <= 0xffff_ffff,
    ;
    tokens as i128 * price as i128
}

/// The most that [`estimate_cost`] gives, and the least without its sign.
pub open spec fn cost_bound() -> int {
    0x100_0000_0000_0000_0000_0000
}

/// The estimated cost of tokens in whole millionths of a dollar.
pub fn estimate_cost(
    prices: &Vec<PricedModel>,
    model: Option<&str>,
    input_tokens: i64,
    output_tokens: i64,
    cache_read_tokens: i64,
    cache_write_tokens: i64,
) -> (r: i128)
    ensures
        r == cost_of(
            model_views(prices@),
            opt_str_view(model),
            input_tokens as int,
            output_tokens as int,
            cache_read_tokens as int,
            cache_write_tokens as int,
        ),
        -cost_bound() <= r <= cost_bound(),
{
    let name = match model {
        Some(m) => m,
        None => {
            return 0;
        },
    };
    if name.is_empty() {
        return 0;
    }
    match find_pricing(prices, name) {
        Some(p) => {
            let total: i128 = share(input_tokens, p.input) + share(output_tokens, p.output) + share(
                cache_read_tokens,
                p.cache_read,
            ) + share(cache_write_tokens, p.cache_write);
            if total >= 0 {
                (total + 500) / 1000
            } else {
                -((-total + 500) / 1000)
            }
        },
        None => 0,
    }
}

// ---------------------------------------------------------------------------
// Usage in session files
// ---------------------------------------------------------------------------

/// The name of a model with its provider: a name that holds a slash stands for
/// itself, any other after the provider, where one is known.
pub open spec fn model_name(provider: Option<Seq<char>>, model: Option<Seq<char>>) -> Option<
    Seq<char>,
> {
    match model {
        Some(m) => if m.len() == 0 {
            None
        } else if m.contains('/') {
            Some(m)
        } else {
            match provider {
                Some(p) => if p.len() == 0 {
                    Some(m)
                } else {
                    Some(p + "/"@ + m)
                },
                None => Some(m),
            }
        },
        None => None,
    }
}

/// The name of a model with its provider.
pub fn normalize_model(provider: Option<&str>, model: Option<&str>) -> (r: Option<String>)
    ensures
        opt_text(r) == model_name(opt_str_view(provider), opt_str_view(model)),
{
    match model {
        Some(m) => {
            if m.is_empty() {
                return None;
            }
            if contains_char(m, '/') {
                return Some(m.to_owned());
            }
            match provider {
                Some(p) => if p.is_empty() {
                    Some(m.to_owned())
                } else {
                    Some(cat3(p, "/", m))
                },
                None => Some(m.to_owned()),
            }
        },
        None => None,
    }
}

/// Tokens that an entry of a session file tells of.
pub struct TokenUsage {
    pub timestamp: String,
    pub model: Option<String>,
    pub input_tokens: i64,
    pub output_tokens: i64,
    pub cache_read_tokens: i64,
    pub cache_write_tokens: i64,
}

/// What a [`TokenUsage`] stands for.
pub struct UsageView {
    pub timestamp: Seq<char>,
    pub model: Option<Seq<char>>,
    pub input_tokens: i64,
    pub output_tokens: i64,
    pub cache_read_tokens: i64,
    pub cache_write_tokens: i64,
}

impl View for TokenUsage {
    type V = UsageView;

    open spec fn view(&self) -> UsageView {
        UsageView {
            timestamp: self.timestamp@,
            model: opt_text(self.model),
            input_tokens: self.input_tokens,
            output_tokens: self.output_tokens,
            cache_read_tokens: self.cache_read_tokens,
            cache_write_tokens: self.cache_write_tokens,
        }
    }
}

/// The first number other than zero under one of three keys, or zero.
pub open spec fn count_at(usage: JsonView, a: Seq<char>, b: Seq<char>, c: Seq<char>) -> i64 {
    let x = value_or(usage.i64_at(a), 0);
    let y = value_or(usage.i64_at(b), 0);
    let z = value_or(usage.i64_at(c), 0);
    if x != 0 {
        x
    } else if y != 0 {
        y
    } else {
        z
    }
}

fn number_at(usage: &Json, key: &str) -> (r: i64)
    ensures
        r == value_or(usage@.i64_at(key@), 0),
{
    match usage.i64_at(key) {
        Some(n) => n,
        None => 0,
    }
}

fn get_i64(usage: &Json, a: &str, b: &str, c: &str) -> (r: i64)
    ensures
        r == count_at(usage@, a@, b@, c@),
{
    let x = number_at(usage, a);
    if x != 0 {
        return x;
    }
    let y = number_at(usage, b);
    if y != 0 {
        return y;
    }
    number_at(usage, c)
}

/// The value under a key of the message of an entry, or else of the entry itself,
/// under the same key or another one.
pub open spec fn told_text(entry: JsonView, key: Seq<char>, response_key: Seq<char>) -> Option<
    Seq<char>,
> {
    text_in(
        either(
            either(value_at(entry.get("message"@), key), entry.get(key)),
            entry.get(response_key),
        ),
    )
}

/// The usage that an entry tells of: that of the response, or else that of its
/// message; nothing where it is no object.
pub open spec fn usage_section(entry: JsonView) -> Option<JsonView> {
    match either(entry.get("responseUsage"@), value_at(entry.get("message"@), "usage"@)) {
        Some(u) => if u.is_object() {
            Some(u)
        } else {
            None
        },
        None => None,
    }
}

/// The usage that an entry of a session file tells of.
pub open spec fn usage_of(entry: JsonView) -> Option<UsageView> {
    match usage_section(entry) {
        Some(u) => Some(
            UsageView {
                timestamp: value_or(entry.str_at("timestamp"@), ""@),
                model: model_name(
                    told_text(entry, "provider"@, "responseProvider"@),
                    told_text(entry, "model"@, "responseModel"@),
                ),
                input_tokens: count_at(u, "inputTokens"@, "input_tokens"@, "input"@),
                output_tokens: count_at(u, "outputTokens"@, "output_tokens"@, "output"@),
                cache_read_tokens: count_at(
                    u,
                    "cacheReadInputTokens"@,
                    "cache_read_input_tokens"@,
                    "cacheRead"@,
                ),
                cache_write_tokens: count_at(
                    u,
                    "cacheCreationInputTokens"@,
                    "cache_creation_input_tokens"@,
                    "cacheWrite"@,
                ),
            },
        ),
        None => None,
    }
}

/// What an optional usage stands for.
pub open spec fn opt_usage(u: Option<TokenUsage>) -> Option<UsageView> {
    match u {
        Some(u) => Some(u@),
        None => None,
    }
}

fn told<'a>(entry: &'a Json, key: &str, response_key: &str) -> (r: Option<&'a str>)
    ensures
        opt_str_view(r) == told_text(entry@, key@, response_key@),
{
    let of_message = at(entry.get("message"), key);
    str_in(first_some(first_some(of_message, entry.get(key)), entry.get(response_key)))
}

/// The usage that an entry of a session file tells of.
pub fn entry_usage(entry: &Json) -> (r: Option<TokenUsage>)
    ensures
        opt_usage(r) == usage_of(entry@),
{
    let section = first_some(entry.get("responseUsage"), at(entry.get("message"), "usage"));
    let u = match section {
        Some(u) => u,
        None => {
            return None;
        },
    };
    if !u.is_object() {
        return None;
    }
    let provider = told(entry, "provider", "responseProvider");
    let model = told(entry, "model", "responseModel");
    Some(
        TokenUsage {
            timestamp: text_or(entry.str_at("timestamp"), "").to_owned(),
            model: normalize_model(provider, model),
            input_tokens: get_i64(u, "inputTokens", "input_tokens", "input"),
            output_tokens: get_i64(u, "outputTokens", "output_tokens", "output"),
            cache_read_tokens: get_i64(
                u,
                "cacheReadInputTokens",
                "cache_read_input_tokens",
                "cacheRead",
            ),
            cache_write_tokens: get_i64(
                u,
                "cacheCreationInputTokens",
                "cache_creation_input_tokens",
                "cacheWrite",
            ),
        },
    )
}

/// The usage that a line of a session file tells of, without the white space around
/// it.
pub open spec fn line_usage_of(line: Seq<char>) -> Option<UsageView> {
    if trimmed(line).len() == 0 {
        None
    } else {
        match parsed_json(trimmed(line)) {
            Some(entry) => usage_of(entry),
            None => None,
        }
    }
}

/// The usage that a line of a session file tells of.
pub fn line_usage(line: &str) -> (r: Option<TokenUsage>)
    ensures
        opt_usage(r) == line_usage_of(line@),
{
    let text = trim(line);
    if text.is_empty() {
        return None;
    }
    match parse_json(text) {
        Some(entry) => entry_usage(&entry),
        None => None,
    }
}

/// The usages that lines tell of, in their order.
pub open spec fn usages_in(all: Seq<Seq<char>>) -> Seq<UsageView>
    decreases all.len(),
{
    if all.len() == 0 {
        Seq::empty()
    } else {
        let before = usages_in(all.drop_last());
        match line_usage_of(all.last()) {
            Some(u) => before.push(u),
            None => before,
        }
    }
}

/// The usages that a sequence of [`TokenUsage`] stands for.
pub open spec fn usage_views(v: Seq<TokenUsage>) -> Seq<UsageView> {
    v.map_values(|u: TokenUsage| u@)
}

/// The number of bytes of a text.
pub open spec fn byte_len(text: Seq<char>) -> nat {
    encode_utf8(text).len()
}

/// Whether a session file is to be read: it holds more than was read before.
pub fn needs_scan(file_size: i64, last_offset: i64) -> (r: bool)
    ensures
        r == (file_size > last_offset),
{
    file_size > last_offset
}

/// Reads what was added to a session file since the offset: the usages that its lines
/// tell of, and the offset behind it.
pub fn scan_session_text(text: &str, last_offset: i64) -> (r: (Vec<TokenUsage>, i64))
    requires
        last_offset >= 0,
        last_offset + byte_len(text@) <= i64::MAX,
    ensures
        usage_views(r.0@) == usages_in(lines(text@)),
        r.1 == last_offset + byte_len(text@),
{
    let all = split_lines(text);
    let ghost goal = texts(all@);
    let mut out: Vec<TokenUsage> = Vec::new();
    let mut i: usize = 0;
    proof {
        assert(goal.take(0) =~= Seq::<Seq<char>>::empty());
        assert(usage_views(out@) =~= Seq::<UsageView>::empty());
    }
    while i < all.len()
        invariant
            i <= all@.len(),
            goal == texts(all@),
            usage_views(out@) == usages_in(goal.take(i as int)),
        decreases all@.len() - i,
    {
        let ghost before = usage_views(out@);
        proof {
            assert(goal.take(i + 1).drop_last() =~= goal.take(i as int));
            assert(goal.take(i + 1).last() == all@[i as int]@);
        }
        match line_usage(all[i].as_str()) {
            Some(u) => {
                out.push(u);
                assert(usage_views(out@) =~= before.push(u@));
            },
            None => {},
        }
        i = i + 1;
    }
    assert(goal.take(i as int) =~= goal);
    let added = text.as_bytes().len();
    (out, last_offset + added as i64)
}

/// The whole lines at the beginning of a text: everything up to its last line feed.
pub open spec fn lines_in_full(text: Seq<char>) -> Seq<char>
    decreases text.len(),
{
    if text.len() == 0 || text.last() == '\n' {
        text
    } else {
        lines_in_full(text.drop_last())
    }
}

/// The whole lines at the beginning of a text, for one that breaks off.
pub fn whole_lines(text: &str) -> (r: String)
    ensures
        r@ == lines_in_full(text@),
{
    let chars = chars_of(text);
    let mut n: usize = chars.len();
    assert(text@.take(n as int) =~= text@);
    while n > 0 && chars[n - 1] != '\n'
        invariant
            n <= chars@.len(),
            chars@ == text@,
            lines_in_full(text@.take(n as int)) == lines_in_full(text@),
        decreases n,
    {
        assert(text@.take(n as int).drop_last() =~= text@.take(n - 1));
        n = n - 1;
    }
    let r = string_between(&chars, 0, n);
    assert(r@ =~= text@.take(n as int));
    r
}

/// Whether a file is one of a session, by its name.
pub fn is_session_file(path: &str) -> (r: bool)
    ensures
        r == (extension_of(path@) == Some("jsonl"@)),
{
    match extension(path) {
        Some(e) => same(e.as_str(), "jsonl"),
        None => false,
    }
}

// ---------------------------------------------------------------------------
// Laws
// ---------------------------------------------------------------------------

proof fn lemma_run_len_add(a: Seq<char>, b: Seq<char>, class: CharClass)
    requires
        run_len(a, class) < a.len(),
    ensures
        run_len(a + b, class) == run_len(a, class),
    decreases a.len(),
{
    if a.len() > 0 && !class.has(a[0]) {
        assert((a + b).drop_first() =~= a.drop_first() + b);
        lemma_run_len_add(a.drop_first(), b, class);
    }
}

proof fn lemma_run_len_last(a: Seq<char>)
    requires
        a.len() > 0,
        a.last() == '\n',
    ensures
        run_len(a, CharClass::Just('\n')) < a.len(),
    decreases a.len(),
{
    if a[0] != '\n' {
        assert(a.drop_first().last() == '\n');
        lemma_run_len_last(a.drop_first());
    }
}

proof fn lemma_lines_add(a: Seq<char>, b: Seq<char>)
    requires
        a.len() == 0 || a.last() == '\n',
    ensures
        lines(a + b) == lines(a) + lines(b),
    decreases a.len(),
{
    if a.len() == 0 {
        assert(a + b =~= b);
        assert(lines(a) + lines(b) =~= lines(b));
    } else {
        lemma_run_len_last(a);
        lemma_run_len_add(a, b, CharClass::Just('\n'));
        let n = run_len(a, CharClass::Just('\n')) as int;
        let rest = a.skip(n + 1);
        if rest.len() > 0 {
            assert(rest.last() == a.last());
        }
        lemma_lines_add(rest, b);
        assert((a + b).skip(n + 1) =~= rest + b);
        assert((a + b).take(n) =~= a.take(n));
        assert(lines(a + b) =~= lines(a) + lines(b));
    }
}

proof fn lemma_usages_add(a: Seq<Seq<char>>, b: Seq<Seq<char>>)
    ensures
        usages_in(a + b) == usages_in(a) + usages_in(b),
    decreases b.len(),
{
    if b.len() == 0 {
        assert(a + b =~= a);
        assert(usages_in(a) + usages_in(b) =~= usages_in(a));
    } else {
        lemma_usages_add(a, b.drop_last());
        assert((a + b).drop_last() =~= a + b.drop_last());
        assert((a + b).last() == b.last());
        assert(usages_in(a + b) =~= usages_in(a) + usages_in(b));
    }
}

proof fn lemma_byte_len_add(a: Seq<char>, b: Seq<char>)
    ensures
        byte_len(a + b) == byte_len(a) + byte_len(b),
    decreases a.len(),
{
    if a.len() == 0 {
        assert(a + b =~= b);
    } else {
        assert((a + b).drop_first() =~= a.drop_first() + b);
        lemma_byte_len_add(a.drop_first(), b);
    }
}

/// Reading a session file in two goes tells of the same usages, and ends at the same
/// offset, as reading it in one, as long as the first go ends at the end of a line.
pub proof fn law_scan_in_parts(first: Seq<char>, second: Seq<char>, last_offset: int)
    requires
        first.len() == 0 || first.last() == '\n',
    ensures
        usages_in(lines(first + second)) == usages_in(lines(first)) + usages_in(lines(second)),
        last_offset + byte_len(first + second) == (last_offset + byte_len(first)) + byte_len(
            second,
        ),
{
    lemma_lines_add(first, second);
    lemma_usages_add(lines(first), lines(second));
    lemma_byte_len_add(first, second);
}

/// A model that is named after its provider stays so, and one is never named without
/// its own name.
pub proof fn law_model_name(provider: Option<Seq<char>>, model: Option<Seq<char>>)
    ensures
        model_name(provider, model) is None <==> model is None || model->0.len() == 0,
        model_name(provider, model) matches Some(m) ==> m.len() > 0 && model_name(
            None,
            Some(m),
        ) == Some(m),
        model_name(provider, model) matches Some(m) ==> (m.contains('/') ==> model_name(
            provider,
            Some(m),
        ) == Some(m)),
{
}

/// Whether an entry tells of the usage `u`: in its response, or else in its message.
pub open spec fn tells_usage(entry: JsonView, u: JsonView) -> bool {
    &&& u is Object
    &&& match entry.get("responseUsage"@) {
        Some(r) => r == u,
        None => entry.get("message"@) matches Some(m) && m.get("usage"@) == Some(u),
    }
}

/// Whether a usage holds the number `n` under a key, and nothing under two others.
pub open spec fn holds_only(
    u: JsonView,
    key: Seq<char>,
    n: i64,
    other: Seq<char>,
    another: Seq<char>,
) -> bool {
    &&& u.get(key) == Some(int_value(n))
    &&& u.get(other) is None
    &&& u.get(another) is None
}

/// An entry that tells of a usage is read, with its time; and the number of tokens of each
/// kind is the one that stands in the usage, under any of the three names that the kind
/// goes by. Where several of them stand there, the first that is not zero counts, in the
/// order of the names; and where none does, there were no tokens of the kind.
pub proof fn law_usage_read(entry: JsonView, u: JsonView, n: i64)
    requires
        tells_usage(entry, u),
    ensures
        usage_of(entry) matches Some(v) && {
            &&& entry.get("timestamp"@) matches Some(JsonView::Str(t)) ==> v.timestamp == t
            &&& holds_only(u, "inputTokens"@, n, "input_tokens"@, "input"@) ==> v.input_tokens == n
            &&& holds_only(u, "input_tokens"@, n, "inputTokens"@, "input"@) ==> v.input_tokens == n
            &&& holds_only(u, "input"@, n, "inputTokens"@, "input_tokens"@) ==> v.input_tokens == n
            &&& u.get("inputTokens"@) is None && u.get("input_tokens"@) is None && u.get("input"@) is None
                ==> v.input_tokens == 0
            &&& n != 0 && u.get("inputTokens"@) == Some(int_value(n)) ==> v.input_tokens == n
            &&& n != 0 && u.get("inputTokens"@) is None && u.get("input_tokens"@) == Some(int_value(n))
                ==> v.input_tokens == n
            &&& holds_only(u, "outputTokens"@, n, "output_tokens"@, "output"@) ==> v.output_tokens == n
            &&& holds_only(u, "output_tokens"@, n, "outputTokens"@, "output"@) ==> v.output_tokens == n
            &&& holds_only(u, "output"@, n, "outputTokens"@, "output_tokens"@) ==> v.output_tokens == n
            &&& u.get("outputTokens"@) is None && u.get("output_tokens"@) is None && u.get("output"@) is None
                ==> v.output_tokens == 0
            &&& n != 0 && u.get("outputTokens"@) == Some(int_value(n)) ==> v.output_tokens == n
            &&& n != 0 && u.get("outputTokens"@) is None && u.get("output_tokens"@) == Some(int_value(n))
                ==> v.output_tokens == n
            &&& holds_only(u, "cacheReadInputTokens"@, n, "cache_read_input_tokens"@, "cacheRead"@) ==> v.cache_read_tokens == n
            &&& holds_only(u, "cache_read_input_tokens"@, n, "cacheReadInputTokens"@, "cacheRead"@) ==> v.cache_read_tokens == n
            &&& holds_only(u, "cacheRead"@, n, "cacheReadInputTokens"@, "cache_read_input_tokens"@) ==> v.cache_read_tokens == n
            &&& u.get("cacheReadInputTokens"@) is None && u.get("cache_read_input_tokens"@) is None && u.get("cacheRead"@) is None
                ==> v.cache_read_tokens == 0
            &&& n != 0 && u.get("cacheReadInputTokens"@) == Some(int_value(n)) ==> v.cache_read_tokens == n
            &&& n != 0 && u.get("cacheReadInputTokens"@) is None && u.get("cache_read_input_tokens"@) == Some(int_value(n))
                ==> v.cache_read_tokens == n
            &&& holds_only(u, "cacheCreationInputTokens"@, n, "cache_creation_input_tokens"@, "cacheWrite"@) ==> v.cache_write_tokens == n
            &&& holds_only(u, "cache_creation_input_tokens"@, n, "cacheCreationInputTokens"@, "cacheWrite"@) ==> v.cache_write_tokens == n
            &&& holds_only(u, "cacheWrite"@, n, "cacheCreationInputTokens"@, "cache_creation_input_tokens"@) ==> v.cache_write_tokens == n
            &&& u.get("cacheCreationInputTokens"@) is None && u.get("cache_creation_input_tokens"@) is None && u.get("cacheWrite"@) is None
                ==> v.cache_write_tokens == 0
            &&& n != 0 && u.get("cacheCreationInputTokens"@) == Some(int_value(n)) ==> v.cache_write_tokens == n
            &&& n != 0 && u.get("cacheCreationInputTokens"@) is None && u.get("cache_creation_input_tokens"@) == Some(int_value(n))
                ==> v.cache_write_tokens == n
        },
{
}

/// The number of tokens of a kind depends on nothing but what stands under its three
/// names: two usages that agree there have the same number, whatever else they, or the
/// entries around them, hold.
pub proof fn law_counts_stay_apart(e1: JsonView, u1: JsonView, e2: JsonView, u2: JsonView)
    requires
        tells_usage(e1, u1),
        tells_usage(e2, u2),
    ensures
        usage_of(e1) matches Some(v1) && usage_of(e2) matches Some(v2) && {
            &&& u1.get("inputTokens"@) == u2.get("inputTokens"@) && u1.get("input_tokens"@) == u2.get("input_tokens"@)
                && u1.get("input"@) == u2.get("input"@) ==> v1.input_tokens == v2.input_tokens
            &&& u1.get("outputTokens"@) == u2.get("outputTokens"@) && u1.get("output_tokens"@) == u2.get("output_tokens"@)
                && u1.get("output"@) == u2.get("output"@) ==> v1.output_tokens == v2.output_tokens
            &&& u1.get("cacheReadInputTokens"@) == u2.get("cacheReadInputTokens"@) && u1.get("cache_read_input_tokens"@) == u2.get("cache_read_input_tokens"@)
                && u1.get("cacheRead"@) == u2.get("cacheRead"@) ==> v1.cache_read_tokens == v2.cache_read_tokens
            &&& u1.get("cacheCreationInputTokens"@) == u2.get("cacheCreationInputTokens"@) && u1.get("cache_creation_input_tokens"@) == u2.get("cache_creation_input_tokens"@)
                && u1.get("cacheWrite"@) == u2.get("cacheWrite"@) ==> v1.cache_write_tokens == v2.cache_write_tokens
        },
{
}

/// An entry without a usage is passed over; and one whose message names a model is counted
/// for that model, under the name of its provider, where it does not stand there already.
pub proof fn law_model_told(entry: JsonView, u: JsonView, m: JsonView, model: Seq<char>, by: Seq<char>)
    ensures
        entry.get("responseUsage"@) is None && entry.get("message"@) is None ==> usage_of(
            entry,
        ) is None,
        tells_usage(entry, u) && model.len() > 0 && by.len() > 0 && (entry.get("message"@) == Some(m)
            && m.get("model"@) == Some(JsonView::Str(model)) && m.get("provider"@) == Some(
            JsonView::Str(by),
        ) || entry.get("message"@) is None && entry.get("model"@) is None && entry.get(
            "provider"@,
        ) is None && entry.get("responseModel"@) == Some(JsonView::Str(model)) && entry.get(
            "responseProvider"@,
        ) == Some(JsonView::Str(by))) ==> (usage_of(entry) matches Some(v) && v.model == Some(
            if model.contains('/') {
                model
            } else {
                by + "/"@ + model
            },
        )),
{
}

/// Every line adds the usage that it tells of, if any, behind those of the lines before,
/// and changes nothing of them.
pub proof fn law_line_adds_usage(before: Seq<Seq<char>>, line: Seq<char>, entry: JsonView)
    requires
        trimmed(line).len() > 0,
        parsed_json(trimmed(line)) == Some(entry),
    ensures
        usages_in(before.push(line)) == match usage_of(entry) {
            Some(v) => usages_in(before).push(v),
            None => usages_in(before),
        },
        usages_in(Seq::empty()).len() == 0,
{
    assert(before.push(line).drop_last() =~= before);
}

/// The price of a model is that of the first one in the table with its name; where none
/// has, that of the first one whose name holds its name or stands in it; and where there
/// is none of these either, it has no price.
pub proof fn law_price_found(table: Seq<(Seq<char>, ModelPricing)>, name: Seq<char>, i: int)
    ensures
        0 <= i < table.len() && table[i].0 == name && (forall|j: int|
            0 <= j < i ==> (#[trigger] table[j]).0 != name) ==> pricing_of(table, name) == Some(
            table[i].1,
        ),
        0 <= i < table.len() && (occurs(name, table[i].0) || occurs(table[i].0, name)) && (forall|
            j: int,
        |
            0 <= j < table.len() ==> (#[trigger] table[j]).0 != name) && (forall|j: int|
            0 <= j < i ==> !occurs(name, (#[trigger] table[j]).0) && !occurs(table[j].0, name))
            ==> pricing_of(table, name) == Some(table[i].1),
        (forall|j: int|
            0 <= j < table.len() ==> (#[trigger] table[j]).0 != name && !occurs(name, table[j].0)
                && !occurs(table[j].0, name)) ==> pricing_of(table, name) is None,
{
    if 0 <= i < table.len() && table[i].0 == name && (forall|j: int|
        0 <= j < i ==> (#[trigger] table[j]).0 != name) {
        assert(first_named(table, name, i));
        assert(is_priced(table, name, Some(table[i].1)));
        law_price_unique(table, name, Some(table[i].1), pricing_of(table, name));
    }
    if 0 <= i < table.len() && (occurs(name, table[i].0) || occurs(table[i].0, name)) && (forall|
        j: int,
    |
        0 <= j < table.len() ==> (#[trigger] table[j]).0 != name) && (forall|j: int|
        0 <= j < i ==> !occurs(name, (#[trigger] table[j]).0) && !occurs(table[j].0, name)) {
        assert(first_alike(table, name, i));
        assert(is_priced(table, name, Some(table[i].1)));
        law_price_unique(table, name, Some(table[i].1), pricing_of(table, name));
    }
    if forall|j: int|
        0 <= j < table.len() ==> (#[trigger] table[j]).0 != name && !occurs(name, table[j].0)
            && !occurs(table[j].0, name) {
        assert(is_priced(table, name, None));
        law_price_unique(table, name, None, pricing_of(table, name));
    }
}

/// Of every model that is known without a list, output costs more than input, and what is
/// read from the cache costs least.
pub proof fn law_prices_in_proportion(i: int)
    requires
        0 <= i < known_models(None).len(),
    ensures
        ({
            let p = known_models(None)[i].1;
            0 < p.cache_read < p.cache_write <= p.input < p.output
        }),
{
    law_known_without_list();
}

/// The nearest whole number of thousands in a number; in the middle between two, the one
/// that is farther from zero.
pub open spec fn is_nearest_thousand(c: int, total: int) -> bool {
    if total >= 0 {
        -500 < 1000 * c - total <= 500
    } else {
        -500 <= 1000 * c - total < 500
    }
}

/// The cost of tokens of a priced model is what each kind of them costs, at its own price,
/// to the nearest millionth of a dollar. So a thousand more tokens of a kind cost exactly
/// the price of that kind more; and tokens of no model, or of one without a price, cost
/// nothing.
pub proof fn law_cost_by_kind(
    prices: Seq<(Seq<char>, ModelPricing)>,
    model: Seq<char>,
    p: ModelPricing,
    i: int,
    o: int,
    r: int,
    w: int,
)
    requires
        model.len() > 0,
    ensures
        pricing_of(prices, model) == Some(p) ==> is_nearest_thousand(
            cost_of(prices, Some(model), i, o, r, w),
            i * p.input + o * p.output + r * p.cache_read + w * p.cache_write,
        ),
        pricing_of(prices, model) == Some(p) && i >= 0 && o >= 0 && r >= 0 && w >= 0 ==> {
            let c = cost_of(prices, Some(model), i, o, r, w);
            &&& cost_of(prices, Some(model), i + 1000, o, r, w) == c + p.input
            &&& cost_of(prices, Some(model), i, o + 1000, r, w) == c + p.output
            &&& cost_of(prices, Some(model), i, o, r + 1000, w) == c + p.cache_read
            &&& cost_of(prices, Some(model), i, o, r, w + 1000) == c + p.cache_write
        },
        pricing_of(prices, model) is None ==> cost_of(prices, Some(model), i, o, r, w) == 0,
        cost_of(prices, None, i, o, r, w) == 0,
{
    if pricing_of(prices, model) == Some(p) && i >= 0 && o >= 0 && r >= 0 && w >= 0 {
        assert((i + 1000) * p.input == i * p.input + 1000 * p.input) by (nonlinear_arith);
        assert((o + 1000) * p.output == o * p.output + 1000 * p.output) by (nonlinear_arith);
        assert((r + 1000) * p.cache_read == r * p.cache_read + 1000 * p.cache_read)
            by (nonlinear_arith);
        assert((w + 1000) * p.cache_write == w * p.cache_write + 1000 * p.cache_write)
            by (nonlinear_arith);
        assert(i * p.input >= 0) by (nonlinear_arith)
            requires
                i >= 0,
        ;
        assert(o * p.output >= 0) by (nonlinear_arith)
            requires
                o >= 0,
        ;
        assert(r * p.cache_read >= 0) by (nonlinear_arith)
            requires
                r >= 0,
        ;
        assert(w * p.cache_write >= 0) by (nonlinear_arith)
            requires
                w >= 0,
        ;
    }
}

/// The prices of the models that are known without a list, for a million tokens each.
pub proof fn law_prices_known(name: Seq<char>, p: ModelPricing)
    requires
        known_models(None).contains((name, p)),
    ensures
        name == "openai/gpt-5.4"@ || name == "openai/gpt-5.3-codex"@ || name
            == "openai-codex/gpt-5.3-codex"@ ==> p.input == 2_000 && p.output == 10_000
            && p.cache_read == 500 && p.cache_write == 1_000,
        name == "openai/gpt-4o"@ ==> p.input == 2_500 && p.output == 10_000 && p.cache_read == 1_250
            && p.cache_write == 2_500,
        name == "openai/gpt-4o-mini"@ ==> p.input == 150 && p.output == 600 && p.cache_read == 75
            && p.cache_write == 150,
        name == "google/gemini-2.5-pro"@ ==> p.input == 1_250 && p.output == 10_000 && p.cache_read
            == 315 && p.cache_write == 1_250,
        name == "openai/gpt-5.4"@ || name == "openai/gpt-5.3-codex"@ || name
            == "openai-codex/gpt-5.3-codex"@ || name == "openai/gpt-4o"@ || name
            == "openai/gpt-4o-mini"@ || name == "google/gemini-2.5-pro"@,
{
    law_known_without_list();
    reveal_strlit("openai/gpt-5.4");
    reveal_strlit("openai/gpt-5.3-codex");
    reveal_strlit("openai-codex/gpt-5.3-codex");
    reveal_strlit("openai/gpt-4o");
    reveal_strlit("openai/gpt-4o-mini");
    reveal_strlit("google/gemini-2.5-pro");
    assert("openai/gpt-5.4"@.len() == 14);
    assert("openai/gpt-5.3-codex"@.len() == 20);
    assert("openai-codex/gpt-5.3-codex"@.len() == 26);
    assert("openai/gpt-4o"@.len() == 13);
    assert("openai/gpt-4o-mini"@.len() == 18);
    assert("google/gemini-2.5-pro"@.len() == 21);
}

/// A list of prices is read by the name of each kind of token; and a price is reported under
/// the name it is read by, as a number of thousandths.
pub proof fn law_list_read(
    entries: Seq<(Seq<char>, JsonView)>,
    name: Seq<char>,
    entry: JsonView,
    input: u32,
    output: u32,
    cache_read: u32,
    cache_write: u32,
    p: ModelPricing,
)
    ensures
        entry.get("input"@) == Some(int_value(input as i64)) && entry.get("output"@) == Some(
            int_value(output as i64),
        ) && entry.get("cache_read"@) == Some(int_value(cache_read as i64)) && entry.get(
            "cache_write"@,
        ) == Some(int_value(cache_write as i64)) ==> listed_models(entries.push((name, entry)))
            == listed_models(entries).push(
            (name, (ModelPricing { input, output, cache_read, cache_write })),
        ),
        entry.get("input"@) is None || entry.get("output"@) is None || entry.get(
            "cache_read"@,
        ) is None || entry.get("cache_write"@) is None ==> listed_models(
            entries.push((name, entry)),
        ) == listed_models(entries),
        ({
            let told = JsonView::Object(pricing_entries(p));
            &&& told.get("input"@) == Some(fixed_value(p.input as int, 3))
            &&& told.get("output"@) == Some(fixed_value(p.output as int, 3))
            &&& told.get("cache_read"@) == Some(fixed_value(p.cache_read as int, 3))
            &&& told.get("cache_write"@) == Some(fixed_value(p.cache_write as int, 3))
        }),
{
    assert(entries.push((name, entry)).drop_last() =~= entries);
    let told = pricing_entries(p);
    reveal_strlit("input");
    assert("input"@.len() == 5);
    reveal_strlit("output");
    assert("output"@.len() == 6);
    reveal_strlit("cache_read");
    assert("cache_read"@.len() == 10);
    reveal_strlit("cache_write");
    assert("cache_write"@.len() == 11);
    lemma_entry_value(told, "input"@, 0);
    lemma_entry_value(told, "output"@, 1);
    lemma_entry_value(told, "cache_read"@, 2);
    lemma_entry_value(told, "cache_write"@, 3);
}

/// A file of a session is one whose name ends in `.jsonl`, and it is read again only where it
/// has grown.
pub proof fn law_files_scanned(
    dir: Seq<char>,
    stem: Seq<char>,
    path: &str,
    session: bool,
    size: i64,
    offset: i64,
    grown: bool,
)
    requires
        call_ensures(is_session_file, (path,), session),
        call_ensures(needs_scan, (size, offset), grown),
        is_plain_name(stem),
    ensures
        path@ == dir + "/"@ + (stem + "."@ + "jsonl"@) ==> session,
        path@ == dir + "/"@ + (stem + "."@ + "json"@) ==> !session,
        grown <==> offset < size,
{
    reveal_strlit("jsonl");
    reveal_strlit("json");
    assert("jsonl"@.len() == 5 && "json"@.len() == 4);
    law_extension(dir, stem, "jsonl"@);
    law_extension(dir, stem, "json"@);
}

} // verus!
