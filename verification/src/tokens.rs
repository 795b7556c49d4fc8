//! Reports on token usage.

use vstd::prelude::*;
use vstd::string::*;

use crate::json::{
    int_value, json_array, json_int, json_opt_text, json_text, json_views, lemma_entry_value,
    opt_slice, opt_str_view, opt_text, text_or, text_or_null, value_or, Fields, Json, JsonView,
};
use crate::numbers::{fixed_value, json_fixed, json_fixed_signed};
use crate::text::same;
use crate::token_scanner::{
    cost_bound, cost_of, estimate_cost, is_nearest_thousand, law_cost_by_kind, model_views,
    pricing_of, rounded, ModelPricing, PricedModel,
};

verus! {

// ---------------------------------------------------------------------------
// Rows
// ---------------------------------------------------------------------------

/// Numbers of tokens.
#[derive(Debug, Clone, Copy, PartialEq, Eq, Structural)]
pub struct Counts {
    pub input: i64,
    pub output: i64,
    pub cache_read: i64,
    pub cache_write: i64,
}

impl Counts {
    /// The entries of a report on them.
    pub open spec fn entries(self) -> Seq<(Seq<char>, JsonView)> {
        seq![
            ("input_tokens"@, int_value(self.input)),
            ("output_tokens"@, int_value(self.output)),
            ("cache_read_tokens"@, int_value(self.cache_read)),
            ("cache_write_tokens"@, int_value(self.cache_write)),
        ]
    }

    /// What they cost with a model, in millionths of a dollar.
    pub open spec fn cost(
        self,
        prices: Seq<(Seq<char>, ModelPricing)>,
        model: Option<Seq<char>>,
    ) -> int {
        cost_of(
            prices,
            model,
            self.input as int,
            self.output as int,
            self.cache_read as int,
            self.cache_write as int,
        )
    }

    fn put_entries(&self, fields: &mut Fields)
        ensures
            final(fields)@ == old(fields)@ + self.entries(),
    {
        fields.put("input_tokens", json_int(self.input));
        fields.put("output_tokens", json_int(self.output));
        fields.put("cache_read_tokens", json_int(self.cache_read));
        fields.put("cache_write_tokens", json_int(self.cache_write));
        assert(fields@ =~= old(fields)@ + self.entries());
    }

    fn estimate(&self, prices: &Vec<PricedModel>, model: Option<&str>) -> (r: i128)
        ensures
            r == self.cost(model_views(prices@), opt_str_view(model)),
            -cost_bound() <= r <= cost_bound(),
    {
        estimate_cost(prices, model, self.input, self.output, self.cache_read, self.cache_write)
    }
}

/// The usage of a model.
pub struct ModelRow {
    pub model: Option<String>,
    pub counts: Counts,
}

/// The usage of an agent.
pub struct AgentRow {
    pub instance_name: String,
    pub agent_id: Option<String>,
    pub counts: Counts,
}

/// The usage of a model by an agent.
pub struct AgentModelRow {
    pub instance_name: String,
    pub agent_id: Option<String>,
    pub model: Option<String>,
    pub counts: Counts,
}

/// The usage of a day.
pub struct DayRow {
    pub date: String,
    pub counts: Counts,
}

/// The usage of an agent in an hour of the day.
pub struct HeatRow {
    pub instance_name: String,
    pub agent_id: Option<String>,
    pub hour: i32,
    pub total_tokens: i64,
    pub event_count: i64,
    pub active_days: i64,
}

/// All usage, summed up.
pub struct TokenSummary {
    pub totals: Counts,
    pub by_model: Vec<ModelRow>,
    pub by_agent: Vec<AgentRow>,
    pub by_agent_model: Vec<AgentModelRow>,
    pub today_total: i64,
}

// ---------------------------------------------------------------------------
// Names of agents
// ---------------------------------------------------------------------------

/// The name of an agent of an instance.
pub struct AgentName {
    pub instance_name: String,
    pub agent_id: String,
    pub name: String,
}

/// What an [`AgentName`] stands for.
pub struct NameView {
    pub instance_name: Seq<char>,
    pub agent_id: Seq<char>,
    pub name: Seq<char>,
}

impl View for AgentName {
    type V = NameView;

    open spec fn view(&self) -> NameView {
        NameView { instance_name: self.instance_name@, agent_id: self.agent_id@, name: self.name@ }
    }
}

/// The names that a sequence of [`AgentName`] stands for.
pub open spec fn name_views(names: Seq<AgentName>) -> Seq<NameView> {
    names.map_values(|n: AgentName| n@)
}

/// The name that the report on an agent gives it; nothing without identifiers.
pub open spec fn name_in(instance: Seq<char>, agent: JsonView) -> Option<NameView> {
    let id = value_or(agent.str_at("id"@), ""@);
    if instance.len() == 0 || id.len() == 0 {
        None
    } else {
        Some(
            NameView {
                instance_name: instance,
                agent_id: id,
                name: value_or(agent.str_at("name"@), id),
            },
        )
    }
}

/// The names that the reports on agents give them.
pub open spec fn names_in_agents(instance: Seq<char>, agents: Seq<JsonView>) -> Seq<NameView>
    decreases agents.len(),
{
    if agents.len() == 0 {
        Seq::empty()
    } else {
        let before = names_in_agents(instance, agents.drop_last());
        match name_in(instance, agents.last()) {
            Some(n) => before.push(n),
            None => before,
        }
    }
}

/// The names that the report on an instance gives its agents.
pub open spec fn names_in_info(info: JsonView) -> Seq<NameView> {
    match info.array_at("agents"@) {
        Some(agents) => names_in_agents(value_or(info.str_at("name"@), ""@), agents),
        None => Seq::empty(),
    }
}

/// The names that the reports on instances give their agents.
pub open spec fn names_in_infos(infos: Seq<JsonView>) -> Seq<NameView>
    decreases infos.len(),
{
    if infos.len() == 0 {
        Seq::empty()
    } else {
        names_in_infos(infos.drop_last()) + names_in_info(infos.last())
    }
}

fn push_names(out: &mut Vec<AgentName>, instance: &str, agents: &Vec<Json>)
    ensures
        name_views(final(out)@) == name_views(old(out)@) + names_in_agents(
            instance@,
            json_views(agents@),
        ),
{
    let ghost all = json_views(agents@);
    let ghost start = name_views(out@);
    let mut i: usize = 0;
    proof {
        assert(all.take(0) =~= Seq::<JsonView>::empty());
        assert(start + Seq::<NameView>::empty() =~= start);
    }
    while i < agents.len()
        invariant
            i <= agents@.len(),
            all == json_views(agents@),
            name_views(out@) == start + names_in_agents(instance@, all.take(i as int)),
        decreases agents@.len() - i,
    {
        let ghost before = name_views(out@);
        proof {
            assert(all.take(i + 1).drop_last() =~= all.take(i as int));
            assert(all.take(i + 1).last() == agents@[i as int]@);
        }
        let agent = &agents[i];
        let id = text_or(agent.str_at("id"), "");
        if !instance.is_empty() && !id.is_empty() {
            let n = AgentName {
                instance_name: instance.to_owned(),
                agent_id: id.to_owned(),
                name: text_or(agent.str_at("name"), id).to_owned(),
            };
            out.push(n);
            proof {
                assert(name_views(out@) =~= before.push(n@));
                assert(name_views(out@) =~= start + names_in_agents(instance@, all.take(i + 1)));
            }
        }
        i = i + 1;
    }
    assert(all.take(i as int) =~= all);
}

/// The names that the reports on instances give their agents.
pub fn build_agent_names(infos: &Vec<Json>) -> (r: Vec<AgentName>)
    ensures
        name_views(r@) == names_in_infos(json_views(infos@)),
{
    let ghost all = json_views(infos@);
    let mut out: Vec<AgentName> = Vec::new();
    let mut i: usize = 0;
    proof {
        assert(all.take(0) =~= Seq::<JsonView>::empty());
        assert(name_views(out@) =~= Seq::<NameView>::empty());
    }
    while i < infos.len()
        invariant
            i <= infos@.len(),
            all == json_views(infos@),
            name_views(out@) == names_in_infos(all.take(i as int)),
        decreases infos@.len() - i,
    {
        let ghost before = name_views(out@);
        proof {
            assert(all.take(i + 1).drop_last() =~= all.take(i as int));
            assert(all.take(i + 1).last() == infos@[i as int]@);
            assert(before + Seq::<NameView>::empty() =~= before);
        }
        let info = &infos[i];
        match info.array_at("agents") {
            Some(agents) => {
                push_names(&mut out, text_or(info.str_at("name"), ""), agents);
            },
            None => {},
        }
        i = i + 1;
    }
    assert(all.take(i as int) =~= all);
    out
}

/// The name of an agent: the one that was given last, or else its identifier.
pub open spec fn name_of(names: Seq<NameView>, instance: Seq<char>, id: Seq<char>) -> Seq<char>
    decreases names.len(),
{
    if names.len() == 0 {
        id
    } else if names.last().instance_name == instance && names.last().agent_id == id {
        names.last().name
    } else {
        name_of(names.drop_last(), instance, id)
    }
}

fn find_name<'a>(names: &'a Vec<AgentName>, instance: &str, id: &'a str) -> (r: &'a str)
    ensures
        r@ == name_of(name_views(names@), instance@, id@),
{
    let ghost all = name_views(names@);
    let mut n: usize = names.len();
    assert(all.take(n as int) =~= all);
    while n > 0
        invariant
            n <= names@.len(),
            all == name_views(names@),
            name_of(all.take(n as int), instance@, id@) == name_of(all, instance@, id@),
        decreases n,
    {
        assert(all.take(n as int).last() == names@[n - 1]@);
        assert(all.take(n as int).drop_last() =~= all.take(n - 1));
        let entry = &names[n - 1];
        if same(entry.instance_name.as_str(), instance) && same(entry.agent_id.as_str(), id) {
            return entry.name.as_str();
        }
        n = n - 1;
    }
    id
}

// ---------------------------------------------------------------------------
// Costs
// ---------------------------------------------------------------------------

/// The identifier of an agent, or nothing.
pub open spec fn id_or_empty(id: Option<String>) -> Seq<char> {
    value_or(opt_text(id), ""@)
}

/// What an agent has cost, in millionths of a dollar: the sum over its models.
pub open spec fn agent_cost(
    prices: Seq<(Seq<char>, ModelPricing)>,
    rows: Seq<AgentModelRow>,
    instance: Seq<char>,
    id: Seq<char>,
) -> int
    decreases rows.len(),
{
    if rows.len() == 0 {
        0
    } else {
        let row = rows.last();
        agent_cost(prices, rows.drop_last(), instance, id) + if row.instance_name@ == instance
            && id_or_empty(row.agent_id) == id {
            row.counts.cost(prices, opt_text(row.model))
        } else {
            0
        }
    }
}

/// What all models have cost, in millionths of a dollar.
pub open spec fn models_cost(prices: Seq<(Seq<char>, ModelPricing)>, rows: Seq<ModelRow>) -> int
    decreases rows.len(),
{
    if rows.len() == 0 {
        0
    } else {
        models_cost(prices, rows.drop_last()) + rows.last().counts.cost(
            prices,
            opt_text(rows.last().model),
        )
    }
}

fn sum_agent(
    prices: &Vec<PricedModel>,
    rows: &Vec<AgentModelRow>,
    instance: &str,
    id: &str,
) -> (r: i128)
    requires
        rows@.len() <= 0xffff_ffff,
    ensures
        r == agent_cost(model_views(prices@), rows@, instance@, id@),
        r > i128::MIN,
{
    let mut total: i128 = 0;
    let mut i: usize = 0;
    assert(rows@.take(0) =~= Seq::<AgentModelRow>::empty());
    while i < rows.len()
        invariant
            i <= rows@.len() <= 0xffff_ffff,
            total == agent_cost(model_views(prices@), rows@.take(i as int), instance@, id@),
            -(i * cost_bound()) <= total <= i * cost_bound(),
        decreases rows@.len() - i,
    {
        let row = &rows[i];
        proof {
            assert(rows@.take(i + 1).drop_last() =~= rows@.take(i as int));
            assert(rows@.take(i + 1).last() == rows@[i as int]);
            assert((i + 1) * cost_bound() == i * cost_bound() + cost_bound()) by (nonlinear_arith);
            assert(i * cost_bound() <= 0xffff_ffff * cost_bound()) by (nonlinear_arith)
                requires
                    i <= 0xffff_ffff,
            ;
        }
        if same(row.instance_name.as_str(), instance) && same(
            text_or(opt_slice(&row.agent_id), ""),
            id,
        ) {
            total = total + row.counts.estimate(prices, opt_slice(&row.model));
        }
        i = i + 1;
    }
    assert(rows@.take(i as int) =~= rows@);
    proof {
        assert(i * cost_bound() <= 0xffff_ffff * cost_bound()) by (nonlinear_arith)
            requires
                i <= 0xffff_ffff,
        ;
    }
    total
}

fn sum_models(prices: &Vec<PricedModel>, rows: &Vec<ModelRow>) -> (r: i128)
    requires
        rows@.len() <= 0xffff_ffff,
    ensures
        r == models_cost(model_views(prices@), rows@),
        -(0x1_0000_0000 * cost_bound()) <= r <= 0x1_0000_0000 * cost_bound(),
{
    let mut total: i128 = 0;
    let mut i: usize = 0;
    assert(rows@.take(0) =~= Seq::<ModelRow>::empty());
    while i < rows.len()
        invariant
            i <= rows@.len() <= 0xffff_ffff,
            total == models_cost(model_views(prices@), rows@.take(i as int)),
            -(i * cost_bound()) <= total <= i * cost_bound(),
        decreases rows@.len() - i,
    {
        let row = &rows[i];
        proof {
            assert(rows@.take(i + 1).drop_last() =~= rows@.take(i as int));
            assert(rows@.take(i + 1).last() == rows@[i as int]);
            assert((i + 1) * cost_bound() == i * cost_bound() + cost_bound()) by (nonlinear_arith);
            assert(i * cost_bound() <= 0xffff_ffff * cost_bound()) by (nonlinear_arith)
                requires
                    i <= 0xffff_ffff,
            ;
        }
        total = total + row.counts.estimate(prices, opt_slice(&row.model));
        i = i + 1;
    }
    assert(rows@.take(i as int) =~= rows@);
    proof {
        assert(i * cost_bound() <= 0x1_0000_0000 * cost_bound()) by (nonlinear_arith)
            requires
                i <= 0xffff_ffff,
        ;
    }
    total
}

// ---------------------------------------------------------------------------
// Reports
// ---------------------------------------------------------------------------

/// The report on the usage of a model.
pub open spec fn model_report(
    prices: Seq<(Seq<char>, ModelPricing)>,
    row: ModelRow,
) -> JsonView {
    JsonView::Object(
        seq![("model"@, text_or_null(opt_text(row.model)))] + row.counts.entries() + seq![
            ("estimated_cost"@, fixed_value(row.counts.cost(prices, opt_text(row.model)), 6)),
        ],
    )
}

/// The report on the usage of an agent.
pub open spec fn agent_report(
    prices: Seq<(Seq<char>, ModelPricing)>,
    row: AgentRow,
    names: Seq<NameView>,
    rows: Seq<AgentModelRow>,
) -> JsonView {
    let id = id_or_empty(row.agent_id);
    JsonView::Object(
        seq![
            ("instance_name"@, JsonView::Str(row.instance_name@)),
            ("agent_id"@, text_or_null(opt_text(row.agent_id))),
        ] + row.counts.entries() + seq![
            ("agent_name"@, JsonView::Str(name_of(names, row.instance_name@, id))),
            ("estimated_cost"@, fixed_value(agent_cost(prices, rows, row.instance_name@, id), 6)),
        ],
    )
}

/// The report on the totals.
pub open spec fn totals_report(t: Counts) -> JsonView {
    JsonView::Object(
        seq![
            ("total_input"@, int_value(t.input)),
            ("total_output"@, int_value(t.output)),
            ("total_cache_read"@, int_value(t.cache_read)),
            ("total_cache_write"@, int_value(t.cache_write)),
        ],
    )
}

/// The report on all usage. Costs are told in dollars: those of models and agents to
/// the millionth, that of everything to the ten-thousandth.
pub open spec fn summary_report(
    prices: Seq<(Seq<char>, ModelPricing)>,
    s: TokenSummary,
    names: Seq<NameView>,
) -> JsonView {
    JsonView::Object(
        seq![
            ("totals"@, totals_report(s.totals)),
            (
                "by_model"@,
                JsonView::Array(s.by_model@.map_values(|r: ModelRow| model_report(prices, r))),
            ),
            (
                "by_agent"@,
                JsonView::Array(
                    s.by_agent@.map_values(
                        |r: AgentRow| agent_report(prices, r, names, s.by_agent_model@),
                    ),
                ),
            ),
            ("today_total"@, int_value(s.today_total)),
            (
                "total_estimated_cost"@,
                fixed_value(rounded(models_cost(prices, s.by_model@), 100), 4),
            ),
        ],
    )
}

fn report_model(prices: &Vec<PricedModel>, row: &ModelRow) -> (r: Json)
    ensures
        r@ == model_report(model_views(prices@), *row),
{
    let mut f = Fields::new();
    f.put("model", json_opt_text(opt_slice(&row.model)));
    row.counts.put_entries(&mut f);
    let cost = row.counts.estimate(prices, opt_slice(&row.model));
    f.put("estimated_cost", json_fixed_signed(cost, 6));
    assert(f@ =~= model_report(model_views(prices@), *row)->Object_0);
    f.object()
}

fn report_agent(
    prices: &Vec<PricedModel>,
    row: &AgentRow,
    names: &Vec<AgentName>,
    rows: &Vec<AgentModelRow>,
) -> (r: Json)
    requires
        rows@.len() <= 0xffff_ffff,
    ensures
        r@ == agent_report(model_views(prices@), *row, name_views(names@), rows@),
{
    let instance = row.instance_name.as_str();
    let id = text_or(opt_slice(&row.agent_id), "");
    let cost = sum_agent(prices, rows, instance, id);
    let mut f = Fields::new();
    f.put("instance_name", json_text(instance));
    f.put("agent_id", json_opt_text(opt_slice(&row.agent_id)));
    row.counts.put_entries(&mut f);
    f.put("agent_name", json_text(find_name(names, instance, id)));
    f.put("estimated_cost", json_fixed_signed(cost, 6));
    assert(f@ =~= agent_report(model_views(prices@), *row, name_views(names@), rows@)->Object_0);
    f.object()
}

fn report_totals(t: &Counts) -> (r: Json)
    ensures
        r@ == totals_report(*t),
{
    let mut f = Fields::new();
    f.put("total_input", json_int(t.input));
    f.put("total_output", json_int(t.output));
    f.put("total_cache_read", json_int(t.cache_read));
    f.put("total_cache_write", json_int(t.cache_write));
    assert(f@ == totals_report(*t)->Object_0);
    f.object()
}

/// The report on all usage; null where the usage could not be read.
pub fn build_token_summary_payload(
    prices: &Vec<PricedModel>,
    summary: Option<&TokenSummary>,
    names: &Vec<AgentName>,
) -> (r: Json)
    requires
        summary matches Some(s) ==> s.by_model@.len() <= 0xffff_ffff && s.by_agent_model@.len()
            <= 0xffff_ffff,
    ensures
        r@ == match summary {
            Some(s) => summary_report(model_views(prices@), *s, name_views(names@)),
            None => JsonView::Null,
        },
{
    let s = match summary {
        Some(s) => s,
        None => {
            return Json::Null;
        },
    };
    let ghost models_goal = s.by_model@.map_values(|r: ModelRow| model_report(model_views(prices@), r));
    let ghost agents_goal = s.by_agent@.map_values(
        |r: AgentRow|
            agent_report(model_views(prices@), r, name_views(names@), s.by_agent_model@),
    );
    let mut models: Vec<Json> = Vec::new();
    let mut i: usize = 0;
    while i < s.by_model.len()
        invariant
            i <= s.by_model@.len(),
            models_goal == s.by_model@.map_values(|r: ModelRow| model_report(model_views(prices@), r)),
            models@.len() == i,
            forall|k: int| 0 <= k < i ==> (#[trigger] models@[k])@ == models_goal[k],
        decreases s.by_model@.len() - i,
    {
        models.push(report_model(prices, &s.by_model[i]));
        i = i + 1;
    }
    assert(json_views(models@) =~= models_goal);
    let mut agents: Vec<Json> = Vec::new();
    let mut k: usize = 0;
    while k < s.by_agent.len()
        invariant
            k <= s.by_agent@.len(),
            s.by_agent_model@.len() <= 0xffff_ffff,
            agents_goal == s.by_agent@.map_values(
                |r: AgentRow|
            agent_report(model_views(prices@), r, name_views(names@), s.by_agent_model@),
            ),
            agents@.len() == k,
            forall|j: int| 0 <= j < k ==> (#[trigger] agents@[j])@ == agents_goal[j],
        decreases s.by_agent@.len() - k,
    {
        agents.push(report_agent(prices, &s.by_agent[k], names, &s.by_agent_model));
        k = k + 1;
    }
    assert(json_views(agents@) =~= agents_goal);
    let total = sum_models(prices, &s.by_model);
    let shown: i128 = if total >= 0 {
        (total + 50) / 100
    } else {
        -((-total + 50) / 100)
    };
    let mut f = Fields::new();
    f.put("totals", report_totals(&s.totals));
    f.put("by_model", json_array(models));
    f.put("by_agent", json_array(agents));
    f.put("today_total", json_int(s.today_total));
    f.put("total_estimated_cost", json_fixed_signed(shown, 4));
    assert(f@ == summary_report(model_views(prices@), *s, name_views(names@))->Object_0);
    f.object()
}

/// The report on the usage of a day. As its models are not known, its cost is that of
/// tokens of an unknown model: nothing.
pub open spec fn day_report(row: DayRow) -> JsonView {
    JsonView::Object(
        seq![("date"@, JsonView::Str(row.date@))] + row.counts.entries() + seq![
            ("estimated_cost"@, fixed_value(0, 6)),
        ],
    )
}

/// The report on the usage of days.
pub open spec fn trend_report(rows: Seq<DayRow>, days: i64) -> JsonView {
    JsonView::Object(
        seq![
            ("trend"@, JsonView::Array(rows.map_values(|r: DayRow| day_report(r)))),
            ("days"@, int_value(days)),
        ],
    )
}

/// The report on the usage of days.
pub fn build_trend_payload(rows: &Vec<DayRow>, days: i64) -> (r: Json)
    ensures
        r@ == trend_report(rows@, days),
{
    let ghost goal = rows@.map_values(|r: DayRow| day_report(r));
    let mut out: Vec<Json> = Vec::new();
    let mut i: usize = 0;
    while i < rows.len()
        invariant
            i <= rows@.len(),
            goal == rows@.map_values(|r: DayRow| day_report(r)),
            out@.len() == i,
            forall|k: int| 0 <= k < i ==> (#[trigger] out@[k])@ == goal[k],
        decreases rows@.len() - i,
    {
        let row = &rows[i];
        let mut f = Fields::new();
        f.put("date", json_text(row.date.as_str()));
        row.counts.put_entries(&mut f);
        f.put("estimated_cost", json_fixed(0, 6));
        assert(f@ =~= day_report(*row)->Object_0);
        out.push(f.object());
        i = i + 1;
    }
    assert(json_views(out@) =~= goal);
    let mut f = Fields::new();
    f.put("trend", json_array(out));
    f.put("days", json_int(days));
    assert(f@ == trend_report(rows@, days)->Object_0);
    f.object()
}

/// The report on the usage of an agent in an hour of the day.
pub open spec fn heat_report(row: HeatRow, names: Seq<NameView>) -> JsonView {
    JsonView::Object(
        seq![
            ("instance_name"@, JsonView::Str(row.instance_name@)),
            ("agent_id"@, text_or_null(opt_text(row.agent_id))),
            ("hour"@, int_value(row.hour as i64)),
            ("total_tokens"@, int_value(row.total_tokens)),
            ("event_count"@, int_value(row.event_count)),
            ("active_days"@, int_value(row.active_days)),
            (
                "agent_name"@,
                JsonView::Str(name_of(names, row.instance_name@, id_or_empty(row.agent_id))),
            ),
        ],
    )
}

/// The hours of a day.
pub open spec fn hours_of_day() -> Seq<JsonView> {
    Seq::new(24, |i: int| int_value(i as i64))
}

/// The heat map of agents.
pub open spec fn heatmap_report(
    range_key: Seq<char>,
    rows: Seq<HeatRow>,
    names: Seq<NameView>,
) -> JsonView {
    JsonView::Object(
        seq![
            ("range"@, JsonView::Str(range_key)),
            ("timezone"@, JsonView::Str("Asia/Shanghai"@)),
            ("hours"@, JsonView::Array(hours_of_day())),
            ("rows"@, JsonView::Array(rows.map_values(|r: HeatRow| heat_report(r, names)))),
        ],
    )
}

/// The heat map of agents.
pub fn build_agent_heatmap_payload(
    range_key: &str,
    rows: &Vec<HeatRow>,
    names: &Vec<AgentName>,
) -> (r: Json)
    ensures
        r@ == heatmap_report(range_key@, rows@, name_views(names@)),
{
    let ghost all_names = name_views(names@);
    let ghost goal = rows@.map_values(|r: HeatRow| heat_report(r, all_names));
    let mut out: Vec<Json> = Vec::new();
    let mut i: usize = 0;
    while i < rows.len()
        invariant
            i <= rows@.len(),
            all_names == name_views(names@),
            goal == rows@.map_values(|r: HeatRow| heat_report(r, all_names)),
            out@.len() == i,
            forall|k: int| 0 <= k < i ==> (#[trigger] out@[k])@ == goal[k],
        decreases rows@.len() - i,
    {
        let row = &rows[i];
        let id = text_or(opt_slice(&row.agent_id), "");
        let mut f = Fields::new();
        f.put("instance_name", json_text(row.instance_name.as_str()));
        f.put("agent_id", json_opt_text(opt_slice(&row.agent_id)));
        f.put("hour", json_int(row.hour as i64));
        f.put("total_tokens", json_int(row.total_tokens));
        f.put("event_count", json_int(row.event_count));
        f.put("active_days", json_int(row.active_days));
        f.put("agent_name", json_text(find_name(names, row.instance_name.as_str(), id)));
        assert(f@ == heat_report(*row, all_names)->Object_0);
        out.push(f.object());
        i = i + 1;
    }
    assert(json_views(out@) =~= goal);
    let mut hours: Vec<Json> = Vec::new();
    let mut h: usize = 0;
    while h < 24
        invariant
            h <= 24,
            hours@.len() == h,
            forall|k: int| 0 <= k < h ==> (#[trigger] hours@[k])@ == int_value(k as i64),
        decreases 24 - h,
    {
        hours.push(json_int(h as i64));
        h = h + 1;
    }
    assert(json_views(hours@) =~= hours_of_day());
    let mut f = Fields::new();
    f.put("range", json_text(range_key));
    f.put("timezone", json_text("Asia/Shanghai"));
    f.put("hours", json_array(hours));
    f.put("rows", json_array(out));
    assert(f@ == heatmap_report(range_key@, rows@, all_names)->Object_0);
    f.object()
}

// ---------------------------------------------------------------------------
// Requests
// ---------------------------------------------------------------------------

/// A request for the usage of the last days.
pub struct TrendQuery {
    pub days: i64,
}

/// The days of a request that names none.
pub fn default_days() -> (r: i64)
    ensures
        r == 7,
{
    7
}

/// The nearest number between two others.
pub open spec fn clamped(n: int, low: int, high: int) -> int {
    if n < low {
        low
    } else if n > high {
        high
    } else {
        n
    }
}

impl TrendQuery {
    /// The days that are shown: at least one, and at most 90.
    pub fn shown_days(&self) -> (r: i64)
        ensures
            r == clamped(self.days as int, 1, 90),
    {
        if self.days < 1 {
            1
        } else if self.days > 90 {
            90
        } else {
            self.days
        }
    }
}

/// A request for the heat map.
pub struct HeatmapQuery {
    pub range_key: String,
}

/// The range of a request that names none.
pub fn default_range() -> (r: String)
    ensures
        r@ == "today"@,
{
    "today".to_owned()
}

impl HeatmapQuery {
    /// The range that is shown: one of those that are known, and otherwise the current
    /// day.
    pub fn shown_range(&self) -> (r: &str)
        ensures
            r@ == if self.range_key@ == "7d"@ || self.range_key@ == "14d"@ {
                self.range_key@
            } else {
                "today"@
            },
    {
        if same(self.range_key.as_str(), "7d") || same(self.range_key.as_str(), "14d") {
            self.range_key.as_str()
        } else {
            "today"
        }
    }
}

// ---------------------------------------------------------------------------
// Laws
// ---------------------------------------------------------------------------

/// The cost of an agent does not change by usage of other agents, and grows by the
/// cost of its own.
pub proof fn law_cost_adds_up(
    prices: Seq<(Seq<char>, ModelPricing)>,
    rows: Seq<AgentModelRow>,
    row: AgentModelRow,
    instance: Seq<char>,
    id: Seq<char>,
)
    ensures
        agent_cost(prices, rows.push(row), instance, id) == agent_cost(prices, rows, instance, id) + if
            row.instance_name@ == instance && id_or_empty(row.agent_id) == id {
            row.counts.cost(prices, opt_text(row.model))
        } else {
            0
        },
{
    assert(rows.push(row).drop_last() =~= rows);
}

/// A name that was given last is the one that is shown, and an agent without a name
/// goes by its identifier.
pub proof fn law_last_name_shown(names: Seq<NameView>, n: NameView, instance: Seq<char>, id: Seq<char>)
    ensures
        name_of(names.push(n), n.instance_name, n.agent_id) == n.name,
        n.instance_name != instance || n.agent_id != id ==> name_of(names.push(n), instance, id)
            == name_of(names, instance, id),
        name_of(Seq::<NameView>::empty(), instance, id) == id,
{
    assert(names.push(n).drop_last() =~= names);
}

/// The report on a model tells its name and its own numbers of tokens; and as its cost
/// what these cost at its prices, to the nearest millionth of a dollar, or nothing where
/// it has no price.
pub proof fn law_model_reported(
    prices: Seq<(Seq<char>, ModelPricing)>,
    row: ModelRow,
    p: ModelPricing,
    cost: int,
)
    ensures
        ({
            let told = model_report(prices, row);
            &&& told.get("model"@) == Some(
                match row.model {
                    Some(m) => JsonView::Str(m@),
                    None => JsonView::Null,
                },
            )
            &&& told.get("input_tokens"@) == Some(int_value(row.counts.input))
            &&& told.get("output_tokens"@) == Some(int_value(row.counts.output))
            &&& told.get("cache_read_tokens"@) == Some(int_value(row.counts.cache_read))
            &&& told.get("cache_write_tokens"@) == Some(int_value(row.counts.cache_write))
            &&& (row.model matches Some(m) && m@.len() > 0 && pricing_of(prices, m@) == Some(p))
                && is_nearest_thousand(cost, row.counts.input * p.input + row.counts.output * p.output + row.counts.cache_read
                * p.cache_read + row.counts.cache_write * p.cache_write) ==> told.get(
                "estimated_cost"@,
            ) == Some(fixed_value(cost, 6))
            &&& (row.model is None || pricing_of(prices, row.model->0@) is None) ==> told.get(
                "estimated_cost"@,
            ) == Some(fixed_value(0, 6))
        }),
{
    let entries = model_report(prices, row)->Object_0;
    reveal_strlit("model");
    assert("model"@.len() == 5);
    reveal_strlit("input_tokens");
    assert("input_tokens"@.len() == 12);
    reveal_strlit("output_tokens");
    assert("output_tokens"@.len() == 13);
    reveal_strlit("cache_read_tokens");
    assert("cache_read_tokens"@.len() == 17);
    reveal_strlit("cache_write_tokens");
    assert("cache_write_tokens"@.len() == 18);
    reveal_strlit("estimated_cost");
    assert("estimated_cost"@.len() == 14);
    lemma_entry_value(entries, "model"@, 0);
    lemma_entry_value(entries, "input_tokens"@, 1);
    lemma_entry_value(entries, "output_tokens"@, 2);
    lemma_entry_value(entries, "cache_read_tokens"@, 3);
    lemma_entry_value(entries, "cache_write_tokens"@, 4);
    lemma_entry_value(entries, "estimated_cost"@, 5);
    if row.model matches Some(m) && m@.len() > 0 && pricing_of(prices, m@) == Some(p) {
        law_cost_by_kind(
            prices,
            row.model->0@,
            p,
            row.counts.input as int,
            row.counts.output as int,
            row.counts.cache_read as int,
            row.counts.cache_write as int,
        );
    }
}

/// What all the rows of a model usage cost together grows with each row by the cost of its
/// tokens of all four kinds; nothing is left out, and no row counts for another.
pub proof fn law_models_cost(
    prices: Seq<(Seq<char>, ModelPricing)>,
    rows: Seq<ModelRow>,
    row: ModelRow,
    p: ModelPricing,
)
    requires
        row.model matches Some(m) && m@.len() > 0 && pricing_of(prices, m@) == Some(p),
    ensures
        models_cost(prices, Seq::empty()) == 0,
        is_nearest_thousand(
            models_cost(prices, rows.push(row)) - models_cost(prices, rows),
            row.counts.input * p.input + row.counts.output * p.output + row.counts.cache_read
                * p.cache_read + row.counts.cache_write * p.cache_write,
        ),
{
    assert(rows.push(row).drop_last() =~= rows);
    law_cost_by_kind(
        prices,
        row.model->0@,
        p,
        row.counts.input as int,
        row.counts.output as int,
        row.counts.cache_read as int,
        row.counts.cache_write as int,
    );
}

/// What an agent has cost grows by the cost of each row of its own, of all four kinds of
/// tokens, and does not change by a row of another agent, or of one of the same name in
/// another instance.
pub proof fn law_agent_cost(
    prices: Seq<(Seq<char>, ModelPricing)>,
    rows: Seq<AgentModelRow>,
    row: AgentModelRow,
    instance: Seq<char>,
    id: Seq<char>,
    p: ModelPricing,
)
    requires
        row.model matches Some(m) && m@.len() > 0 && pricing_of(prices, m@) == Some(p),
        row.agent_id is Some,
    ensures
        agent_cost(prices, Seq::empty(), instance, id) == 0,
        row.instance_name@ == instance && row.agent_id->0@ == id ==> is_nearest_thousand(
            agent_cost(prices, rows.push(row), instance, id) - agent_cost(
                prices,
                rows,
                instance,
                id,
            ),
            row.counts.input * p.input + row.counts.output * p.output + row.counts.cache_read
                * p.cache_read + row.counts.cache_write * p.cache_write,
        ),
        row.instance_name@ != instance || row.agent_id->0@ != id ==> agent_cost(
            prices,
            rows.push(row),
            instance,
            id,
        ) == agent_cost(prices, rows, instance, id),
{
    assert(rows.push(row).drop_last() =~= rows);
    law_cost_by_kind(
        prices,
        row.model->0@,
        p,
        row.counts.input as int,
        row.counts.output as int,
        row.counts.cache_read as int,
        row.counts.cache_write as int,
    );
}

/// The report on an agent tells whose it is, its own numbers of tokens, and what it has
/// cost.
pub proof fn law_agent_reported(
    prices: Seq<(Seq<char>, ModelPricing)>,
    row: AgentRow,
    names: Seq<NameView>,
    rows: Seq<AgentModelRow>,
)
    requires
        row.agent_id is Some,
    ensures
        ({
            let told = agent_report(prices, row, names, rows);
            let id = row.agent_id->0@;
            &&& told.get("instance_name"@) == Some(JsonView::Str(row.instance_name@))
            &&& told.get("agent_id"@) == Some(JsonView::Str(id))
            &&& told.get("input_tokens"@) == Some(int_value(row.counts.input))
            &&& told.get("output_tokens"@) == Some(int_value(row.counts.output))
            &&& told.get("cache_read_tokens"@) == Some(int_value(row.counts.cache_read))
            &&& told.get("cache_write_tokens"@) == Some(int_value(row.counts.cache_write))
            &&& told.get("agent_name"@) == Some(
                JsonView::Str(name_of(names, row.instance_name@, id)),
            )
            &&& told.get("estimated_cost"@) == Some(
                fixed_value(agent_cost(prices, rows, row.instance_name@, id), 6),
            )
        }),
{
    let entries = agent_report(prices, row, names, rows)->Object_0;
    reveal_strlit("instance_name");
    assert("instance_name"@.len() == 13);
    reveal_strlit("agent_id");
    assert("agent_id"@.len() == 8);
    reveal_strlit("input_tokens");
    assert("input_tokens"@.len() == 12);
    reveal_strlit("output_tokens");
    assert("output_tokens"@.len() == 13);
    reveal_strlit("cache_read_tokens");
    assert("cache_read_tokens"@.len() == 17);
    reveal_strlit("cache_write_tokens");
    assert("cache_write_tokens"@.len() == 18);
    reveal_strlit("agent_name");
    assert("agent_name"@.len() == 10);
    reveal_strlit("estimated_cost");
    assert("estimated_cost"@.len() == 14);
    assert("instance_name"@[0] != "output_tokens"@[0]);
    lemma_entry_value(entries, "instance_name"@, 0);
    lemma_entry_value(entries, "agent_id"@, 1);
    lemma_entry_value(entries, "input_tokens"@, 2);
    lemma_entry_value(entries, "output_tokens"@, 3);
    lemma_entry_value(entries, "cache_read_tokens"@, 4);
    lemma_entry_value(entries, "cache_write_tokens"@, 5);
    lemma_entry_value(entries, "agent_name"@, 6);
    lemma_entry_value(entries, "estimated_cost"@, 7);
}

/// The summary holds the totals, one report for each model and each agent in the order of
/// the rows, what was used today, and what all models have cost together, to the nearest
/// ten-thousandth of a dollar.
pub proof fn law_summary(
    prices: Seq<(Seq<char>, ModelPricing)>,
    s: TokenSummary,
    names: Seq<NameView>,
    shown: int,
)
    ensures
        ({
            let told = summary_report(prices, s, names);
            let all = models_cost(prices, s.by_model@);
            &&& told.get("totals"@) matches Some(t) && t.get("total_input"@) == Some(
                int_value(s.totals.input),
            ) && t.get("total_output"@) == Some(int_value(s.totals.output)) && t.get(
                "total_cache_read"@,
            ) == Some(int_value(s.totals.cache_read)) && t.get("total_cache_write"@) == Some(
                int_value(s.totals.cache_write),
            )
            &&& told.get("by_model"@) matches Some(JsonView::Array(models)) && models.len()
                == s.by_model@.len() && forall|i: int|
                0 <= i < models.len() ==> #[trigger] models[i] == model_report(
                    prices,
                    s.by_model@[i],
                )
            &&& told.get("by_agent"@) matches Some(JsonView::Array(agents)) && agents.len()
                == s.by_agent@.len() && forall|i: int|
                0 <= i < agents.len() ==> #[trigger] agents[i] == agent_report(
                    prices,
                    s.by_agent@[i],
                    names,
                    s.by_agent_model@,
                )
            &&& told.get("today_total"@) == Some(int_value(s.today_total))
            &&& (if all >= 0 {
                -50 < 100 * shown - all <= 50
            } else {
                -50 <= 100 * shown - all < 50
            }) ==> told.get("total_estimated_cost"@) == Some(fixed_value(shown, 4))
        }),
{
    let entries = summary_report(prices, s, names)->Object_0;
    let totals = totals_report(s.totals)->Object_0;
    reveal_strlit("totals");
    assert("totals"@.len() == 6);
    reveal_strlit("by_model");
    assert("by_model"@.len() == 8);
    reveal_strlit("by_agent");
    assert("by_agent"@.len() == 8);
    reveal_strlit("today_total");
    assert("today_total"@.len() == 11);
    reveal_strlit("total_estimated_cost");
    assert("total_estimated_cost"@.len() == 20);
    reveal_strlit("total_input");
    assert("total_input"@.len() == 11);
    reveal_strlit("total_output");
    assert("total_output"@.len() == 12);
    reveal_strlit("total_cache_read");
    assert("total_cache_read"@.len() == 16);
    reveal_strlit("total_cache_write");
    assert("total_cache_write"@.len() == 17);
    assert("by_model"@[3] != "by_agent"@[3]);
    lemma_entry_value(entries, "totals"@, 0);
    lemma_entry_value(entries, "by_model"@, 1);
    lemma_entry_value(entries, "by_agent"@, 2);
    lemma_entry_value(entries, "today_total"@, 3);
    lemma_entry_value(entries, "total_estimated_cost"@, 4);
    lemma_entry_value(totals, "total_input"@, 0);
    lemma_entry_value(totals, "total_output"@, 1);
    lemma_entry_value(totals, "total_cache_read"@, 2);
    lemma_entry_value(totals, "total_cache_write"@, 3);
}

/// The report on a day tells its date and its own numbers of tokens.
pub proof fn law_day_reported(row: DayRow)
    ensures
        ({
            let told = day_report(row);
            &&& told.get("date"@) == Some(JsonView::Str(row.date@))
            &&& told.get("input_tokens"@) == Some(int_value(row.counts.input))
            &&& told.get("output_tokens"@) == Some(int_value(row.counts.output))
            &&& told.get("cache_read_tokens"@) == Some(int_value(row.counts.cache_read))
            &&& told.get("cache_write_tokens"@) == Some(int_value(row.counts.cache_write))
            &&& told.get("estimated_cost"@) == Some(fixed_value(0, 6))
        }),
{
    let entries = day_report(row)->Object_0;
    reveal_strlit("date");
    assert("date"@.len() == 4);
    reveal_strlit("input_tokens");
    assert("input_tokens"@.len() == 12);
    reveal_strlit("output_tokens");
    assert("output_tokens"@.len() == 13);
    reveal_strlit("cache_read_tokens");
    assert("cache_read_tokens"@.len() == 17);
    reveal_strlit("cache_write_tokens");
    assert("cache_write_tokens"@.len() == 18);
    reveal_strlit("estimated_cost");
    assert("estimated_cost"@.len() == 14);
    lemma_entry_value(entries, "date"@, 0);
    lemma_entry_value(entries, "input_tokens"@, 1);
    lemma_entry_value(entries, "output_tokens"@, 2);
    lemma_entry_value(entries, "cache_read_tokens"@, 3);
    lemma_entry_value(entries, "cache_write_tokens"@, 4);
    lemma_entry_value(entries, "estimated_cost"@, 5);
}

/// The heat map tells its range and the hours of a day, and of each row whose it is, the hour,
/// and its own numbers.
pub proof fn law_heatmap_told(range_key: Seq<char>, rows: Seq<HeatRow>, names: Seq<NameView>, i: int)
    ensures
        ({
            let told = heatmap_report(range_key, rows, names);
            &&& told.get("range"@) == Some(JsonView::Str(range_key))
            &&& told.get("timezone"@) == Some(JsonView::Str("Asia/Shanghai"@))
            &&& told.get("hours"@) matches Some(JsonView::Array(h)) && h.len() == 24 && (0 <= i < 24
                ==> h[i] == int_value(i as i64))
            &&& told.get("rows"@) matches Some(JsonView::Array(all)) && all.len() == rows.len() && (0
                <= i < rows.len() ==> all[i].get("instance_name"@) == Some(
                JsonView::Str(rows[i].instance_name@),
            ) && all[i].get("hour"@) == Some(int_value(rows[i].hour as i64)) && all[i].get(
                "total_tokens"@,
            ) == Some(int_value(rows[i].total_tokens)) && all[i].get("event_count"@) == Some(
                int_value(rows[i].event_count),
            ) && all[i].get("active_days"@) == Some(int_value(rows[i].active_days)) && (
            rows[i].agent_id matches Some(id) ==> all[i].get("agent_id"@) == Some(
                JsonView::Str(id@),
            ) && all[i].get("agent_name"@) == Some(
                JsonView::Str(name_of(names, rows[i].instance_name@, id@)),
            )))
        }),
{
    let entries = heatmap_report(range_key, rows, names)->Object_0;
    reveal_strlit("range");
    assert("range"@.len() == 5);
    reveal_strlit("timezone");
    assert("timezone"@.len() == 8);
    reveal_strlit("hours");
    assert("hours"@.len() == 5);
    reveal_strlit("rows");
    assert("rows"@.len() == 4);
    reveal_strlit("instance_name");
    assert("instance_name"@.len() == 13);
    reveal_strlit("agent_id");
    assert("agent_id"@.len() == 8);
    reveal_strlit("hour");
    assert("hour"@.len() == 4);
    reveal_strlit("total_tokens");
    assert("total_tokens"@.len() == 12);
    reveal_strlit("event_count");
    assert("event_count"@.len() == 11);
    reveal_strlit("active_days");
    assert("active_days"@.len() == 11);
    reveal_strlit("agent_name");
    assert("agent_name"@.len() == 10);
    assert("range"@[0] != "hours"@[0]);
    lemma_entry_value(entries, "range"@, 0);
    lemma_entry_value(entries, "timezone"@, 1);
    lemma_entry_value(entries, "hours"@, 2);
    lemma_entry_value(entries, "rows"@, 3);
    if 0 <= i < rows.len() {
        let row = heat_report(rows[i], names)->Object_0;
        assert("event_count"@[0] != "active_days"@[0]);
        lemma_entry_value(row, "instance_name"@, 0);
        lemma_entry_value(row, "agent_id"@, 1);
        lemma_entry_value(row, "hour"@, 2);
        lemma_entry_value(row, "total_tokens"@, 3);
        lemma_entry_value(row, "event_count"@, 4);
        lemma_entry_value(row, "active_days"@, 5);
        lemma_entry_value(row, "agent_name"@, 6);
    }
}

/// The trend shows one report for each day, in the order of the rows, and for how many days it
/// was asked; one day at least is shown, and ninety at most, and seven where none is named.
pub proof fn law_trend_told(
    rows: Seq<DayRow>,
    days: i64,
    i: int,
    q: &TrendQuery,
    shown: i64,
    usual: i64,
)
    requires
        call_ensures(TrendQuery::shown_days, (q,), shown),
        call_ensures(default_days, (), usual),
    ensures
        trend_report(rows, days).get("days"@) == Some(int_value(days)),
        trend_report(rows, days).get("trend"@) matches Some(JsonView::Array(all)) && all.len()
            == rows.len() && (0 <= i < rows.len() ==> all[i] == day_report(rows[i])),
        1 <= shown <= 90,
        1 <= q.days <= 90 ==> shown == q.days,
        q.days < 1 ==> shown == 1,
        q.days > 90 ==> shown == 90,
        usual == 7,
{
    let entries = trend_report(rows, days)->Object_0;
    reveal_strlit("trend");
    assert("trend"@.len() == 5);
    reveal_strlit("days");
    assert("days"@.len() == 4);
    lemma_entry_value(entries, "trend"@, 0);
    lemma_entry_value(entries, "days"@, 1);
}

/// The ranges that can be asked for are a week, two weeks and the current day; what is none of
/// them counts as the current day.
pub proof fn law_range_shown(q: &HeatmapQuery, shown: &str, usual: String)
    requires
        call_ensures(HeatmapQuery::shown_range, (q,), shown),
        call_ensures(default_range, (), usual),
    ensures
        q.range_key@ == "7d"@ || q.range_key@ == "14d"@ ==> shown@ == q.range_key@,
        q.range_key@ != "7d"@ && q.range_key@ != "14d"@ ==> shown@ == "today"@,
        usual@ == "today"@,
{
}

/// The name of an agent is the one that the report on its instance gives it.
pub proof fn law_names_read(infos: Seq<JsonView>, info: JsonView, agents: Seq<JsonView>, agent: JsonView,
    instance: Seq<char>, id: Seq<char>, name: Seq<char>)
    requires
        info.get("name"@) == Some(JsonView::Str(instance)),
        info.get("agents"@) == Some(JsonView::Array(agents.push(agent))),
        agent.get("id"@) == Some(JsonView::Str(id)),
        agent.get("name"@) == Some(JsonView::Str(name)),
        instance.len() > 0,
        id.len() > 0,
    ensures
        name_of(names_in_infos(infos.push(info)), instance, id) == name,
{
    assert(infos.push(info).drop_last() =~= infos);
    assert(agents.push(agent).drop_last() =~= agents);
    let mine = names_in_info(info);
    assert(mine.last().name == name);
    let all = names_in_infos(infos.push(info));
    assert(all.last() == mine.last());
}

} // verus!
