//! What the configuration file of an instance tells of its agents, channels,
//! bindings and scheduled jobs.

use vstd::prelude::*;
use vstd::string::*;

use crate::config::InstanceConfig;
use crate::cron::{
    enabled_count, job_views, jobs_of, jobs_of_agent, read_cron_jobs, reports, CronJob, CronJobView,
};
use crate::json::{
    at, either, empty_object, first_text, int_or_null, json_array, json_nat, json_opt, json_opt_int,
    json_opt_text, json_text, json_texts, json_views, lemma_entry_value, lemma_no_entry, nat_value,
    opt_json_view, opt_ref_view, opt_slice, opt_str_view, opt_text, parse_json, parsed_json, str_in,
    text_array, text_in, text_or, text_or_null, value_at, value_or, value_or_null, Fields, Json,
    JsonView,
};
use crate::paths::{
    file_name, file_name_of, join_path, joined_path, shell_home_expanded, shellexpand_home,
};
use crate::seqs::{distinct, find_last, last_index, law_distinct, law_last_index, push_distinct};
use crate::store::KeyedStore;
use crate::text::{begins_with, join, joined, lines, same, split_lines, texts, trim, trimmed};

verus! {

// ---------------------------------------------------------------------------
// Soul files
// ---------------------------------------------------------------------------

/// The files that can describe the agent of a workspace, in the order in which they
/// are looked for.
pub open spec fn soul_paths(workspace: Option<Seq<char>>, home: Option<Seq<char>>) -> Seq<Seq<char>> {
    match workspace {
        Some(ws) => {
            let base = shell_home_expanded(ws, home);
            seq![joined_path(base, "SOUL.md"@), joined_path(base, "soul.md"@)]
        },
        None => Seq::empty(),
    }
}

/// The files that can describe the agent of a workspace.
pub fn soul_candidates(workspace: Option<&str>, home: Option<&str>) -> (r: Vec<String>)
    ensures
        texts(r@) == soul_paths(opt_str_view(workspace), opt_str_view(home)),
{
    let mut out: Vec<String> = Vec::new();
    match workspace {
        Some(ws) => {
            let base = shellexpand_home(ws, home);
            out.push(join_path(base.as_str(), "SOUL.md"));
            out.push(join_path(base.as_str(), "soul.md"));
        },
        None => {},
    }
    assert(texts(out@) =~= soul_paths(opt_str_view(workspace), opt_str_view(home)));
    out
}

/// The first of the files that is there.
pub open spec fn first_present(candidates: Seq<Seq<char>>, present: Seq<bool>) -> Option<Seq<char>>
    decreases candidates.len(),
{
    if candidates.len() == 0 || present.len() == 0 {
        None
    } else if present[0] {
        Some(candidates[0])
    } else {
        first_present(candidates.drop_first(), present.drop_first())
    }
}

/// The file that describes an agent: the first of the candidates that is there.
pub fn resolve_soul_file(candidates: &Vec<String>, present: &Vec<bool>) -> (r: Option<String>)
    ensures
        opt_text(r) == first_present(texts(candidates@), present@),
{
    let ghost c = texts(candidates@);
    let mut i: usize = 0;
    assert(c.skip(0) =~= c);
    assert(present@.skip(0) =~= present@);
    while i < candidates.len() && i < present.len()
        invariant
            i <= candidates@.len(),
            i <= present@.len(),
            c == texts(candidates@),
            first_present(c.skip(i as int), present@.skip(i as int)) == first_present(c, present@),
        decreases candidates@.len() - i,
    {
        assert(c.skip(i as int)[0] == candidates@[i as int]@);
        assert(c.skip(i as int).drop_first() =~= c.skip(i + 1));
        assert(present@.skip(i as int).drop_first() =~= present@.skip(i + 1));
        if present[i] {
            return Some(candidates[i].clone());
        }
        i = i + 1;
    }
    None
}

/// What came of reading the file that describes an agent.
pub enum SoulFile {
    /// There is no such file.
    Missing,
    /// The file could not be read.
    Unreadable { path: String, error: String },
    /// The file was read; `updated_at` is its time of change, a JSON number of
    /// seconds, or null.
    Read { path: String, content: String, updated_at: Json },
}

/// The lines that hold more than white space, without the white space around them.
pub open spec fn filled_lines(content: Seq<char>) -> Seq<Seq<char>> {
    lines(content).map_values(|l: Seq<char>| trimmed(l)).filter(|l: Seq<char>| l.len() > 0)
}

/// The first filled line, or nothing.
pub open spec fn soul_title(content: Seq<char>) -> Seq<char> {
    if filled_lines(content).len() > 0 {
        filled_lines(content)[0]
    } else {
        Seq::empty()
    }
}

/// The first eight filled lines.
pub open spec fn soul_preview(content: Seq<char>) -> Seq<char> {
    let all = filled_lines(content);
    joined(
        if all.len() > 8 {
            all.take(8)
        } else {
            all
        },
        "\n"@,
    )
}

/// The report on the file that describes an agent.
pub open spec fn soul_view(soul: SoulFile) -> JsonView {
    match soul {
        SoulFile::Missing => JsonView::Object(
            seq![
                ("exists"@, JsonView::Bool(false)),
                ("path"@, JsonView::Null),
                ("title"@, JsonView::Null),
                ("content"@, JsonView::Null),
                ("preview"@, JsonView::Null),
                ("updated_at"@, JsonView::Null),
            ],
        ),
        SoulFile::Unreadable { path, error } => JsonView::Object(
            seq![
                ("exists"@, JsonView::Bool(false)),
                ("path"@, JsonView::Str(path@)),
                ("title"@, text_or_null(file_name_of(path@))),
                ("content"@, JsonView::Null),
                ("preview"@, JsonView::Null),
                ("updated_at"@, JsonView::Null),
                ("error"@, JsonView::Str(error@)),
            ],
        ),
        SoulFile::Read { path, content, updated_at } => JsonView::Object(
            seq![
                ("exists"@, JsonView::Bool(true)),
                ("path"@, JsonView::Str(path@)),
                ("title"@, JsonView::Str(soul_title(content@))),
                ("content"@, JsonView::Str(content@)),
                ("preview"@, JsonView::Str(soul_preview(content@))),
                ("updated_at"@, updated_at@),
            ],
        ),
    }
}

fn trimmed_lines(content: &str) -> (r: Vec<String>)
    ensures
        texts(r@) == filled_lines(content@),
{
    let all = split_lines(content);
    let ghost t = lines(content@).map_values(|l: Seq<char>| trimmed(l));
    let mut out: Vec<String> = Vec::new();
    let mut i: usize = 0;
    proof {
        reveal(Seq::filter);
        assert(t.take(0) =~= Seq::<Seq<char>>::empty());
        assert(texts(out@) =~= Seq::<Seq<char>>::empty());
    }
    while i < all.len()
        invariant
            i <= all@.len(),
            texts(all@) == lines(content@),
            t == lines(content@).map_values(|l: Seq<char>| trimmed(l)),
            texts(out@) == t.take(i as int).filter(|l: Seq<char>| l.len() > 0),
        decreases all@.len() - i,
    {
        let line = trim(all[i].as_str());
        let ghost before = texts(out@);
        proof {
            reveal(Seq::filter);
            assert(t.len() == all@.len());
            assert(texts(all@)[i as int] == all@[i as int]@);
            assert(t.take(i + 1).drop_last() =~= t.take(i as int));
            assert(t.take(i + 1).last() == line@);
        }
        if line.unicode_len() > 0 {
            out.push(line.to_owned());
            assert(texts(out@) =~= before.push(line@));
        }
        i = i + 1;
    }
    assert(t.take(i as int) =~= t);
    out
}

/// The report on the file that describes an agent.
pub fn read_soul_file(soul: &SoulFile) -> (r: Json)
    ensures
        r@ == soul_view(*soul),
{
    let mut fields = Fields::new();
    match soul {
        SoulFile::Missing => {
            fields.put("exists", Json::Bool(false));
            fields.put("path", Json::Null);
            fields.put("title", Json::Null);
            fields.put("content", Json::Null);
            fields.put("preview", Json::Null);
            fields.put("updated_at", Json::Null);
        },
        SoulFile::Unreadable { path, error } => {
            fields.put("exists", Json::Bool(false));
            fields.put("path", json_text(path.as_str()));
            fields.put("title", json_opt_text(opt_slice(&file_name(path.as_str()))));
            fields.put("content", Json::Null);
            fields.put("preview", Json::Null);
            fields.put("updated_at", Json::Null);
            fields.put("error", json_text(error.as_str()));
        },
        SoulFile::Read { path, content, updated_at } => {
            let filled = trimmed_lines(content.as_str());
            let mut head: Vec<String> = Vec::new();
            let mut i: usize = 0;
            while i < filled.len() && i < 8
                invariant
                    i <= filled@.len(),
                    i <= 8,
                    texts(head@) == texts(filled@).take(i as int),
                decreases 8 - i,
            {
                let ghost before = texts(head@);
                head.push(filled[i].clone());
                assert(texts(head@) =~= before.push(filled@[i as int]@));
                assert(texts(filled@).take(i + 1) =~= texts(filled@).take(i as int).push(
                    filled@[i as int]@,
                ));
                i = i + 1;
            }
            let title = if filled.len() > 0 {
                filled[0].clone()
            } else {
                String::new()
            };
            proof {
                let all = filled_lines(content@);
                assert(all == texts(filled@));
                if all.len() > 0 {
                    assert(texts(filled@)[0] == filled@[0]@);
                }
                if all.len() <= 8 {
                    assert(all.take(all.len() as int) =~= all);
                }
            }
            fields.put("exists", Json::Bool(true));
            fields.put("path", json_text(path.as_str()));
            fields.put("title", Json::Str(title));
            fields.put("content", json_text(content.as_str()));
            fields.put("preview", Json::Str(join(&head, "\n")));
            fields.put("updated_at", updated_at.copy());
        },
    }
    assert(fields@ == soul_view(*soul)->Object_0);
    fields.object()
}

// ---------------------------------------------------------------------------
// Agents
// ---------------------------------------------------------------------------

/// The section on agents.
pub open spec fn agents_section(data: JsonView) -> JsonView {
    value_or(data.get("agents"@), empty_object())
}

/// The workspace of agents that name none.
pub open spec fn default_workspace(data: JsonView) -> Option<Seq<char>> {
    text_in(value_at(agents_section(data).get("defaults"@), "workspace"@))
}

/// The model of agents that name none.
pub open spec fn default_model(data: JsonView) -> Seq<char> {
    value_or(
        text_in(value_at(value_at(agents_section(data).get("defaults"@), "model"@), "primary"@)),
        "unknown"@,
    )
}

/// The agents: the elements of the list that are objects.
pub open spec fn listed_agents(data: JsonView) -> Seq<JsonView> {
    match agents_section(data).array_at("list"@) {
        Some(items) => items.filter(|v: JsonView| v.is_object()),
        None => Seq::empty(),
    }
}

/// The workspace of an agent.
pub open spec fn agent_workspace(agent: JsonView, data: JsonView) -> Option<Seq<char>> {
    either(agent.str_at("workspace"@), default_workspace(data))
}

/// The identifier of an agent.
pub open spec fn agent_id(agent: JsonView) -> Seq<char> {
    value_or(agent.str_at("id"@), "unknown"@)
}

/// The model of an agent: its own, else that of its parameters, else the default.
pub open spec fn agent_model(agent: JsonView, data: JsonView) -> Seq<char> {
    value_or(
        either(
            text_in(agent.get_in("model"@, "primary"@)),
            text_in(value_at(agent.get_in("params"@, "model"@), "primary"@)),
        ),
        default_model(data),
    )
}

fn section_value<'a>(data: &'a Json, key: &str) -> (r: Option<&'a Json>)
    ensures
        opt_ref_view(r) == agents_section(data@).get(key@),
{
    at(data.get("agents"), key)
}

fn workspace_default(data: &Json) -> (r: Option<&str>)
    ensures
        opt_str_view(r) == default_workspace(data@),
{
    str_in(at(section_value(data, "defaults"), "workspace"))
}

fn model_default(data: &Json) -> (r: &str)
    ensures
        r@ == default_model(data@),
{
    text_or(str_in(at(at(section_value(data, "defaults"), "model"), "primary")), "unknown")
}

/// The values that a sequence of references stands for.
pub open spec fn ref_views(items: Seq<&Json>) -> Seq<JsonView> {
    items.map_values(|j: &Json| j@)
}

/// The elements that are objects.
fn objects_of(items: &Vec<Json>) -> (r: Vec<&Json>)
    ensures
        ref_views(r@) == json_views(items@).filter(|v: JsonView| v.is_object()),
{
    let ghost all = json_views(items@);
    let mut out: Vec<&Json> = Vec::new();
    let mut i: usize = 0;
    proof {
        reveal(Seq::filter);
        assert(all.take(0) =~= Seq::<JsonView>::empty());
        assert(ref_views(out@) =~= Seq::<JsonView>::empty());
    }
    while i < items.len()
        invariant
            i <= items@.len(),
            all == json_views(items@),
            ref_views(out@) == all.take(i as int).filter(|v: JsonView| v.is_object()),
        decreases items@.len() - i,
    {
        let ghost before = ref_views(out@);
        proof {
            reveal(Seq::filter);
            assert(all.take(i + 1).drop_last() =~= all.take(i as int));
            assert(all.take(i + 1).last() == items@[i as int]@);
        }
        if items[i].is_object() {
            out.push(&items[i]);
            assert(ref_views(out@) =~= before.push(items@[i as int]@));
        }
        i = i + 1;
    }
    assert(all.take(i as int) =~= all);
    out
}

fn agent_list(data: &Json) -> (r: Vec<&Json>)
    ensures
        ref_views(r@) == listed_agents(data@),
{
    let listed = match data.get("agents") {
        Some(section) => section.array_at("list"),
        None => None,
    };
    match listed {
        Some(items) => objects_of(items),
        None => {
            let out: Vec<&Json> = Vec::new();
            assert(ref_views(out@) =~= Seq::<JsonView>::empty());
            out
        },
    }
}

/// An agent, with the files that can describe it.
pub struct SoulRequest {
    pub agent_id: String,
    pub candidates: Vec<String>,
}

/// Whether these are the files that can describe an agent.
pub open spec fn asks_for(
    request: SoulRequest,
    agent: JsonView,
    data: JsonView,
    home: Option<Seq<char>>,
) -> bool {
    &&& request.agent_id@ == value_or(agent.str_at("id"@), ""@)
    &&& texts(request.candidates@) == soul_paths(agent_workspace(agent, data), home)
}

/// The agents in their order, each with the files that can describe it.
pub fn soul_requests(data: &Json, home: Option<&str>) -> (r: Vec<SoulRequest>)
    ensures
        r@.len() == listed_agents(data@).len(),
        forall|i: int|
            0 <= i < r@.len() ==> asks_for(
                #[trigger] r@[i],
                listed_agents(data@)[i],
                data@,
                opt_str_view(home),
            ),
{
    let agents = agent_list(data);
    let ghost all = listed_agents(data@);
    let fallback = workspace_default(data);
    let mut out: Vec<SoulRequest> = Vec::new();
    let mut i: usize = 0;
    while i < agents.len()
        invariant
            i <= agents@.len(),
            all == ref_views(agents@),
            opt_str_view(fallback) == default_workspace(data@),
            out@.len() == i,
            forall|k: int|
                0 <= k < i ==> asks_for(#[trigger] out@[k], all[k], data@, opt_str_view(home)),
        decreases agents@.len() - i,
    {
        assert(all[i as int] == agents@[i as int]@);
        let ws = first_text(agents[i].str_at("workspace"), fallback);
        out.push(
            SoulRequest {
                agent_id: text_or(agents[i].str_at("id"), "").to_owned(),
                candidates: soul_candidates(ws, home),
            },
        );
        i = i + 1;
    }
    out
}

// ---------------------------------------------------------------------------
// Bindings
// ---------------------------------------------------------------------------

/// A binding of an agent to a channel.
pub struct Binding {
    pub agent_id: String,
    pub channel: String,
    pub account_id: Json,
}

/// What a [`Binding`] stands for.
pub struct BindingView {
    pub agent_id: Seq<char>,
    pub channel: Seq<char>,
    pub account_id: JsonView,
}

impl View for Binding {
    type V = BindingView;

    open spec fn view(&self) -> BindingView {
        BindingView {
            agent_id: self.agent_id@,
            channel: self.channel@,
            account_id: self.account_id@,
        }
    }
}

/// The bindings that a sequence of [`Binding`] stands for.
pub open spec fn binding_views(bindings: Seq<Binding>) -> Seq<BindingView> {
    bindings.map_values(|b: Binding| b@)
}

/// The binding that a value writes: an object with an agent, and an object that
/// tells the channel.
pub open spec fn binding_of(value: JsonView) -> Option<BindingView> {
    match (value.str_at("agentId"@), text_in(value.get_in("match"@, "channel"@))) {
        (Some(agent_id), Some(channel)) => Some(
            BindingView {
                agent_id,
                channel,
                account_id: value_or_null(value.get_in("match"@, "accountId"@)),
            },
        ),
        _ => None,
    }
}

/// The bindings that the values write, in their order.
pub open spec fn bindings_in(items: Seq<JsonView>) -> Seq<BindingView>
    decreases items.len(),
{
    if items.len() == 0 {
        Seq::empty()
    } else {
        let before = bindings_in(items.drop_last());
        match binding_of(items.last()) {
            Some(b) => before.push(b),
            None => before,
        }
    }
}

/// The bindings that the configuration file lists.
pub open spec fn listed_bindings(data: JsonView) -> Seq<BindingView> {
    match data.array_at("bindings"@) {
        Some(items) => bindings_in(items),
        None => Seq::empty(),
    }
}

fn read_bindings(data: &Json) -> (r: Vec<Binding>)
    ensures
        binding_views(r@) == listed_bindings(data@),
{
    let mut out: Vec<Binding> = Vec::new();
    assert(binding_views(out@) =~= Seq::<BindingView>::empty());
    match data.array_at("bindings") {
        Some(items) => {
            let ghost all = json_views(items@);
            let mut i: usize = 0;
            assert(all.take(0) =~= Seq::<JsonView>::empty());
            while i < items.len()
                invariant
                    i <= items@.len(),
                    all == json_views(items@),
                    binding_views(out@) == bindings_in(all.take(i as int)),
                decreases items@.len() - i,
            {
                let ghost before = binding_views(out@);
                proof {
                    assert(all.take(i + 1).drop_last() =~= all.take(i as int));
                    assert(all.take(i + 1).last() == items@[i as int]@);
                }
                let item = &items[i];
                match (item.str_at("agentId"), str_in(item.get_in("match", "channel"))) {
                    (Some(agent_id), Some(channel)) => {
                        let b = Binding {
                            agent_id: agent_id.to_owned(),
                            channel: channel.to_owned(),
                            account_id: json_opt(item.get_in("match", "accountId")),
                        };
                        out.push(b);
                        assert(binding_views(out@) =~= before.push(b@));
                    },
                    _ => {},
                }
                i = i + 1;
            }
            assert(all.take(i as int) =~= all);
        },
        None => {},
    }
    out
}

/// The bindings that go to the agent at position `i`: those that name an
/// identifier whose last bearer stands there.
pub open spec fn bindings_of_agent(
    bindings: Seq<BindingView>,
    ids: Seq<Seq<char>>,
    i: int,
) -> Seq<BindingView> {
    bindings.filter(|b: BindingView| last_index(ids, b.agent_id) == Some(i))
}

/// The bindings that go to the channel at position `i`: those that name a channel
/// whose last bearer stands there.
pub open spec fn bindings_of_channel(
    bindings: Seq<BindingView>,
    names: Seq<Seq<char>>,
    i: int,
) -> Seq<BindingView> {
    bindings.filter(|b: BindingView| last_index(names, b.channel) == Some(i))
}

/// What an agent reports of a binding.
pub open spec fn binding_report(b: BindingView) -> JsonView {
    JsonView::Object(seq![("channel"@, JsonView::Str(b.channel)), ("account_id"@, b.account_id)])
}

/// What an agent reports of its bindings.
pub open spec fn binding_reports(bindings: Seq<BindingView>) -> Seq<JsonView> {
    bindings.map_values(|b: BindingView| binding_report(b))
}

/// The channels of bindings, each once.
pub open spec fn channels_of(bindings: Seq<BindingView>) -> Seq<Seq<char>> {
    distinct(bindings.map_values(|b: BindingView| b.channel))
}

/// The agents of bindings, each once.
pub open spec fn agents_of(bindings: Seq<BindingView>) -> Seq<Seq<char>> {
    distinct(bindings.map_values(|b: BindingView| b.agent_id))
}

fn report_binding(b: &Binding) -> (r: Json)
    ensures
        r@ == binding_report(b@),
{
    let mut fields = Fields::new();
    fields.put("channel", json_text(b.channel.as_str()));
    fields.put("account_id", b.account_id.copy());
    assert(fields@ == binding_report(b@)->Object_0);
    fields.object()
}

/// The reports on the bindings of the agent at position `i`, and its channels.
fn bind_agent(bindings: &Vec<Binding>, ids: &Vec<String>, i: usize) -> (r: (Vec<Json>, Vec<String>))
    ensures
        json_views(r.0@) == binding_reports(
            bindings_of_agent(binding_views(bindings@), texts(ids@), i as int),
        ),
        texts(r.1@) == channels_of(
            bindings_of_agent(binding_views(bindings@), texts(ids@), i as int),
        ),
{
    let ghost all = binding_views(bindings@);
    let ghost ids_v = texts(ids@);
    let mut out: Vec<Json> = Vec::new();
    let mut channels: Vec<String> = Vec::new();
    let mut k: usize = 0;
    proof {
        reveal(Seq::filter);
        assert(all.take(0) =~= Seq::<BindingView>::empty());
        let none = Seq::<BindingView>::empty();
        assert(bindings_of_agent(none, ids_v, i as int) =~= none);
        assert(binding_reports(none) =~= json_views(out@));
        assert(none.map_values(|b: BindingView| b.channel) =~= Seq::<Seq<char>>::empty());
        assert(texts(channels@) =~= channels_of(none));
    }
    while k < bindings.len()
        invariant
            k <= bindings@.len(),
            all == binding_views(bindings@),
            ids_v == texts(ids@),
            json_views(out@) == binding_reports(
                bindings_of_agent(all.take(k as int), ids_v, i as int),
            ),
            texts(channels@) == channels_of(
                bindings_of_agent(all.take(k as int), ids_v, i as int),
            ),
        decreases bindings@.len() - k,
    {
        let b = &bindings[k];
        let ghost before = bindings_of_agent(all.take(k as int), ids_v, i as int);
        let ghost after = bindings_of_agent(all.take(k + 1), ids_v, i as int);
        let ghost out_before = json_views(out@);
        proof {
            reveal(Seq::filter);
            assert(all.take(k + 1).drop_last() =~= all.take(k as int));
            assert(all.take(k + 1).last() == b@);
        }
        let home = find_last(ids, b.agent_id.as_str());
        let mine = match home {
            Some(j) => j == i,
            None => false,
        };
        if mine {
            out.push(report_binding(b));
            push_distinct(&mut channels, b.channel.as_str());
            proof {
                assert(after == before.push(b@));
                assert(json_views(out@) =~= out_before.push(binding_report(b@)));
                assert(binding_reports(after) =~= binding_reports(before).push(binding_report(b@)));
                let names = after.map_values(|b: BindingView| b.channel);
                assert(names.drop_last() =~= before.map_values(|b: BindingView| b.channel));
                assert(names.last() == b@.channel);
            }
        } else {
            assert(after == before);
        }
        k = k + 1;
    }
    assert(all.take(k as int) =~= all);
    (out, channels)
}

/// The number of bindings of the channel at position `i`, and its agents.
fn bind_channel(bindings: &Vec<Binding>, names: &Vec<String>, i: usize) -> (r: (u64, Vec<String>))
    ensures
        r.0 == bindings_of_channel(binding_views(bindings@), texts(names@), i as int).len(),
        texts(r.1@) == agents_of(
            bindings_of_channel(binding_views(bindings@), texts(names@), i as int),
        ),
{
    let ghost all = binding_views(bindings@);
    let ghost names_v = texts(names@);
    let mut count: u64 = 0;
    let mut agents: Vec<String> = Vec::new();
    let mut k: usize = 0;
    proof {
        reveal(Seq::filter);
        assert(all.take(0) =~= Seq::<BindingView>::empty());
        let none = Seq::<BindingView>::empty();
        assert(bindings_of_channel(none, names_v, i as int) =~= none);
        assert(none.map_values(|b: BindingView| b.agent_id) =~= Seq::<Seq<char>>::empty());
        assert(texts(agents@) =~= agents_of(none));
    }
    while k < bindings.len()
        invariant
            k <= bindings@.len(),
            all == binding_views(bindings@),
            names_v == texts(names@),
            count <= k,
            count == bindings_of_channel(all.take(k as int), names_v, i as int).len(),
            texts(agents@) == agents_of(
                bindings_of_channel(all.take(k as int), names_v, i as int),
            ),
        decreases bindings@.len() - k,
    {
        let b = &bindings[k];
        let ghost before = bindings_of_channel(all.take(k as int), names_v, i as int);
        let ghost after = bindings_of_channel(all.take(k + 1), names_v, i as int);
        proof {
            reveal(Seq::filter);
            assert(all.take(k + 1).drop_last() =~= all.take(k as int));
            assert(all.take(k + 1).last() == b@);
        }
        let home = find_last(names, b.channel.as_str());
        let mine = match home {
            Some(j) => j == i,
            None => false,
        };
        if mine {
            count = count + 1;
            push_distinct(&mut agents, b.agent_id.as_str());
            proof {
                assert(after == before.push(b@));
                let ids = after.map_values(|b: BindingView| b.agent_id);
                assert(ids.drop_last() =~= before.map_values(|b: BindingView| b.agent_id));
                assert(ids.last() == b@.agent_id);
            }
        } else {
            assert(after == before);
        }
        k = k + 1;
    }
    assert(all.take(k as int) =~= all);
    (count, agents)
}

// ---------------------------------------------------------------------------
// Reports
// ---------------------------------------------------------------------------

/// The report on an agent, given the bindings and the jobs that go to it.
pub open spec fn agent_report(
    agent: JsonView,
    data: JsonView,
    soul: JsonView,
    bound: Seq<BindingView>,
    jobs: Seq<CronJobView>,
) -> JsonView {
    let id = agent_id(agent);
    JsonView::Object(
        seq![
            ("id"@, JsonView::Str(id)),
            ("name"@, JsonView::Str(value_or(agent.str_at("name"@), id))),
            ("is_default"@, JsonView::Bool(value_or(agent.bool_at("default"@), false))),
            ("workspace"@, text_or_null(agent_workspace(agent, data))),
            ("model"@, JsonView::Str(agent_model(agent, data))),
            ("channels"@, text_array(channels_of(bound))),
            ("bindings"@, JsonView::Array(binding_reports(bound))),
            ("soul"@, soul),
            ("crons"@, JsonView::Array(reports(jobs))),
            ("cron_count"@, nat_value(jobs.len() as u64)),
            ("enabled_cron_count"@, nat_value(enabled_count(jobs) as u64)),
        ],
    )
}

/// What was read of the file that describes the agent at position `i`.
pub open spec fn soul_at(souls: Seq<SoulFile>, i: int) -> SoulFile {
    if 0 <= i < souls.len() {
        souls[i]
    } else {
        SoulFile::Missing
    }
}

/// The identifiers of the agents.
pub open spec fn agent_ids(data: JsonView) -> Seq<Seq<char>> {
    listed_agents(data).map_values(|a: JsonView| agent_id(a))
}

/// The reports on the agents.
pub open spec fn agent_reports(
    data: JsonView,
    souls: Seq<SoulFile>,
    jobs: Seq<CronJobView>,
) -> Seq<JsonView> {
    Seq::new(
        listed_agents(data).len(),
        |i: int|
            agent_report(
                listed_agents(data)[i],
                data,
                soul_view(soul_at(souls, i)),
                bindings_of_agent(listed_bindings(data), agent_ids(data), i),
                jobs_of_agent(jobs, agent_ids(data)[i]),
            ),
    )
}

/// The number of entries of an object; none where there is no object.
pub open spec fn entry_count(o: Option<JsonView>) -> nat {
    match o {
        Some(JsonView::Object(entries)) => entries.len(),
        _ => 0,
    }
}

/// The channels: the entries of the section on channels that are objects.
pub open spec fn listed_channels(data: JsonView) -> Seq<(Seq<char>, JsonView)> {
    match data.get("channels"@) {
        Some(JsonView::Object(entries)) => entries.filter(
            |e: (Seq<char>, JsonView)| e.1.is_object(),
        ),
        _ => Seq::empty(),
    }
}

/// Whether a channel is switched on.
pub open spec fn channel_enabled(conf: JsonView) -> bool {
    value_or(conf.bool_at("enabled"@), true)
}

/// The report on a channel, given the bindings that go to it.
pub open spec fn channel_report(
    channel: (Seq<char>, JsonView),
    bound: Seq<BindingView>,
) -> JsonView {
    let accounts = entry_count(channel.1.get("accounts"@));
    let tools = entry_count(channel.1.get("tools"@));
    JsonView::Object(
        seq![
            ("name"@, JsonView::Str(channel.0)),
            ("enabled"@, JsonView::Bool(channel_enabled(channel.1))),
            ("account_count"@, nat_value(accounts as u64)),
            ("tool_count"@, nat_value(tools as u64)),
            ("has_accounts"@, JsonView::Bool(accounts > 0)),
            ("has_tools"@, JsonView::Bool(tools > 0)),
            ("agent_ids"@, text_array(agents_of(bound))),
            ("binding_count"@, nat_value(bound.len() as u64)),
        ],
    )
}

/// The names of the channels.
pub open spec fn channel_names(data: JsonView) -> Seq<Seq<char>> {
    listed_channels(data).map_values(|c: (Seq<char>, JsonView)| c.0)
}

/// The reports on the channels.
pub open spec fn channel_reports(data: JsonView) -> Seq<JsonView> {
    Seq::new(
        listed_channels(data).len(),
        |i: int|
            channel_report(
                listed_channels(data)[i],
                bindings_of_channel(listed_bindings(data), channel_names(data), i),
            ),
    )
}

/// The names of the channels that are switched on.
pub open spec fn enabled_channels(data: JsonView) -> Seq<Seq<char>> {
    listed_channels(data).filter(
        |c: (Seq<char>, JsonView)| channel_enabled(c.1),
    ).map_values(|c: (Seq<char>, JsonView)| c.0)
}

/// The report on an instance whose configuration file was read.
pub open spec fn instance_info(
    instance: InstanceConfig,
    data: JsonView,
    souls: Seq<SoulFile>,
    jobs: Seq<CronJobView>,
) -> JsonView {
    JsonView::Object(
        seq![
            ("name"@, JsonView::Str(instance.name@)),
            ("port"@, nat_value(instance.port as u64)),
            ("profile"@, int_or_null(instance.profile)),
            ("config_found"@, JsonView::Bool(true)),
            ("default_model"@, JsonView::Str(default_model(data))),
            ("agents"@, JsonView::Array(agent_reports(data, souls, jobs))),
            ("agent_count"@, nat_value(listed_agents(data).len() as u64)),
            ("channels"@, JsonView::Array(channel_reports(data))),
            ("channel_count"@, nat_value(listed_channels(data).len() as u64)),
            ("enabled_channel_names"@, text_array(enabled_channels(data))),
            ("enabled_channel_count"@, nat_value(enabled_channels(data).len() as u64)),
            ("crons"@, JsonView::Array(reports(jobs))),
            ("cron_count"@, nat_value(jobs.len() as u64)),
            ("enabled_cron_count"@, nat_value(enabled_count(jobs) as u64)),
        ],
    )
}

/// The reports on the jobs that belong to an agent, with the number of those that
/// are switched on; on all jobs where no agent is given.
fn select_jobs(jobs: &Vec<CronJob>, agent_id: Option<&str>) -> (r: (Vec<Json>, u64))
    ensures
        ({
            let mine = match agent_id {
                Some(id) => jobs_of_agent(job_views(jobs@), id@),
                None => job_views(jobs@),
            };
            &&& json_views(r.0@) == reports(mine)
            &&& r.1 == enabled_count(mine)
            &&& r.0@.len() == mine.len()
        }),
{
    let ghost all = job_views(jobs@);
    let ghost pick = |s: Seq<CronJobView>|
        match agent_id {
            Some(id) => jobs_of_agent(s, id@),
            None => s,
        };
    let mut out: Vec<Json> = Vec::new();
    let mut enabled: u64 = 0;
    let mut i: usize = 0;
    proof {
        reveal(Seq::filter);
        assert(all.take(0) =~= Seq::<CronJobView>::empty());
        let none = Seq::<CronJobView>::empty();
        assert(pick(none) =~= none);
        assert(reports(none) =~= json_views(out@));
        assert(enabled_count(none) == 0);
    }
    while i < jobs.len()
        invariant
            i <= jobs@.len(),
            all == job_views(jobs@),
            pick == (|s: Seq<CronJobView>|
                match agent_id {
                    Some(id) => jobs_of_agent(s, id@),
                    None => s,
                }),
            json_views(out@) == reports(pick(all.take(i as int))),
            enabled <= i,
            enabled == enabled_count(pick(all.take(i as int))),
        decreases jobs@.len() - i,
    {
        let job = &jobs[i];
        let ghost before = pick(all.take(i as int));
        let ghost after = pick(all.take(i + 1));
        let ghost out_before = json_views(out@);
        proof {
            reveal(Seq::filter);
            assert(all.take(i + 1).drop_last() =~= all.take(i as int));
            assert(all.take(i + 1).last() == job@);
        }
        let mine = match (agent_id, opt_slice(&job.agent_id)) {
            (Some(id), Some(owner)) => same(id, owner),
            (Some(_), None) => false,
            (None, _) => true,
        };
        if mine {
            out.push(job.report.copy());
            proof {
                assert(after =~= before.push(job@));
                assert(json_views(out@) =~= out_before.push(job@.report));
                assert(reports(after) =~= reports(before).push(job@.report));
                assert(after.drop_last() =~= before);
            }
            if job.enabled {
                enabled = enabled + 1;
            }
        } else {
            assert(after =~= before);
        }
        i = i + 1;
    }
    assert(all.take(i as int) =~= all);
    assert(json_views(out@).len() == reports(pick(all)).len());
    (out, enabled)
}

fn report_agent(
    agent: &Json,
    data: &Json,
    soul: &SoulFile,
    bindings: &Vec<Binding>,
    ids: &Vec<String>,
    i: usize,
    jobs: &Vec<CronJob>,
) -> (r: Json)
    ensures
        r@ == agent_report(
            agent@,
            data@,
            soul_view(*soul),
            bindings_of_agent(binding_views(bindings@), texts(ids@), i as int),
            jobs_of_agent(job_views(jobs@), agent_id(agent@)),
        ),
{
    let id = text_or(agent.str_at("id"), "unknown");
    let ws = first_text(agent.str_at("workspace"), workspace_default(data));
    let own = str_in(agent.get_in("model", "primary"));
    let of_params = str_in(at(agent.get_in("params", "model"), "primary"));
    let model = text_or(first_text(own, of_params), model_default(data));
    let is_default = match agent.bool_at("default") {
        Some(b) => b,
        None => false,
    };
    let (bound, channels) = bind_agent(bindings, ids, i);
    let (crons, enabled) = select_jobs(jobs, Some(id));
    let cron_count: u64 = crons.len() as u64;

    let mut fields = Fields::new();
    fields.put("id", json_text(id));
    fields.put("name", json_text(text_or(agent.str_at("name"), id)));
    fields.put("is_default", Json::Bool(is_default));
    fields.put("workspace", json_opt_text(ws));
    fields.put("model", json_text(model));
    fields.put("channels", json_texts(&channels));
    fields.put("bindings", json_array(bound));
    fields.put("soul", read_soul_file(soul));
    fields.put("crons", json_array(crons));
    fields.put("cron_count", json_nat(cron_count));
    fields.put("enabled_cron_count", json_nat(enabled));
    assert(fields@ == agent_report(
        agent@,
        data@,
        soul_view(*soul),
        bindings_of_agent(binding_views(bindings@), texts(ids@), i as int),
        jobs_of_agent(job_views(jobs@), agent_id(agent@)),
    )->Object_0);
    fields.object()
}

/// The number of entries of an object.
fn count_entries(o: Option<&Json>) -> (r: usize)
    ensures
        r == entry_count(opt_ref_view(o)),
{
    match o {
        Some(v) => match v.as_object() {
            Some(entries) => {
                assert(v@.as_object()->0.len() == entries@.len());
                entries.len()
            },
            None => 0,
        },
        None => 0,
    }
}

/// The name and the settings of a channel.
type Channel<'a> = (&'a str, &'a Json);

/// The channels that a sequence of references stands for.
spec fn channel_views(v: Seq<Channel>) -> Seq<(Seq<char>, JsonView)> {
    v.map_values(|c: Channel| (c.0@, c.1@))
}

fn channel_list(data: &Json) -> (r: Vec<Channel>)
    ensures
        channel_views(r@) == listed_channels(data@),
{
    let mut out: Vec<Channel> = Vec::new();
    assert(channel_views(out@) =~= Seq::<(Seq<char>, JsonView)>::empty());
    let section = match data.get("channels") {
        Some(v) => v.as_object(),
        None => None,
    };
    match section {
        Some(entries) => {
            let ghost all = entries@.map_values(|e: (String, Json)| (e.0@, e.1@));
            let mut i: usize = 0;
            proof {
                reveal(Seq::filter);
                assert(all.take(0) =~= Seq::<(Seq<char>, JsonView)>::empty());
            }
            while i < entries.len()
                invariant
                    i <= entries@.len(),
                    all == entries@.map_values(|e: (String, Json)| (e.0@, e.1@)),
                    channel_views(out@) == all.take(i as int).filter(
                        |e: (Seq<char>, JsonView)| e.1.is_object(),
                    ),
                decreases entries@.len() - i,
            {
                let ghost before = channel_views(out@);
                proof {
                    reveal(Seq::filter);
                    assert(all.take(i + 1).drop_last() =~= all.take(i as int));
                    assert(all.take(i + 1).last() == (
                        entries@[i as int].0@,
                        entries@[i as int].1@,
                    ));
                }
                if entries[i].1.is_object() {
                    out.push((entries[i].0.as_str(), &entries[i].1));
                    assert(channel_views(out@) =~= before.push(
                        (entries@[i as int].0@, entries@[i as int].1@),
                    ));
                }
                i = i + 1;
            }
            assert(all.take(i as int) =~= all);
        },
        None => {},
    }
    out
}

fn report_channel(
    name: &str,
    conf: &Json,
    bindings: &Vec<Binding>,
    names: &Vec<String>,
    i: usize,
) -> (r: Json)
    ensures
        r@ == channel_report(
            (name@, conf@),
            bindings_of_channel(binding_views(bindings@), texts(names@), i as int),
        ),
{
    let accounts = count_entries(conf.get("accounts"));
    let tools = count_entries(conf.get("tools"));
    let (binding_count, agents) = bind_channel(bindings, names, i);

    let mut fields = Fields::new();
    fields.put("name", json_text(name));
    fields.put("enabled", Json::Bool(is_channel_enabled(conf)));
    fields.put("account_count", json_nat(accounts as u64));
    fields.put("tool_count", json_nat(tools as u64));
    fields.put("has_accounts", Json::Bool(accounts > 0));
    fields.put("has_tools", Json::Bool(tools > 0));
    fields.put("agent_ids", json_texts(&agents));
    fields.put("binding_count", json_nat(binding_count));
    assert(fields@ == channel_report(
        (name@, conf@),
        bindings_of_channel(binding_views(bindings@), texts(names@), i as int),
    )->Object_0);
    fields.object()
}

fn is_channel_enabled(conf: &Json) -> (r: bool)
    ensures
        r == channel_enabled(conf@),
{
    match conf.bool_at("enabled") {
        Some(b) => b,
        None => true,
    }
}

fn all_agents(data: &Json, souls: &Vec<SoulFile>, bindings: &Vec<Binding>, jobs: &Vec<CronJob>) -> (r:
    Vec<Json>)
    requires
        binding_views(bindings@) == listed_bindings(data@),
    ensures
        json_views(r@) == agent_reports(data@, souls@, job_views(jobs@)),
{
    let agents = agent_list(data);
    let ghost all = listed_agents(data@);
    let mut ids: Vec<String> = Vec::new();
    let mut i: usize = 0;
    while i < agents.len()
        invariant
            i <= agents@.len(),
            all == ref_views(agents@),
            all == listed_agents(data@),
            texts(ids@) == agent_ids(data@).take(i as int),
        decreases agents@.len() - i,
    {
        let ghost before = texts(ids@);
        assert(all[i as int] == agents@[i as int]@);
        let id = text_or(agents[i].str_at("id"), "unknown");
        ids.push(id.to_owned());
        proof {
            assert(texts(ids@) =~= before.push(id@));
            assert(agent_ids(data@)[i as int] == id@);
            assert(agent_ids(data@).take(i + 1) =~= agent_ids(data@).take(i as int).push(id@));
        }
        i = i + 1;
    }
    assert(agent_ids(data@).take(i as int) =~= agent_ids(data@));
    let missing = SoulFile::Missing;
    let ghost goal = agent_reports(data@, souls@, job_views(jobs@));
    let mut out: Vec<Json> = Vec::new();
    let mut k: usize = 0;
    while k < agents.len()
        invariant
            k <= agents@.len(),
            all == ref_views(agents@),
            all == listed_agents(data@),
            texts(ids@) == agent_ids(data@),
            missing == SoulFile::Missing,
            binding_views(bindings@) == listed_bindings(data@),
            goal == agent_reports(data@, souls@, job_views(jobs@)),
            out@.len() == k,
            forall|j: int| 0 <= j < k ==> (#[trigger] out@[j])@ == goal[j],
        decreases agents@.len() - k,
    {
        assert(all[k as int] == agents@[k as int]@);
        let soul = if k < souls.len() {
            &souls[k]
        } else {
            &missing
        };
        assert(*soul == soul_at(souls@, k as int));
        out.push(report_agent(agents[k], data, soul, bindings, &ids, k, jobs));
        assert(agent_ids(data@)[k as int] == agent_id(all[k as int]));
        k = k + 1;
    }
    assert(json_views(out@) =~= goal);
    out
}

/// The reports on the channels, and the names of those that are switched on.
fn all_channels(data: &Json, bindings: &Vec<Binding>) -> (r: (Vec<Json>, Vec<String>))
    requires
        binding_views(bindings@) == listed_bindings(data@),
    ensures
        json_views(r.0@) == channel_reports(data@),
        texts(r.1@) == enabled_channels(data@),
{
    let channels = channel_list(data);
    let ghost all = listed_channels(data@);
    let mut names: Vec<String> = Vec::new();
    let mut enabled: Vec<String> = Vec::new();
    let mut i: usize = 0;
    proof {
        reveal(Seq::filter);
        assert(all.take(0) =~= Seq::<(Seq<char>, JsonView)>::empty());
        assert(texts(enabled@) =~= Seq::<(Seq<char>, JsonView)>::empty().map_values(
            |c: (Seq<char>, JsonView)| c.0,
        ));
    }
    while i < channels.len()
        invariant
            i <= channels@.len(),
            all == channel_views(channels@),
            all == listed_channels(data@),
            texts(names@) == channel_names(data@).take(i as int),
            texts(enabled@) == all.take(i as int).filter(
                |c: (Seq<char>, JsonView)| channel_enabled(c.1),
            ).map_values(|c: (Seq<char>, JsonView)| c.0),
        decreases channels@.len() - i,
    {
        let ghost before = texts(names@);
        let ghost on_before = all.take(i as int).filter(
            |c: (Seq<char>, JsonView)| channel_enabled(c.1),
        );
        let ghost on_texts = texts(enabled@);
        let (name, conf) = channels[i];
        proof {
            reveal(Seq::filter);
            assert(all[i as int] == (name@, conf@));
            assert(all.take(i + 1).drop_last() =~= all.take(i as int));
            assert(all.take(i + 1).last() == (name@, conf@));
        }
        names.push(name.to_owned());
        proof {
            assert(texts(names@) =~= before.push(name@));
            assert(channel_names(data@).take(i + 1) =~= channel_names(data@).take(i as int).push(
                name@,
            ));
        }
        if is_channel_enabled(conf) {
            enabled.push(name.to_owned());
            proof {
                assert(texts(enabled@) =~= on_texts.push(name@));
                assert(on_before.push((name@, conf@)).map_values(
                    |c: (Seq<char>, JsonView)| c.0,
                ) =~= on_texts.push(name@));
            }
        }
        i = i + 1;
    }
    assert(channel_names(data@).take(i as int) =~= channel_names(data@));
    assert(all.take(i as int) =~= all);
    let ghost goal = channel_reports(data@);
    let mut out: Vec<Json> = Vec::new();
    let mut k: usize = 0;
    while k < channels.len()
        invariant
            k <= channels@.len(),
            all == channel_views(channels@),
            all == listed_channels(data@),
            texts(names@) == channel_names(data@),
            binding_views(bindings@) == listed_bindings(data@),
            goal == channel_reports(data@),
            out@.len() == k,
            forall|j: int| 0 <= j < k ==> (#[trigger] out@[j])@ == goal[j],
        decreases channels@.len() - k,
    {
        let (name, conf) = channels[k];
        assert(all[k as int] == (name@, conf@));
        out.push(report_channel(name, conf, bindings, &names, k));
        k = k + 1;
    }
    assert(json_views(out@) =~= goal);
    (out, enabled)
}

/// The report on an instance whose configuration file was read. `souls` holds what
/// was read of the file that describes each agent, `jobs` the scheduled jobs.
pub fn collect_instance_info(
    instance: &InstanceConfig,
    data: &Json,
    souls: &Vec<SoulFile>,
    jobs: &Vec<CronJob>,
) -> (r: Json)
    ensures
        r@ == instance_info(*instance, data@, souls@, job_views(jobs@)),
{
    let bindings = read_bindings(data);
    let agents = all_agents(data, souls, &bindings, jobs);
    let (channels, enabled_names) = all_channels(data, &bindings);
    let (crons, enabled_crons) = select_jobs(jobs, None);
    let agent_count: u64 = agents.len() as u64;
    let channel_count: u64 = channels.len() as u64;
    let enabled_channel_count: u64 = enabled_names.len() as u64;
    let cron_count: u64 = crons.len() as u64;
    proof {
        assert(json_views(agents@).len() == agents@.len());
        assert(json_views(channels@).len() == channels@.len());
        assert(texts(enabled_names@).len() == enabled_names@.len());
    }

    let mut fields = Fields::new();
    fields.put("name", json_text(instance.name.as_str()));
    fields.put("port", json_nat(instance.port as u64));
    fields.put("profile", json_opt_int(instance.profile));
    fields.put("config_found", Json::Bool(true));
    fields.put("default_model", json_text(model_default(data)));
    fields.put("agents", json_array(agents));
    fields.put("agent_count", json_nat(agent_count));
    fields.put("channels", json_array(channels));
    fields.put("channel_count", json_nat(channel_count));
    fields.put("enabled_channel_names", json_texts(&enabled_names));
    fields.put("enabled_channel_count", json_nat(enabled_channel_count));
    fields.put("crons", json_array(crons));
    fields.put("cron_count", json_nat(cron_count));
    fields.put("enabled_cron_count", json_nat(enabled_crons));
    assert(fields@ == instance_info(*instance, data@, souls@, job_views(jobs@))->Object_0);
    fields.object()
}

/// The report on an instance whose configuration file was not found, or holds no
/// JSON.
pub open spec fn missing_info(instance: InstanceConfig, error: Option<Seq<char>>) -> JsonView {
    let base = seq![
        ("name"@, JsonView::Str(instance.name@)),
        ("port"@, nat_value(instance.port as u64)),
        ("profile"@, int_or_null(instance.profile)),
        ("config_found"@, JsonView::Bool(false)),
    ];
    JsonView::Object(
        match error {
            Some(e) => base.push(("error"@, JsonView::Str(e))),
            None => base,
        },
    )
}

fn info_without_config(instance: &InstanceConfig, error: Option<&str>) -> (r: Json)
    ensures
        r@ == missing_info(*instance, opt_str_view(error)),
{
    let mut fields = Fields::new();
    fields.put("name", json_text(instance.name.as_str()));
    fields.put("port", json_nat(instance.port as u64));
    fields.put("profile", json_opt_int(instance.profile));
    fields.put("config_found", Json::Bool(false));
    match error {
        Some(e) => {
            fields.put("error", json_text(e));
        },
        None => {},
    }
    assert(fields@ == missing_info(*instance, opt_str_view(error))->Object_0);
    fields.object()
}

/// The report on an instance whose configuration file is not there.
pub fn config_not_found_info(instance: &InstanceConfig) -> (r: Json)
    ensures
        r@ == missing_info(*instance, None),
{
    info_without_config(instance, None)
}

/// The report on an instance whose configuration file holds no JSON.
pub fn config_unparsable_info(instance: &InstanceConfig) -> (r: Json)
    ensures
        r@ == missing_info(*instance, Some("Failed to parse config"@)),
{
    info_without_config(instance, Some("Failed to parse config"))
}

/// What came of reading the configuration file of an instance.
pub enum InstanceFile {
    /// The file is not there.
    NotFound,
    /// The file is there and could not be read.
    Unreadable,
    /// The text of the file.
    Text(String),
}

/// The value that the configuration file of an instance holds, if it holds one.
pub open spec fn file_value(file: InstanceFile) -> Option<JsonView> {
    match file {
        InstanceFile::Text(text) => parsed_json(text@),
        _ => None,
    }
}

/// The value that the configuration file of an instance holds, if it holds one.
pub fn read_instance_file(file: &InstanceFile) -> (r: Option<Json>)
    ensures
        opt_json_view(r) == file_value(*file),
{
    match file {
        InstanceFile::Text(text) => parse_json(text.as_str()),
        _ => None,
    }
}

/// The value that the file of jobs holds, if it holds one.
pub fn read_jobs_file(text: Option<&str>) -> (r: Option<Json>)
    ensures
        opt_json_view(r) == match opt_str_view(text) {
            Some(t) => parsed_json(t),
            None => None,
        },
{
    match text {
        Some(t) => parse_json(t),
        None => None,
    }
}

/// The report on an instance, from what its files hold.
pub open spec fn report_on(
    instance: InstanceConfig,
    file: InstanceFile,
    souls: Seq<SoulFile>,
    jobs: Seq<CronJobView>,
) -> JsonView {
    match file {
        InstanceFile::NotFound => missing_info(instance, None),
        _ => match file_value(file) {
            Some(data) => instance_info(instance, data, souls, jobs),
            None => missing_info(instance, Some("Failed to parse config"@)),
        },
    }
}

/// The report on an instance, from what its files hold: its configuration file, the
/// files that describe its agents, the file of its jobs, and the files of their
/// runs.
pub fn instance_report(
    instance: &InstanceConfig,
    file: &InstanceFile,
    souls: &Vec<SoulFile>,
    jobs_text: Option<&str>,
    run_logs: &Vec<Option<String>>,
    home: &str,
    now_ms: i64,
) -> (r: Json)
    requires
        now_ms >= 0,
    ensures
        r@ == report_on(
            *instance,
            *file,
            souls@,
            jobs_of(
                match opt_str_view(jobs_text) {
                    Some(t) => parsed_json(t),
                    None => None,
                },
                run_logs@,
                home@,
                now_ms as int,
            ),
        ),
{
    match file {
        InstanceFile::NotFound => {
            return config_not_found_info(instance);
        },
        _ => {},
    }
    match read_instance_file(file) {
        Some(data) => {
            let jobs_value = read_jobs_file(jobs_text);
            let jobs = match &jobs_value {
                Some(v) => read_cron_jobs(Some(v), run_logs, home, now_ms),
                None => read_cron_jobs(None, run_logs, home, now_ms),
            };
            collect_instance_info(instance, &data, souls, &jobs)
        },
        None => config_unparsable_info(instance),
    }
}

// ---------------------------------------------------------------------------
// Cache
// ---------------------------------------------------------------------------

/// The times of change, in milliseconds, of the files that a report was made from.
pub struct CacheSignature {
    pub config_mtime: Option<u64>,
    pub cron_mtime: Option<u64>,
    /// For each agent its identifier, and the time of change of the file that
    /// describes it.
    pub soul_mtimes: Vec<(String, Option<u64>)>,
}

/// What a [`CacheSignature`] stands for.
pub struct SignatureView {
    pub config_mtime: Option<u64>,
    pub cron_mtime: Option<u64>,
    pub soul_mtimes: Seq<(Seq<char>, Option<u64>)>,
}

impl View for CacheSignature {
    type V = SignatureView;

    open spec fn view(&self) -> SignatureView {
        SignatureView {
            config_mtime: self.config_mtime,
            cron_mtime: self.cron_mtime,
            soul_mtimes: self.soul_mtimes@.map_values(|e: (String, Option<u64>)| (e.0@, e.1)),
        }
    }
}

fn same_time(a: Option<u64>, b: Option<u64>) -> (r: bool)
    ensures
        r == (a == b),
{
    match (a, b) {
        (Some(x), Some(y)) => x == y,
        (None, None) => true,
        _ => false,
    }
}

impl CacheSignature {
    /// Whether the files are unchanged.
    pub fn same(&self, other: &CacheSignature) -> (r: bool)
        ensures
            r == (self@ == other@),
    {
        if !same_time(self.config_mtime, other.config_mtime) || !same_time(
            self.cron_mtime,
            other.cron_mtime,
        ) || self.soul_mtimes.len() != other.soul_mtimes.len() {
            assert(self@.soul_mtimes.len() == self.soul_mtimes@.len());
            assert(other@.soul_mtimes.len() == other.soul_mtimes@.len());
            return false;
        }
        let mut i: usize = 0;
        while i < self.soul_mtimes.len()
            invariant
                i <= self.soul_mtimes@.len() == other.soul_mtimes@.len(),
                forall|k: int|
                    0 <= k < i ==> self@.soul_mtimes[k] == (#[trigger] other@.soul_mtimes[k]),
            decreases self.soul_mtimes@.len() - i,
        {
            assert(self@.soul_mtimes[i as int] == (
                self.soul_mtimes@[i as int].0@,
                self.soul_mtimes@[i as int].1,
            ));
            assert(other@.soul_mtimes[i as int] == (
                other.soul_mtimes@[i as int].0@,
                other.soul_mtimes@[i as int].1,
            ));
            if !same(self.soul_mtimes[i].0.as_str(), other.soul_mtimes[i].0.as_str())
                || !same_time(self.soul_mtimes[i].1, other.soul_mtimes[i].1) {
                return false;
            }
            i = i + 1;
        }
        assert(self@.soul_mtimes =~= other@.soul_mtimes);
        true
    }
}

/// The report that is kept on an instance, if its files are unchanged since it was
/// made.
pub open spec fn kept_report(
    cache: Map<Seq<char>, (SignatureView, JsonView)>,
    name: Seq<char>,
    signature: SignatureView,
) -> Option<JsonView> {
    if cache.contains_key(name) && cache[name].0 == signature {
        Some(cache[name].1)
    } else {
        None
    }
}

/// The reports that were made, by the name of the instance, each with the times of
/// change of the files that it was made from.
pub struct InfoCache {
    entries: KeyedStore<(CacheSignature, Json)>,
}

impl View for InfoCache {
    type V = Map<Seq<char>, (SignatureView, JsonView)>;

    closed spec fn view(&self) -> Map<Seq<char>, (SignatureView, JsonView)> {
        self.entries@.map_values(|e: (CacheSignature, Json)| (e.0@, e.1@))
    }
}

impl InfoCache {
    /// No reports.
    pub fn new() -> (r: Self)
        ensures
            r@ == Map::<Seq<char>, (SignatureView, JsonView)>::empty(),
    {
        let r = InfoCache { entries: KeyedStore::new() };
        assert(r@ =~= Map::<Seq<char>, (SignatureView, JsonView)>::empty());
        r
    }

    /// The report on an instance, if one was made and its files are unchanged since.
    pub fn lookup(&self, name: &str, signature: &CacheSignature) -> (r: Option<Json>)
        ensures
            opt_json_view(r) == kept_report(self@, name@, signature@),
    {
        match self.entries.get(name) {
            Some(entry) => if entry.0.same(signature) {
                Some(entry.1.copy())
            } else {
                None
            },
            None => None,
        }
    }

    /// Keeps a report, in place of an earlier one on the same instance.
    pub fn remember(&mut self, name: &str, signature: CacheSignature, info: Json)
        ensures
            final(self)@ == old(self)@.insert(name@, (signature@, info@)),
    {
        let ghost before = self@;
        self.entries.insert(name, (signature, info));
        assert(self@ =~= before.insert(name@, (signature@, info@)));
    }
}

// ---------------------------------------------------------------------------
// Laws
// ---------------------------------------------------------------------------

/// A report is found again as long as the files are unchanged, is not found once one
/// of them has changed, and the reports on other instances are left alone.
pub proof fn law_cache_read_back(
    before: Map<Seq<char>, (SignatureView, JsonView)>,
    name: Seq<char>,
    signature: SignatureView,
    info: JsonView,
    other: Seq<char>,
    asked: SignatureView,
)
    ensures
        ({
            let after = before.insert(name, (signature, info));
            &&& kept_report(after, name, signature) == Some(info)
            &&& asked != signature ==> kept_report(after, name, asked) is None
            &&& other != name ==> kept_report(after, other, asked) == kept_report(
                before,
                other,
                asked,
            )
        }),
{
}

/// The counts of a report agree with its lists: no more channels and no more jobs
/// are switched on than there are, an agent has no more jobs than the instance, and
/// a channel names no more agents than it has bindings.
pub proof fn law_counts_agree(
    data: JsonView,
    jobs: Seq<CronJobView>,
    id: Seq<char>,
    bound: Seq<BindingView>,
)
    ensures
        enabled_count(jobs) <= jobs.len(),
        enabled_channels(data).len() <= listed_channels(data).len(),
        jobs_of_agent(jobs, id).len() <= jobs.len(),
        agents_of(bound).len() <= bound.len(),
        channels_of(bound).len() <= bound.len(),
{
    broadcast use Seq::lemma_filter_len;
    law_distinct(bound.map_values(|b: BindingView| b.agent_id));
    law_distinct(bound.map_values(|b: BindingView| b.channel));
}

/// No agent names a channel twice, and no channel an agent; each names exactly those
/// of its bindings.
pub proof fn law_names_once(bound: Seq<BindingView>, x: Seq<char>)
    ensures
        channels_of(bound).no_duplicates(),
        agents_of(bound).no_duplicates(),
        channels_of(bound).contains(x) <==> exists|k: int|
            0 <= k < bound.len() && (#[trigger] bound[k]).channel == x,
        agents_of(bound).contains(x) <==> exists|k: int|
            0 <= k < bound.len() && (#[trigger] bound[k]).agent_id == x,
{
    let channels = bound.map_values(|b: BindingView| b.channel);
    let agents = bound.map_values(|b: BindingView| b.agent_id);
    law_distinct(channels);
    law_distinct(agents);
    if channels.contains(x) {
        let k = channels.index_of(x);
        assert(bound[k].channel == x);
    }
    if agents.contains(x) {
        let k = agents.index_of(x);
        assert(bound[k].agent_id == x);
    }
    if exists|k: int| 0 <= k < bound.len() && (#[trigger] bound[k]).channel == x {
        let k = choose|k: int| 0 <= k < bound.len() && (#[trigger] bound[k]).channel == x;
        assert(channels[k] == x);
    }
    if exists|k: int| 0 <= k < bound.len() && (#[trigger] bound[k]).agent_id == x {
        let k = choose|k: int| 0 <= k < bound.len() && (#[trigger] bound[k]).agent_id == x;
        assert(agents[k] == x);
    }
}

/// A binding goes to one agent at most: to the last one with the identifier that it
/// names, and to none where no agent has that identifier.
pub proof fn law_binding_goes_to_one_agent(
    bindings: Seq<BindingView>,
    ids: Seq<Seq<char>>,
    k: int,
    i: int,
)
    requires
        0 <= k < bindings.len(),
        0 <= i < ids.len(),
    ensures
        bindings_of_agent(bindings, ids, i).contains(bindings[k]) <==> (ids[i]
            == bindings[k].agent_id && forall|j: int| i < j < ids.len() ==> ids[j] != ids[i]),
{
    let pred = |b: BindingView| last_index(ids, b.agent_id) == Some(i);
    law_last_index(ids, bindings[k].agent_id);
    if last_index(ids, bindings[k].agent_id) == Some(i) {
        bindings.lemma_filter_contains(pred, k);
    }
    let mine = bindings_of_agent(bindings, ids, i);
    if mine.contains(bindings[k]) {
        let m = mine.index_of(bindings[k]);
        bindings.lemma_filter_pred(pred, m);
    }
}

/// The report on an agent shows what its entry says: its name, or else its identifier; its
/// workspace, or else the default one; and its model, from the entry, or else from its
/// parameters, or else the default one, or else that it is unknown. It holds the bindings
/// and the jobs of this agent, and counts its jobs.
pub proof fn law_agent_reported(
    agent: JsonView,
    data: JsonView,
    soul: JsonView,
    bound: Seq<BindingView>,
    jobs: Seq<CronJobView>,
    section: JsonView,
    defaults: JsonView,
    model: JsonView,
    s: Seq<char>,
)
    ensures
        ({
            let told = agent_report(agent, data, soul, bound, jobs);
            &&& agent.get("id"@) == Some(JsonView::Str(s)) ==> told.get("id"@) == Some(
                JsonView::Str(s),
            ) && (agent.get("name"@) is None ==> told.get("name"@) == Some(JsonView::Str(s)))
            &&& agent.get("id"@) is None ==> told.get("id"@) == Some(JsonView::Str("unknown"@))
            &&& agent.get("name"@) == Some(JsonView::Str(s)) ==> told.get("name"@) == Some(
                JsonView::Str(s),
            )
            &&& told.get("is_default"@) == Some(
                JsonView::Bool(agent.get("default"@) == Some(JsonView::Bool(true))),
            )
            &&& agent.get("workspace"@) == Some(JsonView::Str(s)) ==> told.get("workspace"@)
                == Some(JsonView::Str(s))
            &&& agent.get("workspace"@) is None && data.get("agents"@) == Some(section)
                && section.get("defaults"@) == Some(defaults) && defaults.get("workspace"@) == Some(
                JsonView::Str(s),
            ) ==> told.get("workspace"@) == Some(JsonView::Str(s))
            &&& agent.get("model"@) == Some(model) && model.get("primary"@) == Some(
                JsonView::Str(s),
            ) ==> told.get("model"@) == Some(JsonView::Str(s))
            &&& agent.get("model"@) is None && (agent.get("params"@) matches Some(p) && p.get(
                "model"@,
            ) == Some(model)) && model.get("primary"@) == Some(JsonView::Str(s)) ==> told.get(
                "model"@,
            ) == Some(JsonView::Str(s))
            &&& agent.get("model"@) is None && agent.get("params"@) is None && data.get("agents"@)
                == Some(section) && section.get("defaults"@) == Some(defaults) && defaults.get(
                "model"@,
            ) == Some(model) && model.get("primary"@) == Some(JsonView::Str(s)) ==> told.get(
                "model"@,
            ) == Some(JsonView::Str(s))
            &&& agent.get("model"@) is None && agent.get("params"@) is None && data.get(
                "agents"@,
            ) is None ==> told.get("model"@) == Some(JsonView::Str("unknown"@)) && (agent.get(
                "workspace"@,
            ) is None ==> told.get("workspace"@) == Some(JsonView::Null))
            &&& told.get("soul"@) == Some(soul)
            &&& told.get("bindings"@) matches Some(JsonView::Array(all)) && all.len()
                == bound.len() && forall|i: int|
                0 <= i < all.len() ==> (#[trigger] all[i]).get("channel"@) == Some(
                    JsonView::Str(bound[i].channel),
                ) && all[i].get("account_id"@) == Some(bound[i].account_id)
            &&& told.get("channels"@) == Some(text_array(channels_of(bound)))
            &&& told.get("crons"@) matches Some(JsonView::Array(all)) && all.len() == jobs.len()
                && forall|i: int| 0 <= i < all.len() ==> #[trigger] all[i] == jobs[i].report
            &&& told.get("cron_count"@) == Some(nat_value(jobs.len() as u64))
            &&& told.get("enabled_cron_count"@) == Some(nat_value(enabled_count(jobs) as u64))
        }),
{
    let entries = agent_report(agent, data, soul, bound, jobs)->Object_0;
    reveal_strlit("id");
    assert("id"@.len() == 2);
    reveal_strlit("name");
    assert("name"@.len() == 4);
    reveal_strlit("is_default");
    assert("is_default"@.len() == 10);
    reveal_strlit("workspace");
    assert("workspace"@.len() == 9);
    reveal_strlit("model");
    assert("model"@.len() == 5);
    reveal_strlit("channels");
    assert("channels"@.len() == 8);
    reveal_strlit("bindings");
    assert("bindings"@.len() == 8);
    reveal_strlit("soul");
    assert("soul"@.len() == 4);
    reveal_strlit("crons");
    assert("crons"@.len() == 5);
    reveal_strlit("cron_count");
    assert("cron_count"@.len() == 10);
    reveal_strlit("enabled_cron_count");
    assert("enabled_cron_count"@.len() == 18);
    reveal_strlit("channel");
    assert("channel"@.len() == 7);
    reveal_strlit("account_id");
    assert("account_id"@.len() == 10);
    assert("channels"@[0] != "bindings"@[0]);
    assert("name"@[0] != "soul"@[0]);
    assert("model"@[0] != "crons"@[0]);
    assert("is_default"@[0] != "cron_count"@[0]);
    lemma_entry_value(entries, "id"@, 0);
    lemma_entry_value(entries, "name"@, 1);
    lemma_entry_value(entries, "is_default"@, 2);
    lemma_entry_value(entries, "workspace"@, 3);
    lemma_entry_value(entries, "model"@, 4);
    lemma_entry_value(entries, "channels"@, 5);
    lemma_entry_value(entries, "bindings"@, 6);
    lemma_entry_value(entries, "soul"@, 7);
    lemma_entry_value(entries, "crons"@, 8);
    lemma_entry_value(entries, "cron_count"@, 9);
    lemma_entry_value(entries, "enabled_cron_count"@, 10);
    let all = binding_reports(bound);
    assert forall|i: int| 0 <= i < all.len() implies (#[trigger] all[i]).get("channel"@) == Some(
        JsonView::Str(bound[i].channel),
    ) && all[i].get("account_id"@) == Some(bound[i].account_id) by {
        let one = binding_report(bound[i])->Object_0;
        lemma_entry_value(one, "channel"@, 0);
        lemma_entry_value(one, "account_id"@, 1);
    }
}

/// A binding is read where its entry names an agent and a channel, with the account that it
/// names; any other entry is passed over; and the order of the entries is kept.
pub proof fn law_binding_read(
    before: Seq<JsonView>,
    item: JsonView,
    m: JsonView,
    agent: Seq<char>,
    channel: Seq<char>,
)
    ensures
        item.get("agentId"@) == Some(JsonView::Str(agent)) && item.get("match"@) == Some(m)
            && m.get("channel"@) == Some(JsonView::Str(channel)) ==> bindings_in(before.push(item))
            == bindings_in(before).push(
            BindingView {
                agent_id: agent,
                channel,
                account_id: value_or_null(m.get("accountId"@)),
            },
        ),
        item.get("agentId"@) is None || item.get("match"@) is None ==> bindings_in(
            before.push(item),
        ) == bindings_in(before),
        bindings_in(Seq::empty()).len() == 0,
{
    assert(before.push(item).drop_last() =~= before);
}

/// A binding goes to exactly one channel: to the last one that bears the name which the
/// binding gives, and to no other.
pub proof fn law_binding_goes_to_one_channel(
    bindings: Seq<BindingView>,
    names: Seq<Seq<char>>,
    k: int,
    i: int,
)
    requires
        0 <= k < bindings.len(),
        0 <= i < names.len(),
    ensures
        bindings_of_channel(bindings, names, i).contains(bindings[k]) <==> (names[i]
            == bindings[k].channel && forall|j: int|
            i < j < names.len() ==> names[j] != names[i]),
{
    let pred = |b: BindingView| last_index(names, b.channel) == Some(i);
    law_last_index(names, bindings[k].channel);
    if last_index(names, bindings[k].channel) == Some(i) {
        bindings.lemma_filter_contains(pred, k);
    }
    let mine = bindings_of_channel(bindings, names, i);
    if mine.contains(bindings[k]) {
        let m = mine.index_of(bindings[k]);
        bindings.lemma_filter_pred(pred, m);
    }
}

/// The report on a channel says that it is on unless its entry switches it off, and counts
/// its accounts, its tools, and the bindings that go to it.
pub proof fn law_channel_reported(
    name: Seq<char>,
    conf: JsonView,
    bound: Seq<BindingView>,
    accounts: Seq<(Seq<char>, JsonView)>,
    tools: Seq<(Seq<char>, JsonView)>,
)
    ensures
        ({
            let told = channel_report((name, conf), bound);
            &&& told.get("name"@) == Some(JsonView::Str(name))
            &&& told.get("enabled"@) == Some(
                JsonView::Bool(conf.get("enabled"@) != Some(JsonView::Bool(false))),
            )
            &&& conf.get("accounts"@) == Some(JsonView::Object(accounts)) ==> told.get(
                "account_count"@,
            ) == Some(nat_value(accounts.len() as u64)) && told.get("has_accounts"@) == Some(
                JsonView::Bool(accounts.len() > 0),
            )
            &&& conf.get("accounts"@) is None ==> told.get("account_count"@) == Some(nat_value(0))
                && told.get("has_accounts"@) == Some(JsonView::Bool(false))
            &&& conf.get("tools"@) == Some(JsonView::Object(tools)) ==> told.get("tool_count"@)
                == Some(nat_value(tools.len() as u64)) && told.get("has_tools"@) == Some(
                JsonView::Bool(tools.len() > 0),
            )
            &&& conf.get("tools"@) is None ==> told.get("tool_count"@) == Some(nat_value(0))
                && told.get("has_tools"@) == Some(JsonView::Bool(false))
            &&& told.get("agent_ids"@) == Some(text_array(agents_of(bound)))
            &&& told.get("binding_count"@) == Some(nat_value(bound.len() as u64))
        }),
{
    let entries = channel_report((name, conf), bound)->Object_0;
    reveal_strlit("name");
    assert("name"@.len() == 4);
    reveal_strlit("enabled");
    assert("enabled"@.len() == 7);
    reveal_strlit("account_count");
    assert("account_count"@.len() == 13);
    reveal_strlit("tool_count");
    assert("tool_count"@.len() == 10);
    reveal_strlit("has_accounts");
    assert("has_accounts"@.len() == 12);
    reveal_strlit("has_tools");
    assert("has_tools"@.len() == 9);
    reveal_strlit("agent_ids");
    assert("agent_ids"@.len() == 9);
    reveal_strlit("binding_count");
    assert("binding_count"@.len() == 13);
    assert("has_tools"@[0] != "agent_ids"@[0]);
    assert("account_count"@[0] != "binding_count"@[0]);
    lemma_entry_value(entries, "name"@, 0);
    lemma_entry_value(entries, "enabled"@, 1);
    lemma_entry_value(entries, "account_count"@, 2);
    lemma_entry_value(entries, "tool_count"@, 3);
    lemma_entry_value(entries, "has_accounts"@, 4);
    lemma_entry_value(entries, "has_tools"@, 5);
    lemma_entry_value(entries, "agent_ids"@, 6);
    lemma_entry_value(entries, "binding_count"@, 7);
}

/// The report on an instance holds its agents, its channels and its jobs, one for each that
/// its files list, and each number is that of the list beside it.
pub proof fn law_info_reported(
    instance: InstanceConfig,
    data: JsonView,
    souls: Seq<SoulFile>,
    jobs: Seq<CronJobView>,
)
    ensures
        ({
            let told = instance_info(instance, data, souls, jobs);
            let ids = agent_ids(data);
            let names = channel_names(data);
            &&& told.get("name"@) == Some(JsonView::Str(instance.name@))
            &&& told.get("port"@) == Some(nat_value(instance.port as u64))
            &&& told.get("profile"@) == Some(int_or_null(instance.profile))
            &&& told.get("config_found"@) == Some(JsonView::Bool(true))
            &&& told.get("agents"@) matches Some(JsonView::Array(all)) && told.get("agent_count"@)
                == Some(nat_value(all.len() as u64)) && all.len() == listed_agents(data).len()
                && forall|i: int|
                0 <= i < all.len() ==> #[trigger] all[i] == agent_report(
                    listed_agents(data)[i],
                    data,
                    soul_view(
                        if i < souls.len() {
                            souls[i]
                        } else {
                            SoulFile::Missing
                        },
                    ),
                    bindings_of_agent(listed_bindings(data), ids, i),
                    jobs_of_agent(jobs, ids[i]),
                )
            &&& told.get("channels"@) matches Some(JsonView::Array(all)) && told.get(
                "channel_count"@,
            ) == Some(nat_value(all.len() as u64)) && all.len() == listed_channels(data).len()
                && forall|i: int|
                0 <= i < all.len() ==> #[trigger] all[i] == channel_report(
                    listed_channels(data)[i],
                    bindings_of_channel(listed_bindings(data), names, i),
                )
            &&& told.get("enabled_channel_names"@) matches Some(JsonView::Array(all)) && told.get(
                "enabled_channel_count"@,
            ) == Some(nat_value(all.len() as u64)) && told.get("enabled_channel_names"@) == Some(
                text_array(enabled_channels(data)),
            )
            &&& told.get("crons"@) matches Some(JsonView::Array(all)) && told.get("cron_count"@)
                == Some(nat_value(all.len() as u64)) && all.len() == jobs.len() && forall|i: int|
                0 <= i < all.len() ==> #[trigger] all[i] == jobs[i].report
            &&& told.get("enabled_cron_count"@) == Some(nat_value(enabled_count(jobs) as u64))
        }),
{
    let entries = instance_info(instance, data, souls, jobs)->Object_0;
    reveal_strlit("name");
    assert("name"@.len() == 4);
    reveal_strlit("port");
    assert("port"@.len() == 4);
    reveal_strlit("profile");
    assert("profile"@.len() == 7);
    reveal_strlit("config_found");
    assert("config_found"@.len() == 12);
    reveal_strlit("default_model");
    assert("default_model"@.len() == 13);
    reveal_strlit("agents");
    assert("agents"@.len() == 6);
    reveal_strlit("agent_count");
    assert("agent_count"@.len() == 11);
    reveal_strlit("channels");
    assert("channels"@.len() == 8);
    reveal_strlit("channel_count");
    assert("channel_count"@.len() == 13);
    reveal_strlit("enabled_channel_names");
    assert("enabled_channel_names"@.len() == 21);
    reveal_strlit("enabled_channel_count");
    assert("enabled_channel_count"@.len() == 21);
    reveal_strlit("crons");
    assert("crons"@.len() == 5);
    reveal_strlit("cron_count");
    assert("cron_count"@.len() == 10);
    reveal_strlit("enabled_cron_count");
    assert("enabled_cron_count"@.len() == 18);
    assert("name"@[0] != "port"@[0]);
    assert("default_model"@[0] != "channel_count"@[0]);
    assert("enabled_channel_names"@[16] != "enabled_channel_count"@[16]);
    lemma_entry_value(entries, "name"@, 0);
    lemma_entry_value(entries, "port"@, 1);
    lemma_entry_value(entries, "profile"@, 2);
    lemma_entry_value(entries, "config_found"@, 3);
    lemma_entry_value(entries, "default_model"@, 4);
    lemma_entry_value(entries, "agents"@, 5);
    lemma_entry_value(entries, "agent_count"@, 6);
    lemma_entry_value(entries, "channels"@, 7);
    lemma_entry_value(entries, "channel_count"@, 8);
    lemma_entry_value(entries, "enabled_channel_names"@, 9);
    lemma_entry_value(entries, "enabled_channel_count"@, 10);
    lemma_entry_value(entries, "crons"@, 11);
    lemma_entry_value(entries, "cron_count"@, 12);
    lemma_entry_value(entries, "enabled_cron_count"@, 13);
}

/// The jobs of an agent are those that name it, and the number of jobs that are switched on
/// grows with each such job and with no other.
pub proof fn law_jobs_chosen(jobs: Seq<CronJobView>, job: CronJobView, id: Seq<char>)
    ensures
        job.agent_id == Some(id) ==> jobs_of_agent(jobs.push(job), id) == jobs_of_agent(
            jobs,
            id,
        ).push(job),
        job.agent_id != Some(id) ==> jobs_of_agent(jobs.push(job), id) == jobs_of_agent(jobs, id),
        enabled_count(jobs.push(job)) == enabled_count(jobs) + if job.enabled {
            1nat
        } else {
            0
        },
        enabled_count(Seq::empty()) == 0,
        jobs_of_agent(Seq::empty(), id).len() == 0,
{
    reveal(Seq::filter);
    assert(jobs.push(job).drop_last() =~= jobs);
}

/// The agents and the channels of a file are those elements that are objects, in their order;
/// and the channels that are named as switched on are those of them that are.
pub proof fn law_listed(
    data: JsonView,
    section: JsonView,
    items: Seq<JsonView>,
    entries: Seq<(Seq<char>, JsonView)>,
    k: int,
)
    ensures
        data.get("agents"@) == Some(section) && section.get("list"@) == Some(
            JsonView::Array(items),
        ) && 0 <= k < items.len() ==> (listed_agents(data).contains(items[k]) <==> items[k] is Object),
        data.get("agents"@) is None ==> listed_agents(data).len() == 0,
        data.get("channels"@) == Some(JsonView::Object(entries)) && 0 <= k < entries.len() ==> {
            &&& listed_channels(data).contains(entries[k]) <==> entries[k].1 is Object
            &&& entries[k].1 is Object && entries[k].1.get("enabled"@) != Some(
                JsonView::Bool(false),
            ) ==> enabled_channels(data).contains(entries[k].0)
        },
        data.get("channels"@) is None ==> listed_channels(data).len() == 0,
        forall|j: int|
            0 <= j < enabled_channels(data).len() ==> exists|i: int|
                0 <= i < listed_channels(data).len() && (#[trigger] listed_channels(data)[i]).0
                    == #[trigger] enabled_channels(data)[j] && listed_channels(data)[i].1.get(
                    "enabled"@,
                ) != Some(JsonView::Bool(false)),
{
    let is_agent = |v: JsonView| v.is_object();
    let is_channel = |e: (Seq<char>, JsonView)| e.1.is_object();
    let is_on = |c: (Seq<char>, JsonView)| channel_enabled(c.1);
    if data.get("agents"@) == Some(section) && section.get("list"@) == Some(JsonView::Array(items))
        && 0 <= k < items.len() {
        if items[k] is Object {
            items.lemma_filter_contains(is_agent, k);
        }
        if listed_agents(data).contains(items[k]) {
            items.lemma_filter_pred(is_agent, listed_agents(data).index_of(items[k]));
        }
    }
    let channels = listed_channels(data);
    if data.get("channels"@) == Some(JsonView::Object(entries)) && 0 <= k < entries.len() {
        if entries[k].1 is Object {
            entries.lemma_filter_contains(is_channel, k);
            if entries[k].1.get("enabled"@) != Some(JsonView::Bool(false)) {
                let i = channels.index_of(entries[k]);
                channels.lemma_filter_contains(is_on, i);
                let j = channels.filter(is_on).index_of(entries[k]);
                assert(enabled_channels(data)[j] == entries[k].0);
            }
        }
        if channels.contains(entries[k]) {
            entries.lemma_filter_pred(is_channel, channels.index_of(entries[k]));
        }
    }
    assert forall|j: int| 0 <= j < enabled_channels(data).len() implies exists|i: int|
        0 <= i < channels.len() && (#[trigger] channels[i]).0
            == #[trigger] enabled_channels(data)[j] && channels[i].1.get("enabled"@) != Some(
            JsonView::Bool(false),
        ) by {
        channels.lemma_filter_pred(is_on, j);
        let one = channels.filter(is_on)[j];
        channels.lemma_filter_contains_rev(is_on, one);
        let i = channels.index_of(one);
        assert(channels[i].0 == enabled_channels(data)[j]);
    }
}

/// An instance whose file is not there, or holds no JSON, is reported as such, by its name
/// and port, and the latter with an error; otherwise it is reported from what the file holds.
pub proof fn law_file_reported(
    instance: InstanceConfig,
    file: InstanceFile,
    souls: Seq<SoulFile>,
    jobs: Seq<CronJobView>,
)
    ensures
        ({
            let told = report_on(instance, file, souls, jobs);
            let read = file matches InstanceFile::Text(t) && parsed_json(t@) is Some;
            &&& told.get("name"@) == Some(JsonView::Str(instance.name@))
            &&& told.get("port"@) == Some(nat_value(instance.port as u64))
            &&& told.get("profile"@) == Some(int_or_null(instance.profile))
            &&& told.get("config_found"@) == Some(JsonView::Bool(read))
            &&& file is NotFound ==> told.get("error"@) is None
            &&& !read && !(file is NotFound) ==> told.get("error"@) == Some(
                JsonView::Str("Failed to parse config"@),
            )
            &&& file matches InstanceFile::Text(t) ==> read ==> told == instance_info(
                instance,
                parsed_json(t@)->0,
                souls,
                jobs,
            )
        }),
{
    let read = file matches InstanceFile::Text(t) && parsed_json(t@) is Some;
    let entries = report_on(instance, file, souls, jobs)->Object_0;
    reveal_strlit("name");
    assert("name"@.len() == 4);
    reveal_strlit("port");
    assert("port"@.len() == 4);
    reveal_strlit("profile");
    assert("profile"@.len() == 7);
    reveal_strlit("config_found");
    assert("config_found"@.len() == 12);
    reveal_strlit("error");
    assert("error"@.len() == 5);
    if read {
        law_info_reported(instance, file_value(file)->0, souls, jobs);
    } else {
        assert("name"@[0] != "port"@[0]);
        lemma_entry_value(entries, "name"@, 0);
        lemma_entry_value(entries, "port"@, 1);
        lemma_entry_value(entries, "profile"@, 2);
        lemma_entry_value(entries, "config_found"@, 3);
        if file is NotFound {
            lemma_no_entry(entries, "error"@);
        } else {
            assert("error"@ != "port"@ && "error"@ != "name"@);
            lemma_entry_value(entries, "error"@, 4);
        }
    }
}

/// The file that describes an agent is looked for in its workspace under two names, the first
/// of which comes first; without a workspace there is none.
pub proof fn law_soul_sought(
    workspace: Option<Seq<char>>,
    home: Option<Seq<char>>,
    candidates: Seq<Seq<char>>,
    present: Seq<bool>,
    i: int,
)
    ensures
        workspace is None ==> soul_paths(workspace, home).len() == 0,
        workspace matches Some(w) ==> soul_paths(workspace, home) == seq![
            joined_path(shell_home_expanded(w, home), "SOUL.md"@),
            joined_path(shell_home_expanded(w, home), "soul.md"@),
        ],
        candidates.len() == present.len() && 0 <= i < present.len() && present[i] && (forall|j: int|
            0 <= j < i ==> !#[trigger] present[j]) ==> first_present(candidates, present) == Some(
            candidates[i],
        ),
        candidates.len() == present.len() && (forall|j: int|
            0 <= j < present.len() ==> !#[trigger] present[j]) ==> first_present(
            candidates,
            present,
        ) is None,
    decreases candidates.len(),
{
    if candidates.len() > 0 && candidates.len() == present.len() && !present[0] {
        let rest = present.drop_first();
        law_soul_sought(workspace, home, candidates.drop_first(), rest, i - 1);
        assert forall|j: int| 0 <= j < rest.len() implies #[trigger] rest[j] == present[j + 1] by {}
    }
}

/// The report on the file that describes an agent shows, where it was read, its whole text,
/// its first line that is not blank as its title, and at most eight such lines as a preview;
/// one that was not read is reported as not there, with the error where there was one.
pub proof fn law_soul_reported(soul: SoulFile)
    ensures
        ({
            let told = soul_view(soul);
            &&& told.get("exists"@) == Some(JsonView::Bool(soul is Read))
            &&& soul matches SoulFile::Read { path, content, updated_at } ==> {
                let all = filled_lines(content@);
                &&& told.get("path"@) == Some(JsonView::Str(path@))
                &&& told.get("content"@) == Some(JsonView::Str(content@))
                &&& told.get("updated_at"@) == Some(updated_at@)
                &&& all.len() > 0 ==> told.get("title"@) == Some(JsonView::Str(all[0]))
                &&& all.len() == 0 ==> told.get("title"@) == Some(JsonView::Str(Seq::empty()))
                &&& all.len() <= 8 ==> told.get("preview"@) == Some(
                    JsonView::Str(joined(all, "\n"@)),
                )
                &&& all.len() > 8 ==> told.get("preview"@) == Some(
                    JsonView::Str(joined(all.take(8), "\n"@)),
                )
            }
            &&& soul matches SoulFile::Unreadable { path, error } ==> told.get("path"@) == Some(
                JsonView::Str(path@),
            ) && told.get("error"@) == Some(JsonView::Str(error@)) && told.get("content"@) == Some(
                JsonView::Null,
            ) && told.get("preview"@) == Some(JsonView::Null) && told.get("title"@) == Some(
                text_or_null(file_name_of(path@)),
            )
            &&& soul is Missing ==> told.get("path"@) == Some(JsonView::Null) && told.get(
                "content"@,
            ) == Some(JsonView::Null) && told.get("title"@) == Some(JsonView::Null) && told.get(
                "preview"@,
            ) == Some(JsonView::Null)
        }),
{
    let entries = soul_view(soul)->Object_0;
    reveal_strlit("exists");
    assert("exists"@.len() == 6);
    reveal_strlit("path");
    assert("path"@.len() == 4);
    reveal_strlit("title");
    assert("title"@.len() == 5);
    reveal_strlit("content");
    assert("content"@.len() == 7);
    reveal_strlit("preview");
    assert("preview"@.len() == 7);
    reveal_strlit("updated_at");
    assert("updated_at"@.len() == 10);
    reveal_strlit("error");
    assert("error"@.len() == 5);
    assert("content"@[0] != "preview"@[0]);
    lemma_entry_value(entries, "exists"@, 0);
    lemma_entry_value(entries, "path"@, 1);
    lemma_entry_value(entries, "title"@, 2);
    lemma_entry_value(entries, "content"@, 3);
    lemma_entry_value(entries, "preview"@, 4);
    lemma_entry_value(entries, "updated_at"@, 5);
    if soul is Unreadable {
        assert("content"@[0] != "preview"@[0]);
        assert("title"@[0] != "error"@[0]);
        lemma_entry_value(entries, "error"@, 6);
    }
}

/// The lines that are shown of a text are those that are not blank, without the white space
/// around them, in their order.
pub proof fn law_lines_shown(content: Seq<char>, i: int)
    ensures
        0 <= i < lines(content).len() && trimmed(lines(content)[i]).len() > 0 ==> filled_lines(
            content,
        ).contains(trimmed(lines(content)[i])),
        0 <= i < filled_lines(content).len() ==> filled_lines(content)[i].len() > 0,
        filled_lines(content).len() <= lines(content).len(),
{
    let all = lines(content).map_values(|l: Seq<char>| trimmed(l));
    let pred = |l: Seq<char>| l.len() > 0;
    broadcast use Seq::lemma_filter_len;
    if 0 <= i < lines(content).len() && trimmed(lines(content)[i]).len() > 0 {
        assert(all[i] == trimmed(lines(content)[i]));
        all.lemma_filter_contains(pred, i);
    }
    if 0 <= i < filled_lines(content).len() {
        all.lemma_filter_pred(pred, i);
    }
}

/// The bindings are those that the configuration lists, in its order.
pub proof fn law_bindings_listed(data: JsonView, items: Seq<JsonView>)
    ensures
        data.get("bindings"@) == Some(JsonView::Array(items)) ==> listed_bindings(data)
            == bindings_in(items),
        data.get("bindings"@) is None ==> listed_bindings(data).len() == 0,
{
}

/// The soul of an agent is sought in its own workspace, or in the usual one where it has none;
/// and it is asked for under the identifier of the agent.
pub proof fn law_soul_requested(
    request: SoulRequest,
    agent: JsonView,
    data: JsonView,
    home: Option<Seq<char>>,
    section: JsonView,
    defaults: JsonView,
    id: Seq<char>,
    w: Seq<char>,
)
    requires
        asks_for(request, agent, data, home),
        w.len() > 0 && w[0] == '/' && w.last() != '/',
    ensures
        agent.get("id"@) == Some(JsonView::Str(id)) ==> request.agent_id@ == id,
        agent.get("workspace"@) == Some(JsonView::Str(w)) || (agent.get("workspace"@) is None
            && data.get("agents"@) == Some(section) && section.get("defaults"@) == Some(defaults)
            && defaults.get("workspace"@) == Some(JsonView::Str(w))) ==> request.candidates@.len()
            == 2 && request.candidates@[0]@ == w + "/SOUL.md"@ && request.candidates@[1]@ == w
            + "/soul.md"@,
        agent.get("workspace"@) is None && data.get("agents"@) is None
            ==> request.candidates@.len() == 0,
{
    reveal_strlit("~/");
    reveal_strlit("SOUL.md");
    reveal_strlit("soul.md");
    reveal_strlit("/SOUL.md");
    reveal_strlit("/soul.md");
    let paths = texts(request.candidates@);
    if begins_with(w, "~/"@) {
        assert(w.subrange(0, 2)[0] == '~');
    }
    assert(w + seq!['/'] + "SOUL.md"@ =~= w + "/SOUL.md"@);
    assert(w + seq!['/'] + "soul.md"@ =~= w + "/soul.md"@);
    assert(paths.len() == request.candidates@.len());
    if paths.len() == 2 {
        assert(paths[0] == request.candidates@[0]@);
        assert(paths[1] == request.candidates@[1]@);
    }
}

} // verus!
