//! Reports on instances.

use vstd::prelude::*;
use vstd::string::*;

use crate::clock::{format_uptime, uptime_value, Moment};
use crate::commands::{enabled_instances, enabled_of, law_enabled};
use crate::config::{InstanceConfig, InstanceState};
use crate::json::{
    bool_or_null, empty_array, empty_object, int_or_null, int_value, json_array, json_int, json_nat,
    json_opt, json_opt_bool, json_opt_int, json_text, json_views, lemma_entry_value, nat_value,
    opt_json_view, value_or, value_or_null, Fields, Json, JsonView,
};
use crate::numbers::{hundredths_or_null, json_hundredths, json_opt_moment, moment_or_null};
use crate::probe::{desired_state, desired_state_of, meant_to_run};
use crate::text::{cat3, same};

verus! {

// ---------------------------------------------------------------------------
// Instances by name
// ---------------------------------------------------------------------------

/// Whether the instance at position `i` is the first with the name.
pub open spec fn is_named(instances: Seq<InstanceConfig>, name: Seq<char>, i: int) -> bool {
    &&& 0 <= i < instances.len()
    &&& instances[i].name@ == name
    &&& forall|j: int| 0 <= j < i ==> (#[trigger] instances[j]).name@ != name
}

/// Whether no instance has the name.
pub open spec fn none_named(instances: Seq<InstanceConfig>, name: Seq<char>) -> bool {
    forall|i: int| 0 <= i < instances.len() ==> (#[trigger] instances[i]).name@ != name
}

/// The answer that tells what is wrong with a request.
pub open spec fn detail_report(detail: Seq<char>) -> JsonView {
    JsonView::Object(seq![("detail"@, JsonView::Str(detail))])
}

/// The answer that tells what is wrong with a request.
pub fn json_detail(detail: String) -> (r: Json)
    ensures
        r@ == detail_report(detail@),
{
    let ghost goal = detail_report(detail@);
    let mut f = Fields::new();
    f.put("detail", Json::Str(detail));
    assert(f@ == goal->Object_0);
    f.object()
}

/// The answer to a request for something that is not there.
pub fn not_found(kind: &str, name: &str) -> (r: Json)
    ensures
        r@ == detail_report(kind@ + " '"@ + name@ + "' not found"@),
{
    let mut detail = cat3(kind, " '", name);
    detail.append("' not found");
    json_detail(detail)
}

/// The first instance with the name, or the answer to a request for one that is not
/// there.
pub fn get_instance_or_404<'a>(instances: &'a Vec<InstanceConfig>, name: &str) -> (r: Result<
    &'a InstanceConfig,
    Json,
>)
    ensures
        match r {
            Ok(inst) => exists|i: int| is_named(instances@, name@, i) && instances@[i] == *inst,
            Err(answer) => {
                &&& none_named(instances@, name@)
                &&& answer@ == detail_report("Instance"@ + " '"@ + name@ + "' not found"@)
            },
        },
{
    let mut i: usize = 0;
    while i < instances.len()
        invariant
            i <= instances@.len(),
            forall|j: int| 0 <= j < i ==> (#[trigger] instances@[j]).name@ != name@,
        decreases instances@.len() - i,
    {
        if same(instances[i].name.as_str(), name) {
            assert(is_named(instances@, name@, i as int));
            return Ok(&instances[i]);
        }
        i = i + 1;
    }
    Err(not_found("Instance", name))
}

// ---------------------------------------------------------------------------
// The state of an instance
// ---------------------------------------------------------------------------

/// The state of an instance in a word: running where it is up, and otherwise stopped
/// where it is meant to be, degraded where it is known to be down, and unknown.
pub open spec fn current_state_of(online: Option<bool>, desired: Seq<char>) -> Seq<char> {
    if online == Some(true) {
        "running"@
    } else if desired == "stopped"@ {
        "stopped"@
    } else if online == Some(false) {
        "degraded"@
    } else {
        "unknown"@
    }
}

/// The state of an instance in a word.
pub fn current_state(online: Option<bool>, desired: &str) -> (r: &'static str)
    ensures
        r@ == current_state_of(online, desired@),
{
    match online {
        Some(true) => "running",
        Some(false) => if same(desired, "stopped") {
            "stopped"
        } else {
            "degraded"
        },
        None => if same(desired, "stopped") {
            "stopped"
        } else {
            "unknown"
        },
    }
}

/// What is reported of the lifecycle of an instance.
pub open spec fn lifecycle_entries(online: Option<bool>, lifecycle: JsonView) -> Seq<
    (Seq<char>, JsonView),
> {
    let desired = desired_state_of(lifecycle);
    seq![
        ("desired_state"@, JsonView::Str(desired)),
        ("current_state"@, JsonView::Str(current_state_of(online, desired))),
        ("updated_at"@, value_or_null(lifecycle.get("updated_at"@))),
        ("last_action"@, value_or_null(lifecycle.get("last_action"@))),
        ("last_action_status"@, value_or_null(lifecycle.get("last_action_status"@))),
        ("last_action_at"@, value_or_null(lifecycle.get("last_action_at"@))),
        ("last_action_message"@, value_or_null(lifecycle.get("last_action_message"@))),
        ("auto_restart_enabled"@, JsonView::Bool(desired == "running"@)),
    ]
}

fn report_lifecycle(online: Option<bool>, lifecycle: &Json) -> (r: Json)
    ensures
        r@ == JsonView::Object(lifecycle_entries(online, lifecycle@)),
{
    let desired = desired_state(lifecycle);
    let mut f = Fields::new();
    f.put("desired_state", json_text(desired));
    f.put("current_state", json_text(current_state(online, desired)));
    f.put("updated_at", json_opt(lifecycle.get("updated_at")));
    f.put("last_action", json_opt(lifecycle.get("last_action")));
    f.put("last_action_status", json_opt(lifecycle.get("last_action_status")));
    f.put("last_action_at", json_opt(lifecycle.get("last_action_at")));
    f.put("last_action_message", json_opt(lifecycle.get("last_action_message")));
    f.put("auto_restart_enabled", Json::Bool(same(desired, "running")));
    assert(f@ == lifecycle_entries(online, lifecycle@));
    f.object()
}

// ---------------------------------------------------------------------------
// Reports
// ---------------------------------------------------------------------------

/// The list under a key of the report of the collector, or an empty one.
pub open spec fn list_at(info: JsonView, key: Seq<char>) -> JsonView {
    value_or(info.get(key), empty_array())
}

/// The number under a key of the report of the collector, or zero.
pub open spec fn number_at(info: JsonView, key: Seq<char>) -> JsonView {
    int_value(value_or(info.i64_at(key), 0))
}

fn list_in(info: &Json, key: &str) -> (r: Json)
    ensures
        r@ == list_at(info@, key@),
{
    match info.get(key) {
        Some(v) => v.copy(),
        None => {
            let none: Vec<Json> = Vec::new();
            assert(json_views(none@) =~= Seq::<JsonView>::empty());
            json_array(none)
        },
    }
}

fn number_in(info: &Json, key: &str) -> (r: Json)
    ensures
        r@ == number_at(info@, key@),
{
    match info.i64_at(key) {
        Some(n) => json_int(n),
        None => json_int(0),
    }
}

/// What is known of an instance beside its configuration.
pub struct Known {
    pub state: InstanceState,
    pub lifecycle: Json,
    pub last_restart: Option<Json>,
}

/// The report on an instance in the list of instances.
pub open spec fn instance_report(
    inst: InstanceConfig,
    known: Known,
    info: JsonView,
    now: Moment,
) -> JsonView {
    let s = known.state;
    JsonView::Object(
        seq![
            ("name"@, JsonView::Str(inst.name@)),
            ("port"@, nat_value(inst.port as u64)),
            ("profile"@, int_or_null(inst.profile)),
            ("enabled"@, JsonView::Bool(inst.enabled)),
            ("online"@, bool_or_null(s.online)),
            ("uptime_since"@, moment_or_null(s.uptime_since)),
            ("uptime"@, uptime_value(s.uptime_since, now)),
            ("last_check"@, moment_or_null(s.last_check)),
            ("last_response_time_ms"@, hundredths_or_null(s.last_response_time)),
            ("last_status_code"@, status_value(s.last_status_code)),
            ("consecutive_failures"@, nat_value(s.consecutive_failures as u64)),
            ("default_model"@, value_or_null(info.get("default_model"@))),
            ("agent_count"@, number_at(info, "agent_count"@)),
            ("agents"@, list_at(info, "agents"@)),
            ("channels"@, list_at(info, "channels"@)),
            ("channel_count"@, number_at(info, "channel_count"@)),
            ("enabled_channel_names"@, list_at(info, "enabled_channel_names"@)),
            ("enabled_channel_count"@, number_at(info, "enabled_channel_count"@)),
            ("crons"@, list_at(info, "crons"@)),
            ("cron_count"@, number_at(info, "cron_count"@)),
            ("enabled_cron_count"@, number_at(info, "enabled_cron_count"@)),
            ("config_found"@, JsonView::Bool(value_or(info.bool_at("config_found"@), false))),
            ("last_restart"@, value_or_null(opt_json_view(known.last_restart))),
            (
                "lifecycle"@,
                JsonView::Object(lifecycle_entries(s.online, known.lifecycle@)),
            ),
        ],
    )
}

/// The JSON number of an HTTP status, or null.
pub open spec fn status_value(status: Option<u16>) -> JsonView {
    match status {
        Some(s) => nat_value(s as u64),
        None => JsonView::Null,
    }
}

fn status_json(status: Option<u16>) -> (r: Json)
    ensures
        r@ == status_value(status),
{
    match status {
        Some(s) => json_nat(s as u64),
        None => Json::Null,
    }
}

fn opt_copy(o: &Option<Json>) -> (r: Json)
    ensures
        r@ == value_or_null(opt_json_view(*o)),
{
    match o {
        Some(v) => v.copy(),
        None => Json::Null,
    }
}

/// The report on an instance in the list of instances.
pub fn report_instance(inst: &InstanceConfig, known: &Known, info: &Json, now: Moment) -> (r: Json)
    ensures
        r@ == instance_report(*inst, *known, info@, now),
{
    let s = &known.state;
    let found = match info.bool_at("config_found") {
        Some(b) => b,
        None => false,
    };
    let mut f = Fields::new();
    f.put("name", json_text(inst.name.as_str()));
    f.put("port", json_nat(inst.port as u64));
    f.put("profile", json_opt_int(inst.profile));
    f.put("enabled", Json::Bool(inst.enabled));
    f.put("online", json_opt_bool(s.online));
    f.put("uptime_since", json_opt_moment(s.uptime_since));
    f.put("uptime", format_uptime(s.uptime_since, now));
    f.put("last_check", json_opt_moment(s.last_check));
    f.put("last_response_time_ms", json_hundredths(s.last_response_time));
    f.put("last_status_code", status_json(s.last_status_code));
    f.put("consecutive_failures", json_nat(s.consecutive_failures as u64));
    f.put("default_model", json_opt(info.get("default_model")));
    f.put("agent_count", number_in(info, "agent_count"));
    f.put("agents", list_in(info, "agents"));
    f.put("channels", list_in(info, "channels"));
    f.put("channel_count", number_in(info, "channel_count"));
    f.put("enabled_channel_names", list_in(info, "enabled_channel_names"));
    f.put("enabled_channel_count", number_in(info, "enabled_channel_count"));
    f.put("crons", list_in(info, "crons"));
    f.put("cron_count", number_in(info, "cron_count"));
    f.put("enabled_cron_count", number_in(info, "enabled_cron_count"));
    f.put("config_found", Json::Bool(found));
    f.put("last_restart", opt_copy(&known.last_restart));
    f.put("lifecycle", report_lifecycle(s.online, &known.lifecycle));
    assert(f@ == instance_report(*inst, *known, info@, now)->Object_0);
    f.object()
}

/// The report of the collector on the instance with the name: the last one, or an
/// empty one where there is none.
pub open spec fn info_of(infos: Seq<JsonView>, name: Seq<char>) -> JsonView
    decreases infos.len(),
{
    if infos.len() == 0 {
        empty_object()
    } else if infos.last().str_at("name"@) == Some(name) {
        infos.last()
    } else {
        info_of(infos.drop_last(), name)
    }
}

fn find_info(infos: &Vec<Json>, name: &str) -> (r: Json)
    ensures
        r@ == info_of(json_views(infos@), name@),
{
    let ghost all = json_views(infos@);
    let mut n: usize = infos.len();
    assert(all.take(n as int) =~= all);
    while n > 0
        invariant
            n <= infos@.len(),
            all == json_views(infos@),
            info_of(all.take(n as int), name@) == info_of(all, name@),
        decreases n,
    {
        assert(all.take(n as int).last() == infos@[n - 1]@);
        assert(all.take(n as int).drop_last() =~= all.take(n - 1));
        let found = match infos[n - 1].str_at("name") {
            Some(s) => same(s, name),
            None => false,
        };
        if found {
            return infos[n - 1].copy();
        }
        n = n - 1;
    }
    Fields::new().object()
}

/// The reports on the instances that are switched on. `known` holds what is known of
/// each of them, `infos` the reports of the collector.
pub open spec fn instance_reports(
    instances: Seq<InstanceConfig>,
    known: Seq<Known>,
    infos: Seq<JsonView>,
    now: Moment,
) -> Seq<JsonView> {
    let enabled = enabled_of(instances);
    Seq::new(
        enabled.len(),
        |i: int| instance_report(enabled[i], known[i], info_of(infos, enabled[i].name@), now),
    )
}

/// The reports on the instances that are switched on.
pub fn collect_instances_payload(
    instances: &Vec<InstanceConfig>,
    known: &Vec<Known>,
    infos: &Vec<Json>,
    now: Moment,
) -> (r: Vec<Json>)
    requires
        known@.len() == enabled_of(instances@).len(),
    ensures
        json_views(r@) == instance_reports(instances@, known@, json_views(infos@), now),
{
    let enabled = enabled_instances(instances);
    let ghost goal = instance_reports(instances@, known@, json_views(infos@), now);
    let mut out: Vec<Json> = Vec::new();
    let mut i: usize = 0;
    while i < enabled.len()
        invariant
            i <= enabled@.len(),
            enabled@ == enabled_of(instances@),
            known@.len() == enabled@.len(),
            goal == instance_reports(instances@, known@, json_views(infos@), now),
            out@.len() == i,
            forall|k: int| 0 <= k < i ==> (#[trigger] out@[k])@ == goal[k],
        decreases enabled@.len() - i,
    {
        let info = find_info(infos, enabled[i].name.as_str());
        out.push(report_instance(&enabled[i], &known[i], &info, now));
        i = i + 1;
    }
    assert(json_views(out@) =~= goal);
    out
}

/// The answer that lists instances.
pub fn list_instances(reports: Vec<Json>) -> (r: Json)
    ensures
        r@ == JsonView::Object(seq![("instances"@, JsonView::Array(json_views(reports@)))]),
{
    let ghost goal = JsonView::Object(
        seq![("instances"@, JsonView::Array(json_views(reports@)))],
    );
    let mut f = Fields::new();
    f.put("instances", json_array(reports));
    assert(f@ == goal->Object_0);
    f.object()
}

/// The report on a single instance.
pub open spec fn instance_detail(
    inst: InstanceConfig,
    state: InstanceState,
    info: JsonView,
    lifecycle: JsonView,
    probes: Seq<JsonView>,
    restarts: Seq<JsonView>,
    now: Moment,
) -> JsonView {
    JsonView::Object(
        seq![
            ("name"@, JsonView::Str(inst.name@)),
            ("port"@, nat_value(inst.port as u64)),
            ("profile"@, int_or_null(inst.profile)),
            ("enabled"@, JsonView::Bool(inst.enabled)),
            ("online"@, bool_or_null(state.online)),
            ("uptime_since"@, moment_or_null(state.uptime_since)),
            ("uptime"@, uptime_value(state.uptime_since, now)),
            ("last_check"@, moment_or_null(state.last_check)),
            ("last_response_time_ms"@, hundredths_or_null(state.last_response_time)),
            ("consecutive_failures"@, nat_value(state.consecutive_failures as u64)),
            ("info"@, info),
            ("channel_count"@, number_at(info, "channel_count"@)),
            ("enabled_channel_names"@, list_at(info, "enabled_channel_names"@)),
            ("enabled_channel_count"@, number_at(info, "enabled_channel_count"@)),
            ("crons"@, list_at(info, "crons"@)),
            ("cron_count"@, number_at(info, "cron_count"@)),
            ("enabled_cron_count"@, number_at(info, "enabled_cron_count"@)),
            ("lifecycle"@, JsonView::Object(lifecycle_entries(state.online, lifecycle))),
            ("probe_history"@, JsonView::Array(probes)),
            ("restart_history"@, JsonView::Array(restarts)),
        ],
    )
}

/// The report on a single instance.
pub fn report_instance_detail(
    inst: &InstanceConfig,
    state: &InstanceState,
    info: &Json,
    lifecycle: &Json,
    probes: Vec<Json>,
    restarts: Vec<Json>,
    now: Moment,
) -> (r: Json)
    ensures
        r@ == instance_detail(
            *inst,
            *state,
            info@,
            lifecycle@,
            json_views(probes@),
            json_views(restarts@),
            now,
        ),
{
    let ghost goal = instance_detail(
        *inst,
        *state,
        info@,
        lifecycle@,
        json_views(probes@),
        json_views(restarts@),
        now,
    );
    let mut f = Fields::new();
    f.put("name", json_text(inst.name.as_str()));
    f.put("port", json_nat(inst.port as u64));
    f.put("profile", json_opt_int(inst.profile));
    f.put("enabled", Json::Bool(inst.enabled));
    f.put("online", json_opt_bool(state.online));
    f.put("uptime_since", json_opt_moment(state.uptime_since));
    f.put("uptime", format_uptime(state.uptime_since, now));
    f.put("last_check", json_opt_moment(state.last_check));
    f.put("last_response_time_ms", json_hundredths(state.last_response_time));
    f.put("consecutive_failures", json_nat(state.consecutive_failures as u64));
    f.put("info", info.copy());
    f.put("channel_count", number_in(info, "channel_count"));
    f.put("enabled_channel_names", list_in(info, "enabled_channel_names"));
    f.put("enabled_channel_count", number_in(info, "enabled_channel_count"));
    f.put("crons", list_in(info, "crons"));
    f.put("cron_count", number_in(info, "cron_count"));
    f.put("enabled_cron_count", number_in(info, "enabled_cron_count"));
    f.put("lifecycle", report_lifecycle(state.online, lifecycle));
    f.put("probe_history", json_array(probes));
    f.put("restart_history", json_array(restarts));
    assert(f@ == goal->Object_0);
    f.object()
}

/// An instance is reported as running exactly where it is up, whatever it is meant to
/// do, and as stopped exactly where it is not up and is meant to be stopped; restarts of
/// itself are reported exactly where it is meant to run.
pub proof fn law_state_reported(online: Option<bool>, lifecycle: JsonView)
    ensures
        ({
            let report = lifecycle_entries(online, lifecycle);
            let running = ("current_state"@, JsonView::Str("running"@));
            let stopped = ("current_state"@, JsonView::Str("stopped"@));
            &&& report[1] == running <==> online == Some(true)
            &&& report[1] == stopped <==> online != Some(true) && desired_state_of(lifecycle)
                == "stopped"@
            &&& report[7] == ("auto_restart_enabled"@, JsonView::Bool(meant_to_run(lifecycle)))
        }),
{
    reveal_strlit("running");
    reveal_strlit("stopped");
    reveal_strlit("degraded");
    reveal_strlit("unknown");
    assert("running"@[0] != "stopped"@[0]);
    assert("running"@.len() != "degraded"@.len());
    assert("running"@[0] != "unknown"@[0]);
    assert("stopped"@.len() != "degraded"@.len());
    assert("stopped"@[0] != "unknown"@[0]);
}

/// What is reported of the lifecycle of an instance: what is asked of it, running where
/// nothing else is; its state in a word, by that and by whether it is up; and what is stored
/// of the last action on it.
pub proof fn law_lifecycle_reported(online: Option<bool>, lifecycle: JsonView, asked: Seq<char>)
    ensures
        ({
            let told = JsonView::Object(lifecycle_entries(online, lifecycle));
            let word = told.get("current_state"@);
            let stored = lifecycle.get("desired_state"@);
            &&& stored == Some(JsonView::Str(asked)) ==> {
                &&& told.get("desired_state"@) == Some(JsonView::Str(asked))
                &&& told.get("auto_restart_enabled"@) == Some(JsonView::Bool(asked == "running"@))
                &&& online == Some(true) ==> word == Some(JsonView::Str("running"@))
                &&& online != Some(true) && asked == "stopped"@ ==> word == Some(
                    JsonView::Str("stopped"@),
                )
                &&& online == Some(false) && asked != "stopped"@ ==> word == Some(
                    JsonView::Str("degraded"@),
                )
                &&& online is None && asked != "stopped"@ ==> word == Some(
                    JsonView::Str("unknown"@),
                )
            }
            &&& stored is None ==> {
                &&& told.get("desired_state"@) == Some(JsonView::Str("running"@))
                &&& told.get("auto_restart_enabled"@) == Some(JsonView::Bool(true))
                &&& online == Some(true) ==> word == Some(JsonView::Str("running"@))
                &&& online == Some(false) ==> word == Some(JsonView::Str("degraded"@))
                &&& online is None ==> word == Some(JsonView::Str("unknown"@))
            }
            &&& told.get("updated_at"@) == Some(value_or_null(lifecycle.get("updated_at"@)))
            &&& told.get("last_action"@) == Some(value_or_null(lifecycle.get("last_action"@)))
            &&& told.get("last_action_status"@) == Some(
                value_or_null(lifecycle.get("last_action_status"@)),
            )
            &&& told.get("last_action_at"@) == Some(
                value_or_null(lifecycle.get("last_action_at"@)),
            )
            &&& told.get("last_action_message"@) == Some(
                value_or_null(lifecycle.get("last_action_message"@)),
            )
        }),
{
    let entries = lifecycle_entries(online, lifecycle);
    reveal_strlit("desired_state");
    assert("desired_state"@.len() == 13);
    reveal_strlit("current_state");
    assert("current_state"@.len() == 13);
    reveal_strlit("updated_at");
    assert("updated_at"@.len() == 10);
    reveal_strlit("last_action");
    assert("last_action"@.len() == 11);
    reveal_strlit("last_action_status");
    assert("last_action_status"@.len() == 18);
    reveal_strlit("last_action_at");
    assert("last_action_at"@.len() == 14);
    reveal_strlit("last_action_message");
    assert("last_action_message"@.len() == 19);
    reveal_strlit("auto_restart_enabled");
    assert("auto_restart_enabled"@.len() == 20);
    reveal_strlit("running");
    assert("running"@.len() == 7);
    reveal_strlit("stopped");
    assert("stopped"@.len() == 7);
    assert("desired_state"@[0] != "current_state"@[0]);
    lemma_entry_value(entries, "desired_state"@, 0);
    lemma_entry_value(entries, "current_state"@, 1);
    lemma_entry_value(entries, "updated_at"@, 2);
    lemma_entry_value(entries, "last_action"@, 3);
    lemma_entry_value(entries, "last_action_status"@, 4);
    lemma_entry_value(entries, "last_action_at"@, 5);
    lemma_entry_value(entries, "last_action_message"@, 6);
    lemma_entry_value(entries, "auto_restart_enabled"@, 7);
    assert("running"@[0] != "stopped"@[0]);
}

/// The report on an instance in the list shows what its configuration says, what its probes
/// have found, and what the collector has read of it, each under its own name; what was not
/// read is an empty list, or zero.
pub proof fn law_instance_reported(
    inst: InstanceConfig,
    known: Known,
    info: JsonView,
    now: Moment,
    n: i64,
)
    ensures
        ({
            let told = instance_report(inst, known, info, now);
            &&& told.get("name"@) == Some(JsonView::Str(inst.name@))
            &&& told.get("port"@) == Some(nat_value(inst.port as u64))
            &&& told.get("profile"@) == Some(int_or_null(inst.profile))
            &&& told.get("enabled"@) == Some(JsonView::Bool(inst.enabled))
            &&& told.get("online"@) == Some(
                match known.state.online {
                    Some(b) => JsonView::Bool(b),
                    None => JsonView::Null,
                },
            )
            &&& told.get("uptime_since"@) == Some(moment_or_null(known.state.uptime_since))
            &&& told.get("uptime"@) == Some(uptime_value(known.state.uptime_since, now))
            &&& told.get("last_check"@) == Some(moment_or_null(known.state.last_check))
            &&& told.get("last_response_time_ms"@) == Some(
                hundredths_or_null(known.state.last_response_time),
            )
            &&& told.get("consecutive_failures"@) == Some(
                nat_value(known.state.consecutive_failures as u64),
            )
            &&& told.get("last_status_code"@) == Some(
                match known.state.last_status_code {
                    Some(c) => nat_value(c as u64),
                    None => JsonView::Null,
                },
            )
            &&& told.get("default_model"@) == Some(value_or_null(info.get("default_model"@)))
            &&& told.get("config_found"@) == Some(
                JsonView::Bool(info.get("config_found"@) == Some(JsonView::Bool(true))),
            )
            &&& told.get("last_restart"@) == Some(
                match known.last_restart {
                    Some(r) => r@,
                    None => JsonView::Null,
                },
            )
            &&& told.get("lifecycle"@) == Some(
                JsonView::Object(lifecycle_entries(known.state.online, known.lifecycle@)),
            )
            &&& told.get("agents"@) == Some(
                match info.get("agents"@) {
                    Some(v) => v,
                    None => JsonView::Array(Seq::empty()),
                },
            )
            &&& told.get("channels"@) == Some(
                match info.get("channels"@) {
                    Some(v) => v,
                    None => JsonView::Array(Seq::empty()),
                },
            )
            &&& told.get("enabled_channel_names"@) == Some(
                match info.get("enabled_channel_names"@) {
                    Some(v) => v,
                    None => JsonView::Array(Seq::empty()),
                },
            )
            &&& told.get("crons"@) == Some(
                match info.get("crons"@) {
                    Some(v) => v,
                    None => JsonView::Array(Seq::empty()),
                },
            )
            &&& info.get("agent_count"@) == Some(int_value(n)) ==> told.get("agent_count"@) == Some(
                int_value(n),
            )
            &&& info.get("agent_count"@) is None ==> told.get("agent_count"@) == Some(int_value(0))
            &&& info.get("channel_count"@) == Some(int_value(n)) ==> told.get("channel_count"@) == Some(
                int_value(n),
            )
            &&& info.get("channel_count"@) is None ==> told.get("channel_count"@) == Some(int_value(0))
            &&& info.get("enabled_channel_count"@) == Some(int_value(n)) ==> told.get("enabled_channel_count"@) == Some(
                int_value(n),
            )
            &&& info.get("enabled_channel_count"@) is None ==> told.get("enabled_channel_count"@) == Some(int_value(0))
            &&& info.get("cron_count"@) == Some(int_value(n)) ==> told.get("cron_count"@) == Some(
                int_value(n),
            )
            &&& info.get("cron_count"@) is None ==> told.get("cron_count"@) == Some(int_value(0))
            &&& info.get("enabled_cron_count"@) == Some(int_value(n)) ==> told.get("enabled_cron_count"@) == Some(
                int_value(n),
            )
            &&& info.get("enabled_cron_count"@) is None ==> told.get("enabled_cron_count"@) == Some(int_value(0))
        }),
{
    let entries = instance_report(inst, known, info, now)->Object_0;
    reveal_strlit("name");
    assert("name"@.len() == 4);
    reveal_strlit("port");
    assert("port"@.len() == 4);
    reveal_strlit("profile");
    assert("profile"@.len() == 7);
    reveal_strlit("enabled");
    assert("enabled"@.len() == 7);
    reveal_strlit("online");
    assert("online"@.len() == 6);
    reveal_strlit("uptime_since");
    assert("uptime_since"@.len() == 12);
    reveal_strlit("uptime");
    assert("uptime"@.len() == 6);
    reveal_strlit("last_check");
    assert("last_check"@.len() == 10);
    reveal_strlit("last_response_time_ms");
    assert("last_response_time_ms"@.len() == 21);
    reveal_strlit("last_status_code");
    assert("last_status_code"@.len() == 16);
    reveal_strlit("consecutive_failures");
    assert("consecutive_failures"@.len() == 20);
    reveal_strlit("default_model");
    assert("default_model"@.len() == 13);
    reveal_strlit("agent_count");
    assert("agent_count"@.len() == 11);
    reveal_strlit("agents");
    assert("agents"@.len() == 6);
    reveal_strlit("channels");
    assert("channels"@.len() == 8);
    reveal_strlit("channel_count");
    assert("channel_count"@.len() == 13);
    reveal_strlit("enabled_channel_names");
    assert("enabled_channel_names"@.len() == 21);
    reveal_strlit("enabled_channel_count");
    assert("enabled_channel_count"@.len() == 21);
    reveal_strlit("crons");
    assert("crons"@.len() == 5);
    reveal_strlit("cron_count");
    assert("cron_count"@.len() == 10);
    reveal_strlit("enabled_cron_count");
    assert("enabled_cron_count"@.len() == 18);
    reveal_strlit("config_found");
    assert("config_found"@.len() == 12);
    reveal_strlit("last_restart");
    assert("last_restart"@.len() == 12);
    reveal_strlit("lifecycle");
    assert("lifecycle"@.len() == 9);
    assert("name"@[0] != "port"@[0]);
    assert("profile"@[0] != "enabled"@[0]);
    assert("online"@[0] != "uptime"@[0]);
    assert("online"@[0] != "agents"@[0]);
    assert("uptime"@[0] != "agents"@[0]);
    assert("default_model"@[0] != "channel_count"@[0]);
    assert("last_response_time_ms"@[0] != "enabled_channel_names"@[0]);
    assert("last_response_time_ms"@[0] != "enabled_channel_count"@[0]);
    assert("enabled_channel_names"@[16] != "enabled_channel_count"@[16]);
    assert("last_check"@[0] != "cron_count"@[0]);
    assert("uptime_since"@[0] != "config_found"@[0]);
    assert("uptime_since"@[0] != "last_restart"@[0]);
    assert("config_found"@[0] != "last_restart"@[0]);
    lemma_entry_value(entries, "name"@, 0);
    lemma_entry_value(entries, "port"@, 1);
    lemma_entry_value(entries, "profile"@, 2);
    lemma_entry_value(entries, "enabled"@, 3);
    lemma_entry_value(entries, "online"@, 4);
    lemma_entry_value(entries, "uptime_since"@, 5);
    lemma_entry_value(entries, "uptime"@, 6);
    lemma_entry_value(entries, "last_check"@, 7);
    lemma_entry_value(entries, "last_response_time_ms"@, 8);
    lemma_entry_value(entries, "last_status_code"@, 9);
    lemma_entry_value(entries, "consecutive_failures"@, 10);
    lemma_entry_value(entries, "default_model"@, 11);
    lemma_entry_value(entries, "agent_count"@, 12);
    lemma_entry_value(entries, "agents"@, 13);
    lemma_entry_value(entries, "channels"@, 14);
    lemma_entry_value(entries, "channel_count"@, 15);
    lemma_entry_value(entries, "enabled_channel_names"@, 16);
    lemma_entry_value(entries, "enabled_channel_count"@, 17);
    lemma_entry_value(entries, "crons"@, 18);
    lemma_entry_value(entries, "cron_count"@, 19);
    lemma_entry_value(entries, "enabled_cron_count"@, 20);
    lemma_entry_value(entries, "config_found"@, 21);
    lemma_entry_value(entries, "last_restart"@, 22);
    lemma_entry_value(entries, "lifecycle"@, 23);
}

/// The report on a single instance shows the same, and the whole of what the collector has
/// read, with the histories of its probes and of its restarts.
pub proof fn law_detail_reported(
    inst: InstanceConfig,
    state: InstanceState,
    info: JsonView,
    lifecycle: JsonView,
    probes: Seq<JsonView>,
    restarts: Seq<JsonView>,
    now: Moment,
    n: i64,
)
    ensures
        ({
            let told = instance_detail(inst, state, info, lifecycle, probes, restarts, now);
            &&& told.get("name"@) == Some(JsonView::Str(inst.name@))
            &&& told.get("port"@) == Some(nat_value(inst.port as u64))
            &&& told.get("profile"@) == Some(int_or_null(inst.profile))
            &&& told.get("enabled"@) == Some(JsonView::Bool(inst.enabled))
            &&& told.get("online"@) == Some(
                match state.online {
                    Some(b) => JsonView::Bool(b),
                    None => JsonView::Null,
                },
            )
            &&& told.get("uptime_since"@) == Some(moment_or_null(state.uptime_since))
            &&& told.get("uptime"@) == Some(uptime_value(state.uptime_since, now))
            &&& told.get("last_check"@) == Some(moment_or_null(state.last_check))
            &&& told.get("last_response_time_ms"@) == Some(
                hundredths_or_null(state.last_response_time),
            )
            &&& told.get("consecutive_failures"@) == Some(
                nat_value(state.consecutive_failures as u64),
            )
            &&& told.get("info"@) == Some(info)
            &&& told.get("lifecycle"@) == Some(
                JsonView::Object(lifecycle_entries(state.online, lifecycle)),
            )
            &&& told.get("probe_history"@) == Some(JsonView::Array(probes))
            &&& told.get("restart_history"@) == Some(JsonView::Array(restarts))
            &&& told.get("enabled_channel_names"@) == Some(
                match info.get("enabled_channel_names"@) {
                    Some(v) => v,
                    None => JsonView::Array(Seq::empty()),
                },
            )
            &&& told.get("crons"@) == Some(
                match info.get("crons"@) {
                    Some(v) => v,
                    None => JsonView::Array(Seq::empty()),
                },
            )
            &&& info.get("channel_count"@) == Some(int_value(n)) ==> told.get("channel_count"@) == Some(
                int_value(n),
            )
            &&& info.get("channel_count"@) is None ==> told.get("channel_count"@) == Some(int_value(0))
            &&& info.get("enabled_channel_count"@) == Some(int_value(n)) ==> told.get("enabled_channel_count"@) == Some(
                int_value(n),
            )
            &&& info.get("enabled_channel_count"@) is None ==> told.get("enabled_channel_count"@) == Some(int_value(0))
            &&& info.get("cron_count"@) == Some(int_value(n)) ==> told.get("cron_count"@) == Some(
                int_value(n),
            )
            &&& info.get("cron_count"@) is None ==> told.get("cron_count"@) == Some(int_value(0))
            &&& info.get("enabled_cron_count"@) == Some(int_value(n)) ==> told.get("enabled_cron_count"@) == Some(
                int_value(n),
            )
            &&& info.get("enabled_cron_count"@) is None ==> told.get("enabled_cron_count"@) == Some(int_value(0))
        }),
{
    let entries = instance_detail(inst, state, info, lifecycle, probes, restarts, now)->Object_0;
    reveal_strlit("name");
    assert("name"@.len() == 4);
    reveal_strlit("port");
    assert("port"@.len() == 4);
    reveal_strlit("profile");
    assert("profile"@.len() == 7);
    reveal_strlit("enabled");
    assert("enabled"@.len() == 7);
    reveal_strlit("online");
    assert("online"@.len() == 6);
    reveal_strlit("uptime_since");
    assert("uptime_since"@.len() == 12);
    reveal_strlit("uptime");
    assert("uptime"@.len() == 6);
    reveal_strlit("last_check");
    assert("last_check"@.len() == 10);
    reveal_strlit("last_response_time_ms");
    assert("last_response_time_ms"@.len() == 21);
    reveal_strlit("consecutive_failures");
    assert("consecutive_failures"@.len() == 20);
    reveal_strlit("info");
    assert("info"@.len() == 4);
    reveal_strlit("channel_count");
    assert("channel_count"@.len() == 13);
    reveal_strlit("enabled_channel_names");
    assert("enabled_channel_names"@.len() == 21);
    reveal_strlit("enabled_channel_count");
    assert("enabled_channel_count"@.len() == 21);
    reveal_strlit("crons");
    assert("crons"@.len() == 5);
    reveal_strlit("cron_count");
    assert("cron_count"@.len() == 10);
    reveal_strlit("enabled_cron_count");
    assert("enabled_cron_count"@.len() == 18);
    reveal_strlit("lifecycle");
    assert("lifecycle"@.len() == 9);
    reveal_strlit("probe_history");
    assert("probe_history"@.len() == 13);
    reveal_strlit("restart_history");
    assert("restart_history"@.len() == 15);
    assert("name"@[0] != "port"@[0]);
    assert("profile"@[0] != "enabled"@[0]);
    assert("online"@[0] != "uptime"@[0]);
    assert("name"@[0] != "info"@[0]);
    assert("port"@[0] != "info"@[0]);
    assert("last_response_time_ms"@[0] != "enabled_channel_names"@[0]);
    assert("last_response_time_ms"@[0] != "enabled_channel_count"@[0]);
    assert("enabled_channel_names"@[16] != "enabled_channel_count"@[16]);
    assert("last_check"@[0] != "cron_count"@[0]);
    assert("channel_count"@[0] != "probe_history"@[0]);
    lemma_entry_value(entries, "name"@, 0);
    lemma_entry_value(entries, "port"@, 1);
    lemma_entry_value(entries, "profile"@, 2);
    lemma_entry_value(entries, "enabled"@, 3);
    lemma_entry_value(entries, "online"@, 4);
    lemma_entry_value(entries, "uptime_since"@, 5);
    lemma_entry_value(entries, "uptime"@, 6);
    lemma_entry_value(entries, "last_check"@, 7);
    lemma_entry_value(entries, "last_response_time_ms"@, 8);
    lemma_entry_value(entries, "consecutive_failures"@, 9);
    lemma_entry_value(entries, "info"@, 10);
    lemma_entry_value(entries, "channel_count"@, 11);
    lemma_entry_value(entries, "enabled_channel_names"@, 12);
    lemma_entry_value(entries, "enabled_channel_count"@, 13);
    lemma_entry_value(entries, "crons"@, 14);
    lemma_entry_value(entries, "cron_count"@, 15);
    lemma_entry_value(entries, "enabled_cron_count"@, 16);
    lemma_entry_value(entries, "lifecycle"@, 17);
    lemma_entry_value(entries, "probe_history"@, 18);
    lemma_entry_value(entries, "restart_history"@, 19);
}

/// The list of instances holds one report for each instance that is switched on, in their
/// order, made of what is known of that instance, and of what the collector has last read of
/// it.
pub proof fn law_instances_listed(
    instances: Seq<InstanceConfig>,
    known: Seq<Known>,
    infos: Seq<JsonView>,
    now: Moment,
    info: JsonView,
    name: Seq<char>,
)
    requires
        forall|i: int| 0 <= i < instances.len() ==> (#[trigger] instances[i]).enabled,
    ensures
        instance_reports(instances, known, infos, now).len() == instances.len(),
        forall|i: int|
            0 <= i < instances.len() ==> #[trigger] instance_reports(instances, known, infos, now)[i]
                == instance_report(
                instances[i],
                known[i],
                info_of(infos, instances[i].name@),
                now,
            ),
        info.get("name"@) == Some(JsonView::Str(name)) ==> info_of(infos.push(info), name) == info,
        info.get("name"@) != Some(JsonView::Str(name)) ==> info_of(infos.push(info), name)
            == info_of(infos, name),
        info_of(Seq::empty(), name) == JsonView::Object(Seq::empty()),
{
    law_enabled(instances);
    assert(infos.push(info).drop_last() =~= infos);
}

/// An instance is found by its name exactly where there is one, and the answer otherwise says
/// which one is not there.
pub proof fn law_instance_found(
    instances: &Vec<InstanceConfig>,
    name: &str,
    r: Result<&InstanceConfig, Json>,
)
    requires
        call_ensures(get_instance_or_404, (instances, name), r),
    ensures
        r matches Ok(inst) ==> inst.name@ == name@ && instances@.contains(*inst),
        r matches Err(answer) ==> !(exists|i: int|
            0 <= i < instances@.len() && (#[trigger] instances@[i]).name@ == name@) && answer@.get(
            "detail"@,
        ) == Some(JsonView::Str("Instance"@ + " '"@ + name@ + "' not found"@)),
{
    if r is Ok {
        let i = choose|i: int| is_named(instances@, name@, i) && instances@[i] == *(r->Ok_0);
        assert(instances@[i] == *(r->Ok_0));
    } else {
        let entries = detail_report("Instance"@ + " '"@ + name@ + "' not found"@)->Object_0;
        lemma_entry_value(entries, "detail"@, 0);
        assert(none_named(instances@, name@));
    }
}

} // verus!
