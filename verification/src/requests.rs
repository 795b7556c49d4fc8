//! What requests to the agent ask for, the tasks that they start, and the answers.

use vstd::prelude::*;
use vstd::string::*;

use crate::auth::{is_in_any_case, same_in_any_case, same_letter};
use crate::clock::{is_iso_time, is_task_id};
use crate::commands::{filled_trimmed, trim_filled};
use crate::json::{
    json_text, lemma_entry_value, opt_str_view, opt_text, text_or, value_or, Fields, Json, JsonView,
};
use crate::tasks::{added, queued, Task, TaskStore};
use crate::text::{cat, is_white, law_trimmed, trim, trimmed, CharClass};
use crate::token_scanner::{model_pricing_json, model_views, pricing_report, PricedModel};

verus! {

// ---------------------------------------------------------------------------
// Requests
// ---------------------------------------------------------------------------

/// The text under a key of a request, without the white space around it; nothing where
/// nothing is left.
pub open spec fn given_text(payload: JsonView, key: Seq<char>) -> Option<Seq<char>> {
    match payload.str_at(key) {
        Some(s) => filled_trimmed(s),
        None => None,
    }
}

/// The text under a key of a request, such as a reason or a label.
pub fn text_given(payload: &Json, key: &str) -> (r: Option<String>)
    ensures
        opt_text(r) == given_text(payload@, key@),
{
    match payload.str_at(key) {
        Some(s) => trim_filled(s),
        None => None,
    }
}

/// The truth value under a key of a request; true where the request names none.
pub fn flag_given(payload: &Json, key: &str) -> (r: bool)
    ensures
        r == value_or(payload@.bool_at(key@), true),
{
    match payload.bool_at(key) {
        Some(b) => b,
        None => true,
    }
}

/// The state that a request asks for: running or stopped, in whatever case, without
/// the white space around it.
pub open spec fn requested_state(payload: JsonView) -> Option<Seq<char>> {
    let given = trimmed(value_or(payload.str_at("desired_state"@), ""@));
    if is_in_any_case(given, "running"@) {
        Some("running"@)
    } else if is_in_any_case(given, "stopped"@) {
        Some("stopped"@)
    } else {
        None
    }
}

/// The state that a request asks for.
pub fn desired_state_given(payload: &Json) -> (r: Option<&'static str>)
    ensures
        opt_str_view(r) == requested_state(payload@),
{
    let given = trim(text_or(payload.str_at("desired_state"), ""));
    if same_in_any_case(given, "running") {
        Some("running")
    } else if same_in_any_case(given, "stopped") {
        Some("stopped")
    } else {
        None
    }
}

/// What is wrong with a request that asks for another state.
pub fn desired_state_refused() -> (r: String)
    ensures
        r@ == "desired_state must be 'running' or 'stopped'"@,
{
    "desired_state must be 'running' or 'stopped'".to_owned()
}

/// What is stored with a new desired state.
pub fn desired_state_message(desired_state: &str) -> (r: String)
    ensures
        r@ == "Desired state updated to "@ + desired_state@,
{
    cat("Desired state updated to ", desired_state)
}

/// A request for an upgrade.
pub struct UpgradeRequest {
    pub target_version: String,
    pub create_backup: bool,
    pub rollback_on_failure: bool,
}

/// The upgrade that a request asks for: to the latest version, with a backup before
/// and a return after a failure, unless the request says otherwise.
pub fn upgrade_given(payload: &Json) -> (r: UpgradeRequest)
    ensures
        r.target_version@ == trimmed(value_or(payload@.str_at("target_version"@), "latest"@)),
        r.create_backup == value_or(payload@.bool_at("create_backup"@), true),
        r.rollback_on_failure == value_or(payload@.bool_at("rollback_on_failure"@), true),
{
    UpgradeRequest {
        target_version: trim(text_or(payload.str_at("target_version"), "latest")).to_owned(),
        create_backup: flag_given(payload, "create_backup"),
        rollback_on_failure: flag_given(payload, "rollback_on_failure"),
    }
}

// ---------------------------------------------------------------------------
// Tasks
// ---------------------------------------------------------------------------

/// What a backup is asked for with.
pub open spec fn backup_request(label: Option<Seq<char>>) -> JsonView {
    JsonView::Object(seq![("label"@, JsonView::Str(value_or(label, ""@)))])
}

/// Starts the record of a backup.
pub fn create_backup_task(tasks: &mut TaskStore, label: Option<&str>) -> (r: Task)
    ensures
        r@ == queued(r.task_id@, "backup"@, backup_request(opt_str_view(label)), r.created_at@),
        is_task_id(r.task_id@),
        is_iso_time(r.created_at@),
        final(tasks)@ == added(old(tasks)@, r@),
{
    let mut f = Fields::new();
    f.put("label", json_text(text_or(label, "")));
    assert(f@ == backup_request(opt_str_view(label))->Object_0);
    tasks.create_task("backup", f.object())
}

/// What a restore is asked for with.
pub open spec fn restore_request(backup_id: Seq<char>, start_after_restore: bool) -> JsonView {
    JsonView::Object(
        seq![
            ("backup_id"@, JsonView::Str(backup_id)),
            ("start_after_restore"@, JsonView::Bool(start_after_restore)),
        ],
    )
}

/// Starts the record of a restore.
pub fn create_restore_task(
    tasks: &mut TaskStore,
    backup_id: &str,
    start_after_restore: bool,
) -> (r: Task)
    ensures
        r@ == queued(
            r.task_id@,
            "restore"@,
            restore_request(backup_id@, start_after_restore),
            r.created_at@,
        ),
        is_task_id(r.task_id@),
        is_iso_time(r.created_at@),
        final(tasks)@ == added(old(tasks)@, r@),
{
    let mut f = Fields::new();
    f.put("backup_id", json_text(backup_id));
    f.put("start_after_restore", Json::Bool(start_after_restore));
    assert(f@ == restore_request(backup_id@, start_after_restore)->Object_0);
    tasks.create_task("restore", f.object())
}

/// What an upgrade is asked for with.
pub open spec fn upgrade_request(
    target_version: Seq<char>,
    create_backup: bool,
    rollback_on_failure: bool,
) -> JsonView {
    JsonView::Object(
        seq![
            ("target_version"@, JsonView::Str(target_version)),
            ("create_backup"@, JsonView::Bool(create_backup)),
            ("rollback_on_failure"@, JsonView::Bool(rollback_on_failure)),
        ],
    )
}

/// Starts the record of an upgrade.
pub fn create_upgrade_task(
    tasks: &mut TaskStore,
    target_version: &str,
    create_backup: bool,
    rollback_on_failure: bool,
) -> (r: Task)
    ensures
        r@ == queued(
            r.task_id@,
            "upgrade"@,
            upgrade_request(target_version@, create_backup, rollback_on_failure),
            r.created_at@,
        ),
        is_task_id(r.task_id@),
        is_iso_time(r.created_at@),
        final(tasks)@ == added(old(tasks)@, r@),
{
    let ghost goal = upgrade_request(target_version@, create_backup, rollback_on_failure);
    let mut f = Fields::new();
    f.put("target_version", json_text(target_version));
    f.put("create_backup", Json::Bool(create_backup));
    f.put("rollback_on_failure", Json::Bool(rollback_on_failure));
    assert(f@ == goal->Object_0);
    tasks.create_task("upgrade", f.object())
}

/// What an upgrade where one is needed is asked for with.
pub open spec fn needed_upgrade_request(
    create_backup: bool,
    rollback_on_failure: bool,
    force_refresh_release: bool,
) -> JsonView {
    JsonView::Object(
        seq![
            ("create_backup"@, JsonView::Bool(create_backup)),
            ("rollback_on_failure"@, JsonView::Bool(rollback_on_failure)),
            ("force_refresh_release"@, JsonView::Bool(force_refresh_release)),
        ],
    )
}

/// Starts the record of an upgrade where one is needed.
pub fn create_upgrade_if_needed_task(
    tasks: &mut TaskStore,
    create_backup: bool,
    rollback_on_failure: bool,
    force_refresh_release: bool,
) -> (r: Task)
    ensures
        r@ == queued(
            r.task_id@,
            "upgrade-if-needed"@,
            needed_upgrade_request(create_backup, rollback_on_failure, force_refresh_release),
            r.created_at@,
        ),
        is_task_id(r.task_id@),
        is_iso_time(r.created_at@),
        final(tasks)@ == added(old(tasks)@, r@),
{
    let ghost goal = needed_upgrade_request(
        create_backup,
        rollback_on_failure,
        force_refresh_release,
    );
    let mut f = Fields::new();
    f.put("create_backup", Json::Bool(create_backup));
    f.put("rollback_on_failure", Json::Bool(rollback_on_failure));
    f.put("force_refresh_release", Json::Bool(force_refresh_release));
    assert(f@ == goal->Object_0);
    tasks.create_task("upgrade-if-needed", f.object())
}

// ---------------------------------------------------------------------------
// Answers
// ---------------------------------------------------------------------------

/// The answer that gives a value under a key, with the state of the request.
pub open spec fn status_report(status: Seq<char>, key: Seq<char>, value: JsonView) -> JsonView {
    JsonView::Object(seq![("status"@, JsonView::Str(status)), (key, value)])
}

/// The answer that gives a value under a key, with the state of the request.
pub fn answer(status: &str, key: &str, value: Json) -> (r: Json)
    ensures
        r@ == status_report(status@, key@, value@),
{
    let ghost goal = status_report(status@, key@, value@);
    let mut f = Fields::new();
    f.put("status", json_text(status));
    f.put(key, value);
    assert(f@ == goal->Object_0);
    f.object()
}

/// The answer that gives the lifecycle of an instance.
pub open spec fn lifecycle_answer(name: Seq<char>, lifecycle: JsonView) -> JsonView {
    JsonView::Object(
        seq![
            ("status"@, JsonView::Str("ok"@)),
            ("instance_name"@, JsonView::Str(name)),
            ("lifecycle"@, lifecycle),
        ],
    )
}

/// The answer that gives the lifecycle of an instance.
pub fn answer_lifecycle(name: &str, lifecycle: &Json) -> (r: Json)
    ensures
        r@ == lifecycle_answer(name@, lifecycle@),
{
    let mut f = Fields::new();
    f.put("status", json_text("ok"));
    f.put("instance_name", json_text(name));
    f.put("lifecycle", lifecycle.copy());
    assert(f@ == lifecycle_answer(name@, lifecycle@)->Object_0);
    f.object()
}

/// The answer that all went well, with the entries of a report.
pub fn answer_with(report: &Json) -> (r: Json)
    ensures
        r@ == match report@ {
            JsonView::Object(entries) => JsonView::Object(
                seq![("status"@, JsonView::Str("ok"@))],
            ).with_all(entries),
            _ => JsonView::Object(seq![("status"@, JsonView::Str("ok"@))]),
        },
{
    let mut f = Fields::new();
    f.put("status", json_text("ok"));
    assert(f@ =~= seq![("status"@, JsonView::Str("ok"@))]);
    let mut r = f.object();
    match report.as_object() {
        Some(entries) => {
            r.set_all(entries);
        },
        None => {},
    }
    r
}

/// The answer of the service to whoever asks whether it is there.
pub open spec fn service_report(service: Seq<char>) -> JsonView {
    JsonView::Object(
        seq![("status"@, JsonView::Str("ok"@)), ("service"@, JsonView::Str(service))],
    )
}

/// The answer of the service to whoever asks whether it is there.
pub fn probe_health() -> (r: Json)
    ensures
        r@ == service_report("openclaw-probe"@),
{
    let mut f = Fields::new();
    f.put("status", json_text("ok"));
    f.put("service", json_text("openclaw-probe"));
    assert(f@ == service_report("openclaw-probe"@)->Object_0);
    f.object()
}

/// The answer at the root of the service.
pub open spec fn root_report() -> JsonView {
    JsonView::Object(
        seq![
            ("status"@, JsonView::Str("ok"@)),
            ("service"@, JsonView::Str("openclaw-probe-agent"@)),
            (
                "message"@,
                JsonView::Str(
                    "Agent-only mode. Use /api/agent/health or /api/agent/snapshot."@,
                ),
            ),
        ],
    )
}

/// The answer at the root of the service.
pub fn answer_root() -> (r: Json)
    ensures
        r@ == root_report(),
{
    let mut f = Fields::new();
    f.put("status", json_text("ok"));
    f.put("service", json_text("openclaw-probe-agent"));
    f.put(
        "message",
        json_text("Agent-only mode. Use /api/agent/health or /api/agent/snapshot."),
    );
    assert(f@ == root_report()->Object_0);
    f.object()
}

/// The answer that gives the prices of models.
pub fn get_pricing(prices: &Vec<PricedModel>) -> (r: Json)
    ensures
        r@ == JsonView::Object(seq![("pricing"@, pricing_report(model_views(prices@)))]),
{
    let ghost goal = JsonView::Object(seq![("pricing"@, pricing_report(model_views(prices@)))]);
    let mut f = Fields::new();
    f.put("pricing", model_pricing_json(prices));
    assert(f@ == goal->Object_0);
    f.object()
}

/// The answer to a new configuration.
pub open spec fn config_report(config: JsonView) -> JsonView {
    JsonView::Object(seq![("message"@, JsonView::Str("配置已更新"@)), ("config"@, config)])
}

/// The answer to a new configuration.
pub fn answer_config(config: Json) -> (r: Json)
    ensures
        r@ == config_report(config@),
{
    let ghost goal = config_report(config@);
    let mut f = Fields::new();
    f.put("message", json_text("配置已更新"));
    f.put("config", config);
    assert(f@ == goal->Object_0);
    f.object()
}

// ---------------------------------------------------------------------------
// Laws
// ---------------------------------------------------------------------------

/// A request is only taken for one of the two states that an instance can be meant to
/// be in; each of them is asked for by its name, in whatever case, and by nothing else.
pub proof fn law_states_that_can_be_asked(payload: JsonView)
    ensures
        ({
            let given = trimmed(value_or(payload.str_at("desired_state"@), ""@));
            &&& requested_state(payload) == Some("running"@) <==> is_in_any_case(
                given,
                "running"@,
            )
            &&& requested_state(payload) == Some("stopped"@) <==> is_in_any_case(
                given,
                "stopped"@,
            )
            &&& requested_state(payload) matches Some(s) ==> s == "running"@ || s == "stopped"@
        }),
{
    let given = trimmed(value_or(payload.str_at("desired_state"@), ""@));
    reveal_strlit("running");
    reveal_strlit("stopped");
    assert("running"@[0] == 'r' && "stopped"@[0] == 's');
    if is_in_any_case(given, "running"@) {
        assert(same_letter(given[0], "running"@[0]));
        assert(!same_letter(given[0], "stopped"@[0]));
    }
}

/// What a request asks for. A text counts without the white space around it, and not where
/// it is blank; a flag counts as set unless it is switched off.
pub proof fn law_given(payload: &Json, key: &str, flag: bool, s: Seq<char>)
    requires
        call_ensures(flag_given, (payload, key), flag),
    ensures
        flag <==> payload@.get(key@) != Some(JsonView::Bool(false)),
        payload@.get(key@) == Some(JsonView::Str(s)) && trimmed(s).len() > 0 ==> given_text(
            payload@,
            key@,
        ) == Some(trimmed(s)),
        payload@.get(key@) == Some(JsonView::Str(s)) && trimmed(s).len() == 0 ==> given_text(
            payload@,
            key@,
        ) is None,
        payload@.get(key@) is None ==> given_text(payload@, key@) is None,
{
}

/// A request for an upgrade that names no version asks for the latest one; and a backup, and
/// the return to the previous version on failure, are part of it unless they are switched
/// off.
pub proof fn law_upgrade_given(payload: &Json, r: UpgradeRequest, v: Seq<char>)
    requires
        call_ensures(upgrade_given, (payload,), r),
    ensures
        payload@.get("target_version"@) == Some(JsonView::Str(v)) ==> r.target_version@ == trimmed(
            v,
        ),
        payload@.get("target_version"@) is None ==> r.target_version@ == "latest"@,
        r.create_backup <==> payload@.get("create_backup"@) != Some(JsonView::Bool(false)),
        r.rollback_on_failure <==> payload@.get("rollback_on_failure"@) != Some(
            JsonView::Bool(false),
        ),
{
    let none = Seq::<char>::empty();
    reveal_strlit("latest");
    law_trimmed(none, "latest"@, none, CharClass::White);
    assert(none + "latest"@ + none =~= "latest"@);
}

/// The states that can be asked for are running and stopped, in whatever case they are
/// written and with whatever white space around them; any other is refused.
pub proof fn law_state_asked(payload: JsonView, before: Seq<char>, word: Seq<char>, behind: Seq<char>)
    requires
        payload.get("desired_state"@) == Some(JsonView::Str(before + word + behind)),
        forall|i: int| 0 <= i < before.len() ==> is_white(#[trigger] before[i]),
        forall|i: int| 0 <= i < behind.len() ==> is_white(#[trigger] behind[i]),
        word.len() > 0 && !is_white(word[0]) && !is_white(word.last()),
    ensures
        word == "running"@ || word == "Running"@ || word == "RUNNING"@ ==> requested_state(payload)
            == Some("running"@),
        word == "stopped"@ || word == "Stopped"@ || word == "STOPPED"@ ==> requested_state(payload)
            == Some("stopped"@),
        word.len() != 7 ==> requested_state(payload) is None,
{
    assert forall|i: int| 0 <= i < before.len() implies CharClass::White.has(#[trigger] before[i]) by {}
    assert forall|i: int| 0 <= i < behind.len() implies CharClass::White.has(#[trigger] behind[i]) by {}
    law_trimmed(before, word, behind, CharClass::White);
    reveal_strlit("running");
    reveal_strlit("Running");
    reveal_strlit("RUNNING");
    reveal_strlit("stopped");
    reveal_strlit("Stopped");
    reveal_strlit("STOPPED");
    assert("running"@.len() == 7 && "stopped"@.len() == 7);
    if word == "running"@ || word == "Running"@ || word == "RUNNING"@ {
        assert forall|i: int| 0 <= i < 7 implies same_letter(#[trigger] word[i], "running"@[i]) by {}
        assert(is_in_any_case(word, "running"@));
    }
    if word == "stopped"@ || word == "Stopped"@ || word == "STOPPED"@ {
        assert forall|i: int| 0 <= i < 7 implies same_letter(#[trigger] word[i], "stopped"@[i]) by {}
        assert(is_in_any_case(word, "stopped"@));
        assert(!same_letter(word[0], "running"@[0]));
    }
}

/// What a task is made of tells what was asked for.
pub proof fn law_requests_told(
    label: Option<Seq<char>>,
    backup_id: Seq<char>,
    start: bool,
    target: Seq<char>,
    backup: bool,
    rollback: bool,
    refresh: bool,
)
    ensures
        label matches Some(l) ==> backup_request(label).get("label"@) == Some(JsonView::Str(l)),
        label is None ==> backup_request(label).get("label"@) == Some(JsonView::Str(""@)),
        restore_request(backup_id, start).get("backup_id"@) == Some(JsonView::Str(backup_id)),
        restore_request(backup_id, start).get("start_after_restore"@) == Some(
            JsonView::Bool(start),
        ),
        upgrade_request(target, backup, rollback).get("target_version"@) == Some(
            JsonView::Str(target),
        ),
        upgrade_request(target, backup, rollback).get("create_backup"@) == Some(
            JsonView::Bool(backup),
        ),
        upgrade_request(target, backup, rollback).get("rollback_on_failure"@) == Some(
            JsonView::Bool(rollback),
        ),
        needed_upgrade_request(backup, rollback, refresh).get("create_backup"@) == Some(
            JsonView::Bool(backup),
        ),
        needed_upgrade_request(backup, rollback, refresh).get("rollback_on_failure"@) == Some(
            JsonView::Bool(rollback),
        ),
        needed_upgrade_request(backup, rollback, refresh).get("force_refresh_release"@) == Some(
            JsonView::Bool(refresh),
        ),
{
    let b = backup_request(label)->Object_0;
    let r = restore_request(backup_id, start)->Object_0;
    let u = upgrade_request(target, backup, rollback)->Object_0;
    let n = needed_upgrade_request(backup, rollback, refresh)->Object_0;
    reveal_strlit("label");
    assert("label"@.len() == 5);
    reveal_strlit("backup_id");
    assert("backup_id"@.len() == 9);
    reveal_strlit("start_after_restore");
    assert("start_after_restore"@.len() == 19);
    reveal_strlit("target_version");
    assert("target_version"@.len() == 14);
    reveal_strlit("create_backup");
    assert("create_backup"@.len() == 13);
    reveal_strlit("rollback_on_failure");
    assert("rollback_on_failure"@.len() == 19);
    reveal_strlit("force_refresh_release");
    assert("force_refresh_release"@.len() == 21);
    lemma_entry_value(b, "label"@, 0);
    lemma_entry_value(r, "backup_id"@, 0);
    lemma_entry_value(r, "start_after_restore"@, 1);
    lemma_entry_value(u, "target_version"@, 0);
    lemma_entry_value(u, "create_backup"@, 1);
    lemma_entry_value(u, "rollback_on_failure"@, 2);
    lemma_entry_value(n, "create_backup"@, 0);
    lemma_entry_value(n, "rollback_on_failure"@, 1);
    lemma_entry_value(n, "force_refresh_release"@, 2);
}

/// The answers to requests: each tells its status, and what it is about.
pub proof fn law_answers(
    status: Seq<char>,
    key: Seq<char>,
    value: JsonView,
    name: Seq<char>,
    lifecycle: JsonView,
    service: Seq<char>,
)
    requires
        key != "status"@,
    ensures
        status_report(status, key, value).get("status"@) == Some(JsonView::Str(status)),
        status_report(status, key, value).get(key) == Some(value),
        lifecycle_answer(name, lifecycle).get("status"@) == Some(JsonView::Str("ok"@)),
        lifecycle_answer(name, lifecycle).get("instance_name"@) == Some(JsonView::Str(name)),
        lifecycle_answer(name, lifecycle).get("lifecycle"@) == Some(lifecycle),
        service_report(service).get("status"@) == Some(JsonView::Str("ok"@)),
        service_report(service).get("service"@) == Some(JsonView::Str(service)),
        root_report().get("status"@) == Some(JsonView::Str("ok"@)),
        root_report().get("service"@) == Some(JsonView::Str("openclaw-probe-agent"@)),
        config_report(value).get("config"@) == Some(value),
{
    let a = status_report(status, key, value)->Object_0;
    let l = lifecycle_answer(name, lifecycle)->Object_0;
    let s = service_report(service)->Object_0;
    let r = root_report()->Object_0;
    let c = config_report(value)->Object_0;
    reveal_strlit("status");
    assert("status"@.len() == 6);
    reveal_strlit("instance_name");
    assert("instance_name"@.len() == 13);
    reveal_strlit("lifecycle");
    assert("lifecycle"@.len() == 9);
    reveal_strlit("service");
    assert("service"@.len() == 7);
    reveal_strlit("message");
    assert("message"@.len() == 7);
    reveal_strlit("config");
    assert("config"@.len() == 6);
    lemma_entry_value(a, "status"@, 0);
    lemma_entry_value(a, key, 1);
    lemma_entry_value(l, "status"@, 0);
    lemma_entry_value(l, "instance_name"@, 1);
    lemma_entry_value(l, "lifecycle"@, 2);
    lemma_entry_value(s, "status"@, 0);
    lemma_entry_value(s, "service"@, 1);
    assert("service"@[0] != "message"@[0]);
    lemma_entry_value(r, "status"@, 0);
    lemma_entry_value(r, "service"@, 1);
    lemma_entry_value(r, "message"@, 2);
    lemma_entry_value(c, "message"@, 0);
    lemma_entry_value(c, "config"@, 1);
}

/// A refused state is answered with the two that can be asked for, and a new one is named.
pub proof fn law_state_answered(
    refused: String,
    desired_state: &str,
    message: String,
    probe: Json,
    prices: &Vec<PricedModel>,
    pricing: Json,
)
    requires
        call_ensures(desired_state_refused, (), refused),
        call_ensures(desired_state_message, (desired_state,), message),
        call_ensures(probe_health, (), probe),
        call_ensures(get_pricing, (prices,), pricing),
    ensures
        refused@ == "desired_state must be 'running' or 'stopped'"@,
        message@ == "Desired state updated to "@ + desired_state@,
        probe@.get("status"@) == Some(JsonView::Str("ok"@)),
        probe@.get("service"@) == Some(JsonView::Str("openclaw-probe"@)),
        pricing@.get("pricing"@) == Some(pricing_report(model_views(prices@))),
{
    reveal_strlit("status");
    reveal_strlit("service");
    assert("status"@.len() == 6 && "service"@.len() == 7);
    lemma_entry_value(probe@->Object_0, "status"@, 0);
    lemma_entry_value(probe@->Object_0, "service"@, 1);
    lemma_entry_value(pricing@->Object_0, "pricing"@, 0);
}

} // verus!
