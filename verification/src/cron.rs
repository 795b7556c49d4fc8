//! Scheduled jobs of an instance.

use vstd::prelude::*;
use vstd::string::*;

use crate::clock::{delta_text, format_ts_ms, humanize_delta_ms, ts_text};
use crate::json::{
    at, either, empty_object, first_some, first_text, i64_in, int_in, int_or_null, int_value,
    json_opt, json_opt_int, json_opt_text, json_text, json_views, lemma_entry_value, opt_owned,
    opt_ref_view, opt_slice, opt_str_view, opt_text, parse_json, parsed_json, str_in, text_in,
    text_or, text_or_null, value_at, value_or, value_or_null, Fields, Json, JsonView,
};
use crate::paths::{join_path, joined_path};
use crate::text::{
    cat, cat5, chars_of, lines, same, split_lines, string_between, texts, trim, trimmed,
};

verus! {

// ---------------------------------------------------------------------------
// Files
// ---------------------------------------------------------------------------

/// The file that holds the jobs.
pub open spec fn cron_jobs_path(home: Seq<char>) -> Seq<char> {
    joined_path(joined_path(home, "cron"@), "jobs.json"@)
}

/// The file that holds the jobs.
pub fn cron_jobs_file(home: &str) -> (r: String)
    ensures
        r@ == cron_jobs_path(home@),
{
    join_path(join_path(home, "cron").as_str(), "jobs.json")
}

/// The file that holds the runs of a job.
pub open spec fn run_log_path(home: Seq<char>, job_id: Seq<char>) -> Seq<char> {
    joined_path(joined_path(joined_path(home, "cron"@), "runs"@), job_id + ".jsonl"@)
}

/// The file that holds the runs of a job.
pub fn run_log_file(home: &str, job_id: &str) -> (r: String)
    ensures
        r@ == run_log_path(home@, job_id@),
{
    let dir = join_path(join_path(home, "cron").as_str(), "runs");
    join_path(dir.as_str(), cat(job_id, ".jsonl").as_str())
}

// ---------------------------------------------------------------------------
// Runs
// ---------------------------------------------------------------------------

/// The last line that holds more than white space.
pub open spec fn last_filled(lines: Seq<Seq<char>>) -> Option<Seq<char>>
    decreases lines.len(),
{
    if lines.len() == 0 {
        None
    } else if trimmed(lines.last()).len() > 0 {
        Some(lines.last())
    } else {
        last_filled(lines.drop_last())
    }
}

/// The run that a file of runs names last: the value that its last filled line
/// writes, or null where there is none.
pub open spec fn latest_run_of(content: Option<Seq<char>>) -> JsonView {
    match content {
        Some(content) => match last_filled(lines(content)) {
            Some(line) => value_or_null(parsed_json(line)),
            None => JsonView::Null,
        },
        None => JsonView::Null,
    }
}

fn find_last_filled(v: &Vec<String>) -> (r: Option<&str>)
    ensures
        opt_str_view(r) == last_filled(texts(v@)),
{
    let mut n: usize = v.len();
    assert(texts(v@).take(n as int) =~= texts(v@));
    while n > 0
        invariant
            n <= v@.len(),
            last_filled(texts(v@).take(n as int)) == last_filled(texts(v@)),
        decreases n,
    {
        assert(texts(v@).take(n as int).last() == v@[n - 1]@);
        assert(texts(v@).take(n as int).drop_last() =~= texts(v@).take(n - 1));
        if trim(v[n - 1].as_str()).unicode_len() > 0 {
            return Some(v[n - 1].as_str());
        }
        n = n - 1;
    }
    None
}

/// The run that a file of runs names last.
pub fn latest_run(content: Option<&str>) -> (r: Json)
    ensures
        r@ == latest_run_of(opt_str_view(content)),
{
    match content {
        Some(content) => {
            let all = split_lines(content);
            match find_last_filled(&all) {
                Some(line) => match parse_json(line) {
                    Some(v) => v,
                    None => Json::Null,
                },
                None => Json::Null,
            }
        },
        None => Json::Null,
    }
}

// ---------------------------------------------------------------------------
// Display fields
// ---------------------------------------------------------------------------

/// The first characters of a text, at most `max`.
pub open spec fn truncated(s: Seq<char>, max: nat) -> Seq<char> {
    if s.len() > max {
        s.take(max as int)
    } else {
        s
    }
}

/// The first characters of a text, at most `max_chars`.
pub fn truncate_chars(s: &str, max_chars: usize) -> (r: String)
    ensures
        r@ == truncated(s@, max_chars as nat),
{
    let chars = chars_of(s);
    if chars.len() > max_chars {
        assert(chars@.subrange(0, max_chars as int) =~= s@.take(max_chars as int));
        string_between(&chars, 0, max_chars)
    } else {
        s.to_owned()
    }
}

/// The schedule of a job in words: the expression of a `cron` schedule, with its
/// time zone where it names one, the time of an `at` schedule, and the kind of any
/// other.
pub open spec fn schedule_words(schedule: JsonView) -> Seq<char> {
    let kind = value_or(schedule.str_at("kind"@), ""@);
    if kind == "cron"@ {
        let expr = value_or(schedule.str_at("expr"@), ""@);
        match schedule.str_at("tz"@) {
            Some(tz) => "cron: "@ + expr + " ("@ + tz + ")"@,
            None => "cron: "@ + expr,
        }
    } else if kind == "at"@ {
        "at: "@ + value_or(schedule.str_at("at"@), ""@)
    } else {
        kind
    }
}

/// The schedule of a job in words.
pub fn schedule_label(schedule: &Json) -> (r: String)
    ensures
        r@ == schedule_words(schedule@),
{
    let kind = text_or(schedule.str_at("kind"), "");
    if same(kind, "cron") {
        let expr = text_or(schedule.str_at("expr"), "");
        match schedule.str_at("tz") {
            Some(tz) => cat5("cron: ", expr, " (", tz, ")"),
            None => cat("cron: ", expr),
        }
    } else if same(kind, "at") {
        cat("at: ", text_or(schedule.str_at("at"), ""))
    } else {
        kind.to_owned()
    }
}

/// How a job fares.
#[derive(Debug, Clone, Copy, PartialEq, Eq, Structural)]
pub enum CronHealth {
    Disabled,
    Healthy,
    Failing,
    Warning,
    Idle,
}

impl CronHealth {
    /// The word for it.
    pub open spec fn word(self) -> Seq<char> {
        match self {
            CronHealth::Disabled => "disabled"@,
            CronHealth::Healthy => "healthy"@,
            CronHealth::Failing => "failing"@,
            CronHealth::Warning => "warning"@,
            CronHealth::Idle => "idle"@,
        }
    }

    /// The word for it.
    pub fn as_str(self) -> (r: &'static str)
        ensures
            r@ == self.word(),
    {
        match self {
            CronHealth::Disabled => "disabled",
            CronHealth::Healthy => "healthy",
            CronHealth::Failing => "failing",
            CronHealth::Warning => "warning",
            CronHealth::Idle => "idle",
        }
    }
}

/// The outcome of the last run that the state of a job tells.
pub open spec fn last_status(state: JsonView) -> Option<Seq<char>> {
    text_in(either(state.get("lastStatus"@), state.get("lastRunStatus"@)))
}

/// How a job fares: one that is switched off is disabled; otherwise one whose last
/// run went well is healthy, one with three failures in a row or more is failing,
/// one whose last run went wrong is a warning, and any other is idle.
pub open spec fn cron_health(enabled: bool, state: JsonView) -> CronHealth {
    let status = value_or(last_status(state), ""@);
    if !enabled {
        CronHealth::Disabled
    } else if status == "ok"@ {
        CronHealth::Healthy
    } else if value_or(state.i64_at("consecutiveErrors"@), 0) >= 3 {
        CronHealth::Failing
    } else if status == "error"@ {
        CronHealth::Warning
    } else {
        CronHealth::Idle
    }
}

fn status_of(state: &Json) -> (r: Option<&str>)
    ensures
        opt_str_view(r) == last_status(state@),
{
    str_in(first_some(state.get("lastStatus"), state.get("lastRunStatus")))
}

/// How a job fares.
pub fn derive_cron_health(enabled: bool, state: &Json) -> (r: CronHealth)
    ensures
        r == cron_health(enabled, state@),
{
    if !enabled {
        return CronHealth::Disabled;
    }
    let status = text_or(status_of(state), "");
    let errors: i64 = match state.i64_at("consecutiveErrors") {
        Some(n) => n,
        None => 0,
    };
    if same(status, "ok") {
        CronHealth::Healthy
    } else if errors >= 3 {
        CronHealth::Failing
    } else if same(status, "error") {
        CronHealth::Warning
    } else {
        CronHealth::Idle
    }
}

/// The beginning of the summary of a run, or null where it has none.
pub open spec fn summary_preview(run: JsonView) -> JsonView {
    match run.str_at("summary"@) {
        Some(s) => if s.len() == 0 {
            JsonView::Null
        } else {
            JsonView::Str(truncated(s, 240))
        },
        None => JsonView::Null,
    }
}

/// The fields of a job that are made for display.
pub open spec fn display_fields(
    enabled: bool,
    schedule: JsonView,
    state: JsonView,
    run: JsonView,
    now_ms: int,
) -> Seq<(Seq<char>, JsonView)> {
    let next = state.i64_at("nextRunAtMs"@);
    let last = int_in(either(state.get("lastRunAtMs"@), run.get("runAtMs"@)));
    let health = cron_health(enabled, state);
    seq![
        ("schedule_label"@, JsonView::Str(schedule_words(schedule))),
        ("next_run_at_ms"@, int_or_null(next)),
        ("next_run_at"@, ts_text(next)),
        ("next_run_in"@, delta_text(next, now_ms)),
        ("last_run_at_ms"@, int_or_null(last)),
        ("last_run_at"@, ts_text(last)),
        ("last_run_ago"@, delta_text(last, now_ms)),
        ("status_label"@, JsonView::Str(value_or(last_status(state), "unknown"@))),
        (
            "delivery_status_label"@,
            value_or_null(either(state.get("lastDeliveryStatus"@), run.get("deliveryStatus"@))),
        ),
        ("health_status"@, JsonView::Str(health.word())),
        ("has_error"@, JsonView::Bool(health is Warning || health is Failing)),
        ("summary_preview"@, summary_preview(run)),
    ]
}

/// Adds the fields of a job that are made for display.
fn build_cron_display_fields(
    fields: &mut Fields,
    enabled: bool,
    schedule: &Json,
    state: &Json,
    run: &Json,
    now_ms: i64,
)
    requires
        now_ms >= 0,
    ensures
        final(fields)@ == old(fields)@ + display_fields(
            enabled,
            schedule@,
            state@,
            run@,
            now_ms as int,
        ),
{
    let next = state.i64_at("nextRunAtMs");
    let last = i64_in(first_some(state.get("lastRunAtMs"), run.get("runAtMs")));
    let health = derive_cron_health(enabled, state);
    let preview = match run.str_at("summary") {
        Some(s) => if s.unicode_len() == 0 {
            Json::Null
        } else {
            Json::Str(truncate_chars(s, 240))
        },
        None => Json::Null,
    };
    let delivery = first_some(state.get("lastDeliveryStatus"), run.get("deliveryStatus"));
    let has_error = health == CronHealth::Warning || health == CronHealth::Failing;

    fields.put("schedule_label", Json::Str(schedule_label(schedule)));
    fields.put("next_run_at_ms", json_opt_int(next));
    fields.put("next_run_at", format_ts_ms(next));
    fields.put("next_run_in", humanize_delta_ms(next, now_ms));
    fields.put("last_run_at_ms", json_opt_int(last));
    fields.put("last_run_at", format_ts_ms(last));
    fields.put("last_run_ago", humanize_delta_ms(last, now_ms));
    fields.put("status_label", json_text(text_or(status_of(state), "unknown")));
    fields.put("delivery_status_label", json_opt(delivery));
    fields.put("health_status", json_text(health.as_str()));
    fields.put("has_error", Json::Bool(has_error));
    fields.put("summary_preview", preview);
    assert(fields@ =~= old(fields)@ + display_fields(
        enabled,
        schedule@,
        state@,
        run@,
        now_ms as int,
    ));
}

// ---------------------------------------------------------------------------
// Jobs
// ---------------------------------------------------------------------------

/// A job in the form in which it is reported.
pub struct CronJob {
    /// The agent that the job belongs to, where it names one.
    pub agent_id: Option<String>,
    pub enabled: bool,
    /// The report on the job.
    pub report: Json,
}

/// What a [`CronJob`] stands for.
pub struct CronJobView {
    pub agent_id: Option<Seq<char>>,
    pub enabled: bool,
    pub report: JsonView,
}

impl View for CronJob {
    type V = CronJobView;

    open spec fn view(&self) -> CronJobView {
        CronJobView {
            agent_id: opt_text(self.agent_id),
            enabled: self.enabled,
            report: self.report@,
        }
    }
}

/// The jobs that a sequence of [`CronJob`] stands for.
pub open spec fn job_views(jobs: Seq<CronJob>) -> Seq<CronJobView> {
    jobs.map_values(|j: CronJob| j@)
}

/// The value under a key of the payload of a job, where the payload is an object.
pub open spec fn payload_value(job: JsonView, key: Seq<char>) -> JsonView {
    value_or_null(value_at(job.get("payload"@), key))
}

/// What is reported of the payload of a job.
pub open spec fn payload_entries(job: JsonView) -> Seq<(Seq<char>, JsonView)> {
    seq![
        ("kind"@, payload_value(job, "kind"@)),
        ("message"@, payload_value(job, "message"@)),
        ("text"@, payload_value(job, "text"@)),
        ("timeout_seconds"@, payload_value(job, "timeoutSeconds"@)),
        ("model"@, payload_value(job, "model"@)),
    ]
}

/// The report on a job, given its last run.
pub open spec fn job_report(job: JsonView, run: JsonView, home: Seq<char>, now_ms: int) -> JsonView {
    let job_id = value_or(job.str_at("id"@), ""@);
    let schedule = value_or(job.get("schedule"@), empty_object());
    let state = value_or(job.get("state"@), empty_object());
    let enabled = value_or(job.bool_at("enabled"@), true);
    JsonView::Object(
        seq![
            ("id"@, value_or_null(job.get("id"@))),
            ("agent_id"@, text_or_null(job.str_at("agentId"@))),
            ("name"@, text_or_null(either(job.str_at("name"@), job.str_at("id"@)))),
            ("enabled"@, JsonView::Bool(enabled)),
            ("delete_after_run"@, JsonView::Bool(value_or(job.bool_at("deleteAfterRun"@), false))),
            ("created_at_ms"@, value_or_null(job.get("createdAtMs"@))),
            ("updated_at_ms"@, value_or_null(job.get("updatedAtMs"@))),
            ("schedule"@, schedule),
            ("session_target"@, value_or_null(job.get("sessionTarget"@))),
            ("wake_mode"@, value_or_null(job.get("wakeMode"@))),
            ("delivery"@, value_or(job.get("delivery"@), empty_object())),
            (
                "payload"@,
                JsonView::Object(payload_entries(job)),
            ),
            ("state"@, state),
            ("latest_run"@, run),
            (
                "run_log_path"@,
                if job_id.len() == 0 {
                    JsonView::Null
                } else {
                    JsonView::Str(run_log_path(home, job_id))
                },
            ),
        ] + display_fields(enabled, schedule, state, run, now_ms),
    )
}

/// A job in the form in which it is reported, given its last run.
pub open spec fn job_of(job: JsonView, run: JsonView, home: Seq<char>, now_ms: int) -> CronJobView {
    CronJobView {
        agent_id: job.str_at("agentId"@),
        enabled: value_or(job.bool_at("enabled"@), true),
        report: job_report(job, run, home, now_ms),
    }
}

fn or_empty_object(o: Option<&Json>) -> (r: Json)
    ensures
        r@ == value_or(opt_ref_view(o), empty_object()),
{
    match o {
        Some(v) => v.copy(),
        None => Fields::new().object(),
    }
}

fn or_bool(o: Option<bool>, otherwise: bool) -> (r: bool)
    ensures
        r == value_or(o, otherwise),
{
    match o {
        Some(b) => b,
        None => otherwise,
    }
}

/// A job in the form in which it is reported, given its last run.
pub fn normalize_job(job: &Json, run: &Json, home: &str, now_ms: i64) -> (r: CronJob)
    requires
        now_ms >= 0,
    ensures
        r@ == job_of(job@, run@, home@, now_ms as int),
{
    let job_id = text_or(job.str_at("id"), "");
    let schedule = or_empty_object(job.get("schedule"));
    let state = or_empty_object(job.get("state"));
    let enabled = or_bool(job.bool_at("enabled"), true);
    let log = if job_id.unicode_len() == 0 {
        Json::Null
    } else {
        Json::Str(run_log_file(home, job_id))
    };

    let given = job.get("payload");
    let mut payload = Fields::new();
    payload.put("kind", json_opt(at(given, "kind")));
    payload.put("message", json_opt(at(given, "message")));
    payload.put("text", json_opt(at(given, "text")));
    payload.put("timeout_seconds", json_opt(at(given, "timeoutSeconds")));
    payload.put("model", json_opt(at(given, "model")));
    assert(payload@ == payload_entries(job@));

    let mut fields = Fields::new();
    fields.put("id", json_opt(job.get("id")));
    fields.put("agent_id", json_opt_text(job.str_at("agentId")));
    fields.put("name", json_opt_text(first_text(job.str_at("name"), job.str_at("id"))));
    fields.put("enabled", Json::Bool(enabled));
    fields.put("delete_after_run", Json::Bool(or_bool(job.bool_at("deleteAfterRun"), false)));
    fields.put("created_at_ms", json_opt(job.get("createdAtMs")));
    fields.put("updated_at_ms", json_opt(job.get("updatedAtMs")));
    fields.put("schedule", schedule.copy());
    fields.put("session_target", json_opt(job.get("sessionTarget")));
    fields.put("wake_mode", json_opt(job.get("wakeMode")));
    fields.put("delivery", or_empty_object(job.get("delivery")));
    fields.put("payload", payload.object());
    fields.put("state", state.copy());
    fields.put("latest_run", run.copy());
    fields.put("run_log_path", log);
    build_cron_display_fields(&mut fields, enabled, &schedule, &state, run, now_ms);

    let ghost entries = fields@;
    let report = fields.object();
    assert(job_report(job@, run@, home@, now_ms as int)->Object_0 == entries);
    CronJob { agent_id: opt_owned(job.str_at("agentId")), enabled, report }
}

/// The jobs among the elements of the list of jobs: those that are objects.
pub open spec fn listed_jobs(jobs: Option<JsonView>) -> Seq<JsonView> {
    match jobs {
        Some(v) => match v.array_at("jobs"@) {
            Some(items) => items.filter(|v: JsonView| v.is_object()),
            None => Seq::empty(),
        },
        None => Seq::empty(),
    }
}

/// The jobs among the elements of the list of jobs.
fn job_list(jobs: Option<&Json>) -> (r: Vec<&Json>)
    ensures
        r@.map_values(|j: &Json| j@) == listed_jobs(opt_ref_view(jobs)),
{
    let mut out: Vec<&Json> = Vec::new();
    assert(out@.map_values(|j: &Json| j@) =~= Seq::<JsonView>::empty());
    match jobs {
        Some(v) => match v.array_at("jobs") {
            Some(items) => {
                let ghost all = json_views(items@);
                let mut i: usize = 0;
                proof {
                    reveal(Seq::filter);
                    assert(all.take(0) =~= Seq::<JsonView>::empty());
                }
                while i < items.len()
                    invariant
                        i <= items@.len(),
                        all == json_views(items@),
                        out@.map_values(|j: &Json| j@) == all.take(i as int).filter(
                            |v: JsonView| v.is_object(),
                        ),
                    decreases items@.len() - i,
                {
                    let ghost before = out@;
                    proof {
                        reveal(Seq::filter);
                        assert(all.take(i + 1).drop_last() =~= all.take(i as int));
                        assert(all.take(i + 1).last() == items@[i as int]@);
                    }
                    if items[i].is_object() {
                        out.push(&items[i]);
                        assert(out@.map_values(|j: &Json| j@) =~= before.map_values(
                            |j: &Json| j@,
                        ).push(items@[i as int]@));
                    }
                    i = i + 1;
                }
                assert(all.take(i as int) =~= all);
            },
            None => {},
        },
        None => {},
    }
    out
}

/// The files of runs of the jobs, in their order; a job without an identifier has
/// none.
pub open spec fn run_logs_of(jobs: Option<JsonView>, home: Seq<char>) -> Seq<Option<Seq<char>>> {
    listed_jobs(jobs).map_values(
        |job: JsonView|
            {
                let job_id = value_or(job.str_at("id"@), ""@);
                if job_id.len() == 0 {
                    None
                } else {
                    Some(run_log_path(home, job_id))
                }
            },
    )
}

/// The optional texts that a sequence of optional strings stands for.
pub open spec fn opt_texts(v: Seq<Option<String>>) -> Seq<Option<Seq<char>>> {
    v.map_values(|o: Option<String>| opt_text(o))
}

/// The files of runs of the jobs, in their order.
pub fn run_log_files(jobs: Option<&Json>, home: &str) -> (r: Vec<Option<String>>)
    ensures
        opt_texts(r@) == run_logs_of(opt_ref_view(jobs), home@),
{
    let list = job_list(jobs);
    let ghost all = listed_jobs(opt_ref_view(jobs));
    let mut out: Vec<Option<String>> = Vec::new();
    let mut i: usize = 0;
    while i < list.len()
        invariant
            i <= list@.len(),
            all == list@.map_values(|j: &Json| j@),
            all == listed_jobs(opt_ref_view(jobs)),
            out@.len() == i,
            forall|k: int|
                0 <= k < i ==> opt_text(#[trigger] out@[k]) == run_logs_of(
                    opt_ref_view(jobs),
                    home@,
                )[k],
        decreases list@.len() - i,
    {
        assert(all[i as int] == list@[i as int]@);
        let job_id = text_or(list[i].str_at("id"), "");
        out.push(
            if job_id.unicode_len() == 0 {
                None
            } else {
                Some(run_log_file(home, job_id))
            },
        );
        i = i + 1;
    }
    assert(opt_texts(out@) =~= run_logs_of(opt_ref_view(jobs), home@));
    out
}

/// What was read of a file of runs, if anything.
pub open spec fn log_at(logs: Seq<Option<String>>, i: int) -> Option<Seq<char>> {
    if 0 <= i < logs.len() {
        opt_text(logs[i])
    } else {
        None
    }
}

/// The jobs in the form in which they are reported. `jobs` is the value of the file
/// of jobs, where there is one; `logs` holds what was read of each file of runs.
pub open spec fn jobs_of(
    jobs: Option<JsonView>,
    logs: Seq<Option<String>>,
    home: Seq<char>,
    now_ms: int,
) -> Seq<CronJobView> {
    Seq::new(
        listed_jobs(jobs).len(),
        |i: int| job_of(listed_jobs(jobs)[i], latest_run_of(log_at(logs, i)), home, now_ms),
    )
}

/// The jobs in the form in which they are reported.
pub fn read_cron_jobs(
    jobs: Option<&Json>,
    logs: &Vec<Option<String>>,
    home: &str,
    now_ms: i64,
) -> (r: Vec<CronJob>)
    requires
        now_ms >= 0,
    ensures
        job_views(r@) == jobs_of(opt_ref_view(jobs), logs@, home@, now_ms as int),
{
    let list = job_list(jobs);
    let ghost all = listed_jobs(opt_ref_view(jobs));
    let ghost goal = jobs_of(opt_ref_view(jobs), logs@, home@, now_ms as int);
    let mut out: Vec<CronJob> = Vec::new();
    let mut i: usize = 0;
    while i < list.len()
        invariant
            now_ms >= 0,
            i <= list@.len(),
            all == list@.map_values(|j: &Json| j@),
            all == listed_jobs(opt_ref_view(jobs)),
            goal == jobs_of(opt_ref_view(jobs), logs@, home@, now_ms as int),
            out@.len() == i,
            forall|k: int| 0 <= k < i ==> (#[trigger] out@[k])@ == goal[k],
        decreases list@.len() - i,
    {
        assert(all[i as int] == list@[i as int]@);
        let content = if i < logs.len() {
            opt_slice(&logs[i])
        } else {
            None
        };
        let run = latest_run(content);
        out.push(normalize_job(list[i], &run, home, now_ms));
        i = i + 1;
    }
    assert(job_views(out@) =~= goal);
    out
}

/// The jobs of an agent.
pub open spec fn jobs_of_agent(jobs: Seq<CronJobView>, agent_id: Seq<char>) -> Seq<CronJobView> {
    jobs.filter(|j: CronJobView| j.agent_id == Some(agent_id))
}

/// The number of jobs that are switched on.
pub open spec fn enabled_count(jobs: Seq<CronJobView>) -> nat {
    jobs.filter(|j: CronJobView| j.enabled).len()
}

/// The reports on the jobs.
pub open spec fn reports(jobs: Seq<CronJobView>) -> Seq<JsonView> {
    jobs.map_values(|j: CronJobView| j.report)
}

/// What stands in the report on a job stands there under its own name: no name of it comes
/// twice.
proof fn lemma_job_keys(job: JsonView, run: JsonView, home: Seq<char>, now_ms: int, i: int)
    requires
        0 <= i < 27,
    ensures
        ({
            let entries = job_report(job, run, home, now_ms)->Object_0;
            &&& entries.len() == 27
            &&& job_report(job, run, home, now_ms).get(entries[i].0) == Some(entries[i].1)
        }),
{
    let entries = job_report(job, run, home, now_ms)->Object_0;
    reveal_strlit("id");
    assert("id"@.len() == 2);
    reveal_strlit("agent_id");
    assert("agent_id"@.len() == 8);
    reveal_strlit("name");
    assert("name"@.len() == 4);
    reveal_strlit("enabled");
    assert("enabled"@.len() == 7);
    reveal_strlit("delete_after_run");
    assert("delete_after_run"@.len() == 16);
    reveal_strlit("created_at_ms");
    assert("created_at_ms"@.len() == 13);
    reveal_strlit("updated_at_ms");
    assert("updated_at_ms"@.len() == 13);
    reveal_strlit("schedule");
    assert("schedule"@.len() == 8);
    reveal_strlit("session_target");
    assert("session_target"@.len() == 14);
    reveal_strlit("wake_mode");
    assert("wake_mode"@.len() == 9);
    reveal_strlit("delivery");
    assert("delivery"@.len() == 8);
    reveal_strlit("payload");
    assert("payload"@.len() == 7);
    reveal_strlit("state");
    assert("state"@.len() == 5);
    reveal_strlit("latest_run");
    assert("latest_run"@.len() == 10);
    reveal_strlit("run_log_path");
    assert("run_log_path"@.len() == 12);
    reveal_strlit("schedule_label");
    assert("schedule_label"@.len() == 14);
    reveal_strlit("next_run_at_ms");
    assert("next_run_at_ms"@.len() == 14);
    reveal_strlit("next_run_at");
    assert("next_run_at"@.len() == 11);
    reveal_strlit("next_run_in");
    assert("next_run_in"@.len() == 11);
    reveal_strlit("last_run_at_ms");
    assert("last_run_at_ms"@.len() == 14);
    reveal_strlit("last_run_at");
    assert("last_run_at"@.len() == 11);
    reveal_strlit("last_run_ago");
    assert("last_run_ago"@.len() == 12);
    reveal_strlit("status_label");
    assert("status_label"@.len() == 12);
    reveal_strlit("delivery_status_label");
    assert("delivery_status_label"@.len() == 21);
    reveal_strlit("health_status");
    assert("health_status"@.len() == 13);
    reveal_strlit("has_error");
    assert("has_error"@.len() == 9);
    reveal_strlit("summary_preview");
    assert("summary_preview"@.len() == 15);
    assert("created_at_ms"@[0] != "updated_at_ms"@[0]);
    assert("agent_id"@[0] != "schedule"@[0]);
    assert("agent_id"@[0] != "delivery"@[0]);
    assert("schedule"@[0] != "delivery"@[0]);
    assert("enabled"@[0] != "payload"@[0]);
    assert("session_target"@[1] != "schedule_label"@[1]);
    assert("session_target"@[0] != "next_run_at_ms"@[0]);
    assert("schedule_label"@[0] != "next_run_at_ms"@[0]);
    assert("next_run_at"@[9] != "next_run_in"@[9]);
    assert("session_target"@[0] != "last_run_at_ms"@[0]);
    assert("schedule_label"@[0] != "last_run_at_ms"@[0]);
    assert("next_run_at_ms"@[0] != "last_run_at_ms"@[0]);
    assert("next_run_at"@[0] != "last_run_at"@[0]);
    assert("next_run_in"@[0] != "last_run_at"@[0]);
    assert("run_log_path"@[0] != "last_run_ago"@[0]);
    assert("run_log_path"@[0] != "status_label"@[0]);
    assert("last_run_ago"@[0] != "status_label"@[0]);
    assert("created_at_ms"@[0] != "health_status"@[0]);
    assert("updated_at_ms"@[0] != "health_status"@[0]);
    assert("wake_mode"@[0] != "has_error"@[0]);
    assert forall|j: int| 0 <= j < i implies (#[trigger] entries[j]).0 != entries[i].0 by {}
    lemma_entry_value(entries, entries[i].0, i);
}

/// What the state of a job tells of it, or an empty object.
pub open spec fn state_in(job: JsonView) -> JsonView {
    match job.get("state"@) {
        Some(s) => s,
        None => empty_object(),
    }
}

/// How a job fares, as it is reported. A job that is switched off is disabled. Of the
/// others one whose last run went well is healthy; one that did not, and has failed three
/// times in a row or more, is failing; one that failed, but less often, is a warning; and
/// any other is idle. An error is reported exactly where the job is a warning or failing.
pub proof fn law_health_reported(job: JsonView, run: JsonView, home: Seq<char>, now_ms: int)
    ensures
        ({
            let told = job_report(job, run, home, now_ms);
            let health = told.get("health_status"@);
            let state = state_in(job);
            let off = job.get("enabled"@) == Some(JsonView::Bool(false));
            let status = match (state.get("lastStatus"@), state.get("lastRunStatus"@)) {
                (Some(s), _) => Some(s),
                (None, s) => s,
            };
            let ok = status == Some(JsonView::Str("ok"@));
            let failures = match state.i64_at("consecutiveErrors"@) {
                Some(n) => n,
                None => 0,
            };
            &&& told.get("has_error"@) matches Some(JsonView::Bool(e)) && (e <==> health == Some(
                JsonView::Str("warning"@),
            ) || health == Some(JsonView::Str("failing"@)))
            &&& off <==> health == Some(JsonView::Str("disabled"@))
            &&& !off && ok <==> health == Some(JsonView::Str("healthy"@))
            &&& !off && !ok && failures >= 3 <==> health == Some(JsonView::Str("failing"@))
            &&& !off && !ok && failures < 3 && status == Some(JsonView::Str("error"@))
                <==> health == Some(JsonView::Str("warning"@))
            &&& !off && !ok && failures < 3 && status != Some(JsonView::Str("error"@))
                <==> health == Some(JsonView::Str("idle"@))
            &&& !off && !ok && failures >= 3 ==> told.get("has_error"@) == Some(
                JsonView::Bool(true),
            )
            &&& told.get("enabled"@) == Some(JsonView::Bool(!off))
        }),
{
    lemma_job_keys(job, run, home, now_ms, 24);
    lemma_job_keys(job, run, home, now_ms, 25);
    lemma_job_keys(job, run, home, now_ms, 3);
    reveal_strlit("disabled");
    assert("disabled"@.len() == 8);
    reveal_strlit("healthy");
    assert("healthy"@.len() == 7);
    reveal_strlit("failing");
    assert("failing"@.len() == 7);
    reveal_strlit("warning");
    assert("warning"@.len() == 7);
    reveal_strlit("idle");
    assert("idle"@.len() == 4);
    reveal_strlit("ok");
    assert("ok"@.len() == 2);
    reveal_strlit("error");
    assert("error"@.len() == 5);
    assert("healthy"@[0] != "failing"@[0]);
    assert("healthy"@[0] != "warning"@[0]);
    assert("failing"@[0] != "warning"@[0]);
    assert("ok"@ != ""@) by {
        reveal_strlit("");
    }
    assert("error"@ != ""@) by {
        reveal_strlit("");
    }
}

/// The times of a job, as they are reported. The next run is the one that the state of the
/// job names, and the last one too, or else the one that the log of runs names; each is
/// told in milliseconds, as a time, and as the span from now, and is null where it is not
/// known.
pub proof fn law_runs_reported(
    job: JsonView,
    run: JsonView,
    home: Seq<char>,
    now_ms: int,
    next: i64,
    last: i64,
)
    ensures
        ({
            let told = job_report(job, run, home, now_ms);
            let state = state_in(job);
            &&& state.get("nextRunAtMs"@) == Some(int_value(next)) ==> told.get("next_run_at_ms"@)
                == Some(int_value(next)) && told.get("next_run_at"@) == Some(ts_text(Some(next)))
                && told.get("next_run_in"@) == Some(delta_text(Some(next), now_ms))
            &&& state.get("nextRunAtMs"@) is None ==> told.get("next_run_at_ms"@) == Some(
                JsonView::Null,
            ) && told.get("next_run_at"@) == Some(JsonView::Null) && told.get("next_run_in"@)
                == Some(JsonView::Null)
            &&& state.get("lastRunAtMs"@) == Some(int_value(last)) || (state.get(
                "lastRunAtMs"@,
            ) is None && run.get("runAtMs"@) == Some(int_value(last))) ==> told.get(
                "last_run_at_ms"@,
            ) == Some(int_value(last)) && told.get("last_run_at"@) == Some(ts_text(Some(last)))
                && told.get("last_run_ago"@) == Some(delta_text(Some(last), now_ms))
            &&& state.get("lastRunAtMs"@) is None && run.get("runAtMs"@) is None ==> told.get(
                "last_run_at_ms"@,
            ) == Some(JsonView::Null) && told.get("last_run_at"@) == Some(JsonView::Null)
                && told.get("last_run_ago"@) == Some(JsonView::Null)
        }),
{
    lemma_job_keys(job, run, home, now_ms, 16);
    lemma_job_keys(job, run, home, now_ms, 17);
    lemma_job_keys(job, run, home, now_ms, 18);
    lemma_job_keys(job, run, home, now_ms, 19);
    lemma_job_keys(job, run, home, now_ms, 20);
    lemma_job_keys(job, run, home, now_ms, 21);
}

/// What else is reported of a job: what its file tells, under the names of the report, and
/// what the log tells of its last run.
pub proof fn law_job_reported(
    job: JsonView,
    run: JsonView,
    home: Seq<char>,
    now_ms: int,
    s: Seq<char>,
)
    ensures
        ({
            let told = job_report(job, run, home, now_ms);
            let state = state_in(job);
            &&& told.get("id"@) == Some(value_or_null(job.get("id"@)))
            &&& job.get("agentId"@) == Some(JsonView::Str(s)) ==> told.get("agent_id"@) == Some(
                JsonView::Str(s),
            )
            &&& job.get("agentId"@) is None ==> told.get("agent_id"@) == Some(JsonView::Null)
            &&& job.get("name"@) == Some(JsonView::Str(s)) || (job.get("name"@) is None && job.get(
                "id"@,
            ) == Some(JsonView::Str(s))) ==> told.get("name"@) == Some(JsonView::Str(s))
            &&& told.get("delete_after_run"@) == Some(
                JsonView::Bool(job.get("deleteAfterRun"@) == Some(JsonView::Bool(true))),
            )
            &&& told.get("created_at_ms"@) == Some(value_or_null(job.get("createdAtMs"@)))
            &&& told.get("updated_at_ms"@) == Some(value_or_null(job.get("updatedAtMs"@)))
            &&& told.get("session_target"@) == Some(value_or_null(job.get("sessionTarget"@)))
            &&& told.get("wake_mode"@) == Some(value_or_null(job.get("wakeMode"@)))
            &&& told.get("state"@) == Some(state)
            &&& told.get("latest_run"@) == Some(run)
            &&& job.get("schedule"@) is Some ==> told.get("schedule"@) == job.get("schedule"@)
            &&& job.get("delivery"@) is Some ==> told.get("delivery"@) == job.get("delivery"@)
            &&& job.get("id"@) == Some(JsonView::Str(s)) && s.len() > 0 ==> told.get(
                "run_log_path"@,
            ) == Some(
                JsonView::Str(
                    joined_path(
                        joined_path(joined_path(home, "cron"@), "runs"@),
                        s + ".jsonl"@,
                    ),
                ),
            )
            &&& state.get("lastStatus"@) == Some(JsonView::Str(s)) || (state.get("lastStatus"@) is None
                && state.get("lastRunStatus"@) == Some(JsonView::Str(s))) ==> told.get(
                "status_label"@,
            ) == Some(JsonView::Str(s))
            &&& state.get("lastStatus"@) is None && state.get("lastRunStatus"@) is None ==> told.get(
                "status_label"@,
            ) == Some(JsonView::Str("unknown"@))
            &&& told.get("delivery_status_label"@) == Some(
                match (state.get("lastDeliveryStatus"@), run.get("deliveryStatus"@)) {
                    (Some(d), _) => d,
                    (None, Some(d)) => d,
                    (None, None) => JsonView::Null,
                },
            )
            &&& run.get("summary"@) == Some(JsonView::Str(s)) && s.len() > 0 ==> told.get(
                "summary_preview"@,
            ) == Some(
                JsonView::Str(
                    if s.len() > 240 {
                        s.take(240)
                    } else {
                        s
                    },
                ),
            )
            &&& run.get("summary"@) is None ==> told.get("summary_preview"@) == Some(JsonView::Null)
            &&& told.get("payload"@) matches Some(p) && forall|given: JsonView|
                job.get("payload"@) == Some(given) ==> {
                    &&& p.get("kind"@) == Some(value_or_null(#[trigger] given.get("kind"@)))
                    &&& p.get("message"@) == Some(value_or_null(given.get("message"@)))
                    &&& p.get("text"@) == Some(value_or_null(given.get("text"@)))
                    &&& p.get("timeout_seconds"@) == Some(
                        value_or_null(given.get("timeoutSeconds"@)),
                    )
                    &&& p.get("model"@) == Some(value_or_null(given.get("model"@)))
                }
        }),
{
    lemma_job_keys(job, run, home, now_ms, 0);
    lemma_job_keys(job, run, home, now_ms, 1);
    lemma_job_keys(job, run, home, now_ms, 2);
    lemma_job_keys(job, run, home, now_ms, 4);
    lemma_job_keys(job, run, home, now_ms, 5);
    lemma_job_keys(job, run, home, now_ms, 6);
    lemma_job_keys(job, run, home, now_ms, 8);
    lemma_job_keys(job, run, home, now_ms, 9);
    lemma_job_keys(job, run, home, now_ms, 12);
    lemma_job_keys(job, run, home, now_ms, 13);
    lemma_job_keys(job, run, home, now_ms, 7);
    lemma_job_keys(job, run, home, now_ms, 10);
    lemma_job_keys(job, run, home, now_ms, 14);
    lemma_job_keys(job, run, home, now_ms, 22);
    lemma_job_keys(job, run, home, now_ms, 23);
    lemma_job_keys(job, run, home, now_ms, 26);
    lemma_job_keys(job, run, home, now_ms, 11);
    let parts = payload_entries(job);
    reveal_strlit("kind");
    assert("kind"@.len() == 4);
    reveal_strlit("message");
    assert("message"@.len() == 7);
    reveal_strlit("text");
    assert("text"@.len() == 4);
    reveal_strlit("timeout_seconds");
    assert("timeout_seconds"@.len() == 15);
    reveal_strlit("model");
    assert("model"@.len() == 5);
    assert("kind"@[0] != "text"@[0]);
    lemma_entry_value(parts, "kind"@, 0);
    lemma_entry_value(parts, "message"@, 1);
    lemma_entry_value(parts, "text"@, 2);
    lemma_entry_value(parts, "timeout_seconds"@, 3);
    lemma_entry_value(parts, "model"@, 4);
}

/// The schedule of a job in words: a `cron` expression with its time zone, where it names
/// one; the moment of a job that runs once; and of any other schedule its kind.
pub proof fn law_schedule_words(
    job: JsonView,
    run: JsonView,
    home: Seq<char>,
    now_ms: int,
    schedule: JsonView,
    kind: Seq<char>,
    what: Seq<char>,
    zone: Seq<char>,
)
    requires
        job.get("schedule"@) == Some(schedule),
        schedule.get("kind"@) == Some(JsonView::Str(kind)),
    ensures
        ({
            let told = job_report(job, run, home, now_ms).get("schedule_label"@);
            &&& kind == "cron"@ && schedule.get("expr"@) == Some(JsonView::Str(what))
                && schedule.get("tz"@) == Some(JsonView::Str(zone)) ==> told == Some(
                JsonView::Str("cron: "@ + what + " ("@ + zone + ")"@),
            )
            &&& kind == "cron"@ && schedule.get("expr"@) == Some(JsonView::Str(what))
                && schedule.get("tz"@) is None ==> told == Some(JsonView::Str("cron: "@ + what))
            &&& kind == "at"@ && schedule.get("at"@) == Some(JsonView::Str(what)) ==> told == Some(
                JsonView::Str("at: "@ + what),
            )
            &&& kind != "cron"@ && kind != "at"@ ==> told == Some(JsonView::Str(kind))
        }),
{
    lemma_job_keys(job, run, home, now_ms, 15);
    reveal_strlit("cron");
    reveal_strlit("at");
    assert("cron"@.len() == 4 && "at"@.len() == 2);
}

/// The last run of a job is what the last line of its log tells that is not blank: lines
/// before it do not matter, and neither do blank ones behind it.
pub proof fn law_latest_run(before: Seq<Seq<char>>, line: Seq<char>)
    ensures
        trimmed(line).len() > 0 ==> last_filled(before.push(line)) == Some(line),
        trimmed(line).len() == 0 ==> last_filled(before.push(line)) == last_filled(before),
        last_filled(Seq::empty()) is None,
        latest_run_of(None) is Null,
{
    assert(before.push(line).drop_last() =~= before);
}

/// Each job of the file that is an object is reported, in the order of the file, with the
/// last run of its own log.
pub proof fn law_jobs_in_order(
    jobs: JsonView,
    items: Seq<JsonView>,
    logs: Seq<Option<String>>,
    home: Seq<char>,
    now_ms: int,
    i: int,
)
    requires
        jobs.get("jobs"@) == Some(JsonView::Array(items)),
        forall|k: int| 0 <= k < items.len() ==> (#[trigger] items[k]) is Object,
        0 <= i < items.len(),
    ensures
        jobs_of(Some(jobs), logs, home, now_ms).len() == items.len(),
        run_logs_of(Some(jobs), home).len() == items.len(),
        ({
            let told = jobs_of(Some(jobs), logs, home, now_ms)[i];
            let content = if i < logs.len() {
                opt_text(logs[i])
            } else {
                None
            };
            &&& told.report == job_report(items[i], latest_run_of(content), home, now_ms)
            &&& told.enabled <==> items[i].get("enabled"@) != Some(JsonView::Bool(false))
            &&& items[i].get("agentId"@) matches Some(JsonView::Str(a)) ==> told.agent_id == Some(a)
            &&& items[i].get("id"@) matches Some(JsonView::Str(id)) ==> id.len() > 0
                ==> run_logs_of(Some(jobs), home)[i] == Some(
                joined_path(joined_path(joined_path(home, "cron"@), "runs"@), id + ".jsonl"@),
            )
        }),
{
    lemma_all_kept(items);
}

proof fn lemma_all_kept(items: Seq<JsonView>)
    requires
        forall|k: int| 0 <= k < items.len() ==> (#[trigger] items[k]) is Object,
    ensures
        items.filter(|v: JsonView| v.is_object()) == items,
    decreases items.len(),
{
    reveal(Seq::filter);
    if items.len() > 0 {
        let rest = items.drop_last();
        assert(items.last() is Object) by {
            assert(items[items.len() - 1] is Object);
        }
        assert forall|k: int| 0 <= k < rest.len() implies (#[trigger] rest[k]) is Object by {
            assert(items[k] is Object);
        }
        lemma_all_kept(rest);
        assert(rest.push(items.last()) =~= items);
    } else {
        assert(items.filter(|v: JsonView| v.is_object()) =~= items);
    }
}

/// Where the scheduled jobs and the logs of their runs stand below a home.
pub proof fn law_cron_files(home: Seq<char>, id: Seq<char>)
    requires
        home.len() > 0 && home.last() != '/',
        id.len() > 0 && id[0] != '/',
    ensures
        cron_jobs_path(home) == home + "/cron/jobs.json"@,
        run_log_path(home, id) == home + "/cron/runs/"@ + id + ".jsonl"@,
{
    reveal_strlit("cron");
    reveal_strlit("runs");
    reveal_strlit("jobs.json");
    reveal_strlit(".jsonl");
    reveal_strlit("/cron/jobs.json");
    reveal_strlit("/cron/runs/");
    let cron = home + seq!['/'] + "cron"@;
    assert(cron.last() == 'n');
    assert(cron + seq!['/'] + "jobs.json"@ =~= home + "/cron/jobs.json"@);
    let runs = cron + seq!['/'] + "runs"@;
    assert(runs.last() == 's');
    let name = id + ".jsonl"@;
    assert(name[0] == id[0]);
    assert(runs + seq!['/'] + name =~= home + "/cron/runs/"@ + id + ".jsonl"@);
}

} // verus!
