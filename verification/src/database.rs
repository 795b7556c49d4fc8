//! Queries that are put together, and rows as they are reported.

use vstd::prelude::*;
use vstd::string::*;

use crate::commands::{code_value, json_code};
use crate::json::{
    int_or_null, int_value, json_int, json_opt_int, json_opt_text, json_text, lemma_entry_value,
    opt_slice, opt_str_view, opt_text, text_or_null, Fields, Json, JsonView,
};
use crate::text::{cat, cat3, cat5, dec, dec_int, decimal, decimal_i64, occurs, occurs_at, same};

verus! {

// ---------------------------------------------------------------------------
// Queries
// ---------------------------------------------------------------------------

/// The query for restarts: of one instance or of all, in the last minutes or at any
/// time, the newest first. Stored times have a `T` between date and time where those
/// that the database makes have a blank, so they are brought to one form.
pub open spec fn restarts_query_of(by_name: bool, window_minutes: Option<u32>) -> Seq<char> {
    let select =
        "SELECT id, instance_name, timestamp, trigger_reason, success, exit_code, stderr_output, health_after FROM restart_events"@;
    let name = "instance_name = ?"@;
    let order = " ORDER BY timestamp DESC"@;
    match window_minutes {
        Some(mins) => {
            let window = "replace(timestamp, 'T', ' ') >= datetime('now', '-"@ + dec(mins as nat)
                + " minutes')"@;
            if by_name {
                select + " WHERE "@ + (name + " AND "@ + window) + order
            } else {
                select + " WHERE "@ + window + order
            }
        },
        None => if by_name {
            select + " WHERE "@ + name + order
        } else {
            select + order
        },
    }
}

/// The query for restarts.
pub fn restarts_query(by_name: bool, window_minutes: Option<u32>) -> (r: String)
    ensures
        r@ == restarts_query_of(by_name, window_minutes),
{
    let mut query =
        "SELECT id, instance_name, timestamp, trigger_reason, success, exit_code, stderr_output, health_after FROM restart_events".to_owned();
    let condition = match window_minutes {
        Some(mins) => {
            let window = cat3(
                "replace(timestamp, 'T', ' ') >= datetime('now', '-",
                decimal(mins as u64).as_str(),
                " minutes')",
            );
            if by_name {
                Some(cat3("instance_name = ?", " AND ", window.as_str()))
            } else {
                Some(window)
            }
        },
        None => if by_name {
            Some("instance_name = ?".to_owned())
        } else {
            None
        },
    };
    match condition {
        Some(c) => {
            query.append(" WHERE ");
            query.append(c.as_str());
        },
        None => {},
    }
    query.append(" ORDER BY timestamp DESC");
    query
}

/// The modifier of a time that goes back by a number of days.
pub fn days_back(days: i64) -> (r: String)
    ensures
        r@ == "-"@ + dec_int(days as int) + " days"@,
{
    cat3("-", decimal_i64(days).as_str(), " days")
}

/// A number with its sign, a plus sign included.
pub open spec fn with_sign(n: int) -> Seq<char> {
    if n < 0 {
        dec_int(n)
    } else {
        "+"@ + dec_int(n)
    }
}

fn sign_text(n: i32) -> (r: String)
    ensures
        r@ == with_sign(n as int),
{
    if n < 0 {
        decimal_i64(n as i64)
    } else {
        cat("+", decimal_i64(n as i64).as_str())
    }
}

/// The time of a usage in a time zone that is so many hours ahead.
pub open spec fn local_time_of(tz: int) -> Seq<char> {
    "datetime(replace(replace(timestamp, 'T', ' '), 'Z', ''), '"@ + with_sign(tz) + " hours')"@
}

/// The condition on the times of the usages that the heat map shows: the last seven or
/// fourteen days, and otherwise the current day.
pub open spec fn range_condition(range_key: Seq<char>, tz: int) -> Seq<char> {
    if range_key == "7d"@ {
        local_time_of(tz) + " >= datetime('now', '"@ + with_sign(tz) + " hours', '-7 days')"@
    } else if range_key == "14d"@ {
        local_time_of(tz) + " >= datetime('now', '"@ + with_sign(tz) + " hours', '-14 days')"@
    } else {
        "date("@ + local_time_of(tz) + ") = date(datetime('now', '"@ + with_sign(tz)
            + " hours'))"@
    }
}

/// The query for the heat map of agents, by the hours of a day.
pub open spec fn heatmap_query_of(range_key: Seq<char>, tz: int) -> Seq<char> {
    "SELECT instance_name, agent_id, CAST(strftime('%H', "@ + local_time_of(tz)
        + ") AS INTEGER) as hour, SUM(input_tokens + output_tokens + cache_read_tokens + cache_write_tokens) as total_tokens, COUNT(*) as event_count, COUNT(DISTINCT date("@
        + local_time_of(tz) + ")) as active_days FROM token_usage WHERE "@ + range_condition(
        range_key,
        tz,
    ) + " GROUP BY instance_name, agent_id, hour ORDER BY agent_id, hour"@
}

/// The query for the heat map of agents.
pub fn heatmap_query(range_key: &str, tz_offset_hours: i32) -> (r: String)
    ensures
        r@ == heatmap_query_of(range_key@, tz_offset_hours as int),
{
    let tz = sign_text(tz_offset_hours);
    let time = cat3(
        "datetime(replace(replace(timestamp, 'T', ' '), 'Z', ''), '",
        tz.as_str(),
        " hours')",
    );
    let condition = if same(range_key, "7d") {
        let mut c = cat3(time.as_str(), " >= datetime('now', '", tz.as_str());
        c.append(" hours', '-7 days')");
        c
    } else if same(range_key, "14d") {
        let mut c = cat3(time.as_str(), " >= datetime('now', '", tz.as_str());
        c.append(" hours', '-14 days')");
        c
    } else {
        cat5("date(", time.as_str(), ") = date(datetime('now', '", tz.as_str(), " hours'))")
    };
    let mut query = cat5(
        "SELECT instance_name, agent_id, CAST(strftime('%H', ",
        time.as_str(),
        ") AS INTEGER) as hour, SUM(input_tokens + output_tokens + cache_read_tokens + cache_write_tokens) as total_tokens, COUNT(*) as event_count, COUNT(DISTINCT date(",
        time.as_str(),
        ")) as active_days FROM token_usage WHERE ",
    );
    query.append(condition.as_str());
    query.append(" GROUP BY instance_name, agent_id, hour ORDER BY agent_id, hour");
    query
}

// ---------------------------------------------------------------------------
// Lifecycles
// ---------------------------------------------------------------------------

/// What is stored of the lifecycle of an instance.
pub struct Lifecycle {
    pub instance_name: String,
    pub desired_state: String,
    pub updated_at: String,
    pub last_action: Option<String>,
    pub last_action_status: Option<String>,
    pub last_action_at: Option<String>,
    pub last_action_message: Option<String>,
}

/// What a [`Lifecycle`] stands for.
pub struct LifecycleView {
    pub instance_name: Seq<char>,
    pub desired_state: Seq<char>,
    pub updated_at: Seq<char>,
    pub last_action: Option<Seq<char>>,
    pub last_action_status: Option<Seq<char>>,
    pub last_action_at: Option<Seq<char>>,
    pub last_action_message: Option<Seq<char>>,
}

impl View for Lifecycle {
    type V = LifecycleView;

    open spec fn view(&self) -> LifecycleView {
        LifecycleView {
            instance_name: self.instance_name@,
            desired_state: self.desired_state@,
            updated_at: self.updated_at@,
            last_action: opt_text(self.last_action),
            last_action_status: opt_text(self.last_action_status),
            last_action_at: opt_text(self.last_action_at),
            last_action_message: opt_text(self.last_action_message),
        }
    }
}

/// The lifecycle of an instance before anything is stored of it: it is meant to run.
pub open spec fn new_lifecycle(name: Seq<char>, now: Seq<char>) -> LifecycleView {
    LifecycleView {
        instance_name: name,
        desired_state: "running"@,
        updated_at: now,
        last_action: None,
        last_action_status: None,
        last_action_at: None,
        last_action_message: None,
    }
}

impl LifecycleView {
    /// The report on the lifecycle of an instance.
    pub open spec fn report(self) -> JsonView {
        JsonView::Object(
            seq![
                ("instance_name"@, JsonView::Str(self.instance_name)),
                ("desired_state"@, JsonView::Str(self.desired_state)),
                ("updated_at"@, JsonView::Str(self.updated_at)),
                ("last_action"@, text_or_null(self.last_action)),
                ("last_action_status"@, text_or_null(self.last_action_status)),
                ("last_action_at"@, text_or_null(self.last_action_at)),
                ("last_action_message"@, text_or_null(self.last_action_message)),
            ],
        )
    }
}

impl Lifecycle {
    /// The lifecycle of an instance before anything is stored of it.
    pub fn unset(name: &str, now: &str) -> (r: Lifecycle)
        ensures
            r@ == new_lifecycle(name@, now@),
    {
        Lifecycle {
            instance_name: name.to_owned(),
            desired_state: "running".to_owned(),
            updated_at: now.to_owned(),
            last_action: None,
            last_action_status: None,
            last_action_at: None,
            last_action_message: None,
        }
    }

    /// The report on the lifecycle of an instance.
    pub fn to_json(&self) -> (r: Json)
        ensures
            r@ == self@.report(),
    {
        let mut f = Fields::new();
        f.put("instance_name", json_text(self.instance_name.as_str()));
        f.put("desired_state", json_text(self.desired_state.as_str()));
        f.put("updated_at", json_text(self.updated_at.as_str()));
        f.put("last_action", json_opt_text(opt_slice(&self.last_action)));
        f.put("last_action_status", json_opt_text(opt_slice(&self.last_action_status)));
        f.put("last_action_at", json_opt_text(opt_slice(&self.last_action_at)));
        f.put("last_action_message", json_opt_text(opt_slice(&self.last_action_message)));
        assert(f@ == self@.report()->Object_0);
        f.object()
    }
}

/// What is read of the lifecycle of an instance: the stored row, or else one that says
/// that it is meant to run.
pub open spec fn lifecycle_read(
    stored: Option<LifecycleView>,
    name: Seq<char>,
    now: Seq<char>,
) -> LifecycleView {
    match stored {
        Some(row) => row,
        None => new_lifecycle(name, now),
    }
}

/// What is read of the lifecycle of an instance, given its stored row; and whether it is
/// to be stored because there is no row.
pub fn read_lifecycle(stored: Option<Lifecycle>, name: &str, now: &str) -> (r: (Lifecycle, bool))
    ensures
        r.0@ == lifecycle_read(opt_lifecycle(stored), name@, now@),
        r.1 == (stored is None),
{
    match stored {
        Some(row) => (row, false),
        None => (Lifecycle::unset(name, now), true),
    }
}

/// What an optional row stands for.
pub open spec fn opt_lifecycle(row: Option<Lifecycle>) -> Option<LifecycleView> {
    match row {
        Some(l) => Some(l@),
        None => None,
    }
}

/// The row of an instance among the rows.
pub open spec fn row_of(rows: Map<Seq<char>, LifecycleView>, name: Seq<char>) -> Option<
    LifecycleView,
> {
    if rows.contains_key(name) {
        Some(rows[name])
    } else {
        None
    }
}

/// The rows after the lifecycle of an instance was read.
pub open spec fn rows_after_read(
    rows: Map<Seq<char>, LifecycleView>,
    name: Seq<char>,
    now: Seq<char>,
) -> Map<Seq<char>, LifecycleView> {
    if rows.contains_key(name) {
        rows
    } else {
        rows.insert(name, new_lifecycle(name, now))
    }
}

/// The first read of an instance without a row tells that it is meant to run and that
/// nothing was done with it, and leaves one row for it; every later read, at whatever
/// time, gives the same again and leaves the rows as they are, and the rows of other
/// instances are left alone.
pub proof fn law_lifecycle_read_again(
    rows: Map<Seq<char>, LifecycleView>,
    name: Seq<char>,
    now: Seq<char>,
    later: Seq<char>,
    other: Seq<char>,
)
    ensures
        ({
            let first = lifecycle_read(row_of(rows, name), name, now);
            let after = rows_after_read(rows, name, now);
            &&& row_of(rows, name) is None ==> first == (LifecycleView {
                instance_name: name,
                desired_state: "running"@,
                updated_at: now,
                last_action: None,
                last_action_status: None,
                last_action_at: None,
                last_action_message: None,
            })
            &&& row_of(after, name) == Some(first)
            &&& lifecycle_read(row_of(after, name), name, later) == first
            &&& rows_after_read(after, name, later) == after
            &&& other != name ==> row_of(after, other) == row_of(rows, other)
        }),
{
}

/// An entry of the event log as it is stored.
pub struct EventRow {
    pub id: i64,
    pub timestamp: String,
    pub event_type: String,
    pub instance_name: Option<String>,
    pub message: String,
    pub details: Option<String>,
}

/// The report on an entry of the event log.
pub open spec fn event_row_report(row: EventRow) -> JsonView {
    JsonView::Object(
        seq![
            ("id"@, int_value(row.id)),
            ("timestamp"@, JsonView::Str(row.timestamp@)),
            ("event_type"@, JsonView::Str(row.event_type@)),
            ("instance_name"@, text_or_null(opt_text(row.instance_name))),
            ("message"@, JsonView::Str(row.message@)),
            ("details"@, text_or_null(opt_text(row.details))),
        ],
    )
}

impl EventRow {
    /// The report on an entry of the event log.
    pub fn to_json(&self) -> (r: Json)
        ensures
            r@ == event_row_report(*self),
    {
        let mut f = Fields::new();
        f.put("id", json_int(self.id));
        f.put("timestamp", json_text(self.timestamp.as_str()));
        f.put("event_type", json_text(self.event_type.as_str()));
        f.put("instance_name", json_opt_text(opt_slice(&self.instance_name)));
        f.put("message", json_text(self.message.as_str()));
        f.put("details", json_opt_text(opt_slice(&self.details)));
        assert(f@ == event_row_report(*self)->Object_0);
        f.object()
    }
}

/// The result of a probe as it is stored.
pub struct ProbeRow {
    pub id: i64,
    pub instance_name: String,
    pub timestamp: String,
    pub status_code: Option<i64>,
    /// The time that the answer took, a number or null.
    pub response_time_ms: Json,
    pub success: i32,
    pub error: Option<String>,
}

/// The report on the result of a probe.
pub open spec fn probe_row_report(row: ProbeRow) -> JsonView {
    JsonView::Object(
        seq![
            ("id"@, int_value(row.id)),
            ("instance_name"@, JsonView::Str(row.instance_name@)),
            ("timestamp"@, JsonView::Str(row.timestamp@)),
            ("status_code"@, int_or_null(row.status_code)),
            ("response_time_ms"@, row.response_time_ms@),
            ("success"@, int_value(row.success as i64)),
            ("error"@, text_or_null(opt_text(row.error))),
        ],
    )
}

impl ProbeRow {
    /// The report on the result of a probe.
    pub fn to_json(&self) -> (r: Json)
        ensures
            r@ == probe_row_report(*self),
    {
        let mut f = Fields::new();
        f.put("id", json_int(self.id));
        f.put("instance_name", json_text(self.instance_name.as_str()));
        f.put("timestamp", json_text(self.timestamp.as_str()));
        f.put("status_code", json_opt_int(self.status_code));
        f.put("response_time_ms", self.response_time_ms.copy());
        f.put("success", json_int(self.success as i64));
        f.put("error", json_opt_text(opt_slice(&self.error)));
        assert(f@ == probe_row_report(*self)->Object_0);
        f.object()
    }
}

/// A restart as it is stored.
pub struct RestartRow {
    pub id: i64,
    pub instance_name: String,
    pub timestamp: String,
    pub trigger_reason: Option<String>,
    pub success: i32,
    pub exit_code: Option<i32>,
    pub stderr_output: Option<String>,
    pub health_after: Option<i32>,
}

/// The report on a restart.
pub open spec fn restart_row_report(row: RestartRow) -> JsonView {
    JsonView::Object(
        seq![
            ("id"@, int_value(row.id)),
            ("instance_name"@, JsonView::Str(row.instance_name@)),
            ("timestamp"@, JsonView::Str(row.timestamp@)),
            ("trigger_reason"@, text_or_null(opt_text(row.trigger_reason))),
            ("success"@, int_value(row.success as i64)),
            ("exit_code"@, code_value(row.exit_code)),
            ("stderr_output"@, text_or_null(opt_text(row.stderr_output))),
            ("health_after"@, code_value(row.health_after)),
        ],
    )
}

impl RestartRow {
    /// The report on a restart.
    pub fn to_json(&self) -> (r: Json)
        ensures
            r@ == restart_row_report(*self),
    {
        let mut f = Fields::new();
        f.put("id", json_int(self.id));
        f.put("instance_name", json_text(self.instance_name.as_str()));
        f.put("timestamp", json_text(self.timestamp.as_str()));
        f.put("trigger_reason", json_opt_text(opt_slice(&self.trigger_reason)));
        f.put("success", json_int(self.success as i64));
        f.put("exit_code", json_code(self.exit_code));
        f.put("stderr_output", json_opt_text(opt_slice(&self.stderr_output)));
        f.put("health_after", json_code(self.health_after));
        assert(f@ == restart_row_report(*self)->Object_0);
        f.object()
    }
}

/// The value of a setting: what is stored, or else the default.
pub open spec fn setting_of(
    stored: Option<Seq<char>>,
    default_value: Option<Seq<char>>,
) -> Option<Seq<char>> {
    match stored {
        Some(v) => Some(v),
        None => default_value,
    }
}

/// The value of a setting.
pub fn agent_setting(stored: Option<String>, default_value: Option<&str>) -> (r: Option<String>)
    ensures
        opt_text(r) == setting_of(opt_text(stored), opt_str_view(default_value)),
{
    match stored {
        Some(v) => Some(v),
        None => match default_value {
            Some(d) => Some(d.to_owned()),
            None => None,
        },
    }
}

/// The offset up to which a session file was read: what is stored, or its beginning.
pub fn scan_offset(stored: Option<i64>) -> (r: i64)
    ensures
        r == match stored {
            Some(n) => n,
            None => 0i64,
        },
{
    match stored {
        Some(n) => n,
        None => 0,
    }
}

/// The number that stores a truth value.
pub fn stored_bool(b: bool) -> (r: i32)
    ensures
        r == if b {
            1i32
        } else {
            0i32
        },
{
    if b {
        1
    } else {
        0
    }
}

/// The stored lifecycle of an instance is told as it is stored; and one that nothing is
/// stored of is meant to run.
pub proof fn law_lifecycle_told(l: LifecycleView, name: Seq<char>, now: Seq<char>)
    ensures
        l.report().get("instance_name"@) == Some(JsonView::Str(l.instance_name)),
        l.report().get("desired_state"@) == Some(JsonView::Str(l.desired_state)),
        l.report().get("updated_at"@) == Some(JsonView::Str(l.updated_at)),
        l.report().get("last_action"@) == Some(text_or_null(l.last_action)),
        l.report().get("last_action_status"@) == Some(text_or_null(l.last_action_status)),
        l.report().get("last_action_at"@) == Some(text_or_null(l.last_action_at)),
        l.report().get("last_action_message"@) == Some(text_or_null(l.last_action_message)),
        new_lifecycle(name, now).instance_name == name,
        new_lifecycle(name, now).desired_state == "running"@,
        new_lifecycle(name, now).updated_at == now,
        new_lifecycle(name, now).last_action is None,
{
    let entries = l.report()->Object_0;
    reveal_strlit("instance_name");
    assert("instance_name"@.len() == 13);
    reveal_strlit("desired_state");
    assert("desired_state"@.len() == 13);
    reveal_strlit("updated_at");
    assert("updated_at"@.len() == 10);
    reveal_strlit("last_action");
    assert("last_action"@.len() == 11);
    reveal_strlit("last_action_status");
    assert("last_action_status"@.len() == 18);
    reveal_strlit("last_action_at");
    assert("last_action_at"@.len() == 14);
    reveal_strlit("last_action_message");
    assert("last_action_message"@.len() == 19);
    assert("instance_name"@[0] != "desired_state"@[0]);
    lemma_entry_value(entries, "instance_name"@, 0);
    lemma_entry_value(entries, "desired_state"@, 1);
    lemma_entry_value(entries, "updated_at"@, 2);
    lemma_entry_value(entries, "last_action"@, 3);
    lemma_entry_value(entries, "last_action_status"@, 4);
    lemma_entry_value(entries, "last_action_at"@, 5);
    lemma_entry_value(entries, "last_action_message"@, 6);
}

/// The rows of the histories are told as they are stored, each part under its own name.
pub proof fn law_rows_told(e: EventRow, p: ProbeRow, r: RestartRow)
    ensures
        event_row_report(e).get("id"@) == Some(int_value(e.id)),
        event_row_report(e).get("timestamp"@) == Some(JsonView::Str(e.timestamp@)),
        event_row_report(e).get("event_type"@) == Some(JsonView::Str(e.event_type@)),
        event_row_report(e).get("instance_name"@) == Some(text_or_null(opt_text(e.instance_name))),
        event_row_report(e).get("message"@) == Some(JsonView::Str(e.message@)),
        event_row_report(e).get("details"@) == Some(text_or_null(opt_text(e.details))),
        probe_row_report(p).get("id"@) == Some(int_value(p.id)),
        probe_row_report(p).get("instance_name"@) == Some(JsonView::Str(p.instance_name@)),
        probe_row_report(p).get("timestamp"@) == Some(JsonView::Str(p.timestamp@)),
        probe_row_report(p).get("status_code"@) == Some(int_or_null(p.status_code)),
        probe_row_report(p).get("response_time_ms"@) == Some(p.response_time_ms@),
        probe_row_report(p).get("success"@) == Some(int_value(p.success as i64)),
        probe_row_report(p).get("error"@) == Some(text_or_null(opt_text(p.error))),
        restart_row_report(r).get("id"@) == Some(int_value(r.id)),
        restart_row_report(r).get("instance_name"@) == Some(JsonView::Str(r.instance_name@)),
        restart_row_report(r).get("timestamp"@) == Some(JsonView::Str(r.timestamp@)),
        restart_row_report(r).get("trigger_reason"@) == Some(
            text_or_null(opt_text(r.trigger_reason)),
        ),
        restart_row_report(r).get("success"@) == Some(int_value(r.success as i64)),
        restart_row_report(r).get("exit_code"@) == Some(code_value(r.exit_code)),
        restart_row_report(r).get("stderr_output"@) == Some(
            text_or_null(opt_text(r.stderr_output)),
        ),
        restart_row_report(r).get("health_after"@) == Some(code_value(r.health_after)),
{
    let event = event_row_report(e)->Object_0;
    let probe = probe_row_report(p)->Object_0;
    let restart = restart_row_report(r)->Object_0;
    reveal_strlit("id");
    assert("id"@.len() == 2);
    reveal_strlit("timestamp");
    assert("timestamp"@.len() == 9);
    reveal_strlit("event_type");
    assert("event_type"@.len() == 10);
    reveal_strlit("instance_name");
    assert("instance_name"@.len() == 13);
    reveal_strlit("message");
    assert("message"@.len() == 7);
    reveal_strlit("details");
    assert("details"@.len() == 7);
    reveal_strlit("status_code");
    assert("status_code"@.len() == 11);
    reveal_strlit("response_time_ms");
    assert("response_time_ms"@.len() == 16);
    reveal_strlit("success");
    assert("success"@.len() == 7);
    reveal_strlit("error");
    assert("error"@.len() == 5);
    reveal_strlit("trigger_reason");
    assert("trigger_reason"@.len() == 14);
    reveal_strlit("exit_code");
    assert("exit_code"@.len() == 9);
    reveal_strlit("stderr_output");
    assert("stderr_output"@.len() == 13);
    reveal_strlit("health_after");
    assert("health_after"@.len() == 12);
    assert("message"@[0] != "details"@[0]);
    lemma_entry_value(event, "id"@, 0);
    lemma_entry_value(event, "timestamp"@, 1);
    lemma_entry_value(event, "event_type"@, 2);
    lemma_entry_value(event, "instance_name"@, 3);
    lemma_entry_value(event, "message"@, 4);
    lemma_entry_value(event, "details"@, 5);
    lemma_entry_value(probe, "id"@, 0);
    lemma_entry_value(probe, "instance_name"@, 1);
    lemma_entry_value(probe, "timestamp"@, 2);
    lemma_entry_value(probe, "status_code"@, 3);
    lemma_entry_value(probe, "response_time_ms"@, 4);
    lemma_entry_value(probe, "success"@, 5);
    lemma_entry_value(probe, "error"@, 6);
    assert("timestamp"@[0] != "exit_code"@[0]);
    assert("instance_name"@[0] != "stderr_output"@[0]);
    lemma_entry_value(restart, "id"@, 0);
    lemma_entry_value(restart, "instance_name"@, 1);
    lemma_entry_value(restart, "timestamp"@, 2);
    lemma_entry_value(restart, "trigger_reason"@, 3);
    lemma_entry_value(restart, "success"@, 4);
    lemma_entry_value(restart, "exit_code"@, 5);
    lemma_entry_value(restart, "stderr_output"@, 6);
    lemma_entry_value(restart, "health_after"@, 7);
}

proof fn lemma_stands(a: Seq<char>, p: Seq<char>, b: Seq<char>)
    ensures
        occurs(a + p + b, p),
{
    let s = a + p + b;
    let n = a.len() as int;
    assert(s.subrange(n, n + p.len()) =~= p);
    assert(occurs_at(s, p, n));
}

/// The question for restarts asks for those of one instance where it is to, and for those of
/// the window where there is one, of as many minutes as it has; and it asks for the newest
/// first.
pub proof fn law_restarts_asked(by_name: bool, window_minutes: Option<u32>)
    ensures
        ({
            let q = restarts_query_of(by_name, window_minutes);
            &&& by_name ==> occurs(q, "instance_name = ?"@)
            &&& window_minutes matches Some(m) ==> occurs(
                q,
                "replace(timestamp, 'T', ' ') >= datetime('now', '-"@ + dec(m as nat)
                    + " minutes')"@,
            )
            &&& occurs(q, " ORDER BY timestamp DESC"@)
            &&& occurs(q, " FROM restart_events"@)
        }),
{
    let q = restarts_query_of(by_name, window_minutes);
    let select =
        "SELECT id, instance_name, timestamp, trigger_reason, success, exit_code, stderr_output, health_after FROM restart_events"@;
    let name = "instance_name = ?"@;
    let order = " ORDER BY timestamp DESC"@;
    let none = Seq::<char>::empty();
    reveal_strlit(
        "SELECT id, instance_name, timestamp, trigger_reason, success, exit_code, stderr_output, health_after FROM restart_events",
    );
    reveal_strlit(" FROM restart_events");
    let n = select.len() - " FROM restart_events"@.len();
    assert(select.skip(n) =~= " FROM restart_events"@);
    assert(select =~= select.take(n) + " FROM restart_events"@);
    let tail = q.skip(select.len() as int);
    assert(q =~= select + tail);
    lemma_stands(select.take(n), " FROM restart_events"@, tail);
    assert(q =~= select.take(n) + " FROM restart_events"@ + tail);
    let head = q.take(q.len() - order.len());
    assert(q =~= head + order + none);
    lemma_stands(head, order, none);
    match window_minutes {
        Some(m) => {
            let window = "replace(timestamp, 'T', ' ') >= datetime('now', '-"@ + dec(m as nat)
                + " minutes')"@;
            if by_name {
                assert(q =~= (select + " WHERE "@) + name + (" AND "@ + window + order));
                lemma_stands(select + " WHERE "@, name, " AND "@ + window + order);
                assert(q =~= (select + " WHERE "@ + name + " AND "@) + window + order);
                lemma_stands(select + " WHERE "@ + name + " AND "@, window, order);
            } else {
                assert(q =~= (select + " WHERE "@) + window + order);
                lemma_stands(select + " WHERE "@, window, order);
            }
        },
        None => {
            if by_name {
                assert(q =~= (select + " WHERE "@) + name + order);
                lemma_stands(select + " WHERE "@, name, order);
            }
        },
    }
}

/// The heat map is asked for the days of its range, in the time of the zone: for a week or
/// two, or otherwise for the current day.
pub proof fn law_range_asked(range_key: Seq<char>, tz: int)
    ensures
        ({
            let c = range_condition(range_key, tz);
            &&& occurs(heatmap_query_of(range_key, tz), c)
            &&& range_key == "7d"@ ==> occurs(c, "'-7 days'"@)
            &&& range_key == "14d"@ ==> occurs(c, "'-14 days'"@)
            &&& range_key != "7d"@ && range_key != "14d"@ ==> occurs(c, "date("@)
            &&& occurs(c, with_sign(tz) + " hours')"@)
        }),
        tz >= 0 ==> with_sign(tz) == "+"@ + dec_int(tz),
        tz < 0 ==> with_sign(tz) == dec_int(tz),
{
    let c = range_condition(range_key, tz);
    let q = heatmap_query_of(range_key, tz);
    let none = Seq::<char>::empty();
    let end = " GROUP BY instance_name, agent_id, hour ORDER BY agent_id, hour"@;
    let head = q.take(q.len() - end.len() - c.len());
    assert(q =~= head + c + end);
    lemma_stands(head, c, end);
    reveal_strlit("7d");
    reveal_strlit("14d");
    assert("7d"@.len() == 2 && "14d"@.len() == 3);
    let zone = with_sign(tz) + " hours')"@;
    let at = "datetime(replace(replace(timestamp, 'T', ' '), 'Z', ''), '"@;
    if range_key == "7d"@ {
        reveal_strlit(" hours', '-7 days')");
        reveal_strlit("'-7 days'");
        reveal_strlit(")");
        let tail = " hours', '-7 days')"@;
        assert(tail =~= tail.take(9) + "'-7 days'"@ + ")"@);
        let start = c.take(c.len() - tail.len());
        assert(c =~= (start + tail.take(9)) + "'-7 days'"@ + ")"@);
        lemma_stands(start + tail.take(9), "'-7 days'"@, ")"@);
        assert(c =~= at + zone + c.skip((at + zone).len() as int));
        lemma_stands(at, zone, c.skip((at + zone).len() as int));
    } else if range_key == "14d"@ {
        reveal_strlit(" hours', '-14 days')");
        reveal_strlit("'-14 days'");
        reveal_strlit(")");
        let tail = " hours', '-14 days')"@;
        assert(tail =~= tail.take(9) + "'-14 days'"@ + ")"@);
        let start = c.take(c.len() - tail.len());
        assert(c =~= (start + tail.take(9)) + "'-14 days'"@ + ")"@);
        lemma_stands(start + tail.take(9), "'-14 days'"@, ")"@);
        assert(c =~= at + zone + c.skip((at + zone).len() as int));
        lemma_stands(at, zone, c.skip((at + zone).len() as int));
    } else {
        let tail = c.skip("date("@.len() as int);
        assert(c =~= none + "date("@ + tail);
        lemma_stands(none, "date("@, tail);
        let before = "date("@ + at;
        assert(c =~= before + zone + c.skip((before + zone).len() as int));
        lemma_stands(before, zone, c.skip((before + zone).len() as int));
    }
}

/// What is stored and read of settings, offsets and truth values.
pub proof fn law_stored_values(
    stored: Option<i64>,
    offset: i64,
    b: bool,
    number: i32,
    value: Option<Seq<char>>,
    usual: Option<Seq<char>>,
    days: i64,
    back: String,
)
    requires
        call_ensures(scan_offset, (stored,), offset),
        call_ensures(stored_bool, (b,), number),
        call_ensures(days_back, (days,), back),
    ensures
        stored matches Some(n) ==> offset == n,
        stored is None ==> offset == 0,
        number == 1 <==> b,
        number == 0 <==> !b,
        value is Some ==> setting_of(value, usual) == value,
        value is None ==> setting_of(value, usual) == usual,
        back@ == "-"@ + dec_int(days as int) + " days"@,
{
}

/// The heat map adds up all four counts of tokens, counts the uses and the days, and takes the
/// hour of the time in the zone.
pub proof fn law_heat_asked(range_key: Seq<char>, tz: int)
    ensures
        ({
            let q = heatmap_query_of(range_key, tz);
            let at = "datetime(replace(replace(timestamp, 'T', ' '), 'Z', ''), '"@ + with_sign(tz)
                + " hours')"@;
            &&& occurs(
                q,
                "SUM(input_tokens + output_tokens + cache_read_tokens + cache_write_tokens) as total_tokens"@,
            )
            &&& occurs(q, "COUNT(*) as event_count"@)
            &&& occurs(q, "strftime('%H', "@ + at)
            &&& occurs(q, "COUNT(DISTINCT date("@ + at)
            &&& occurs(q, " GROUP BY instance_name, agent_id, hour"@)
        }),
{
    let q = heatmap_query_of(range_key, tz);
    let at = local_time_of(tz);
    let select = "SELECT instance_name, agent_id, CAST(strftime('%H', "@;
    let hour = "strftime('%H', "@;
    let middle =
        ") AS INTEGER) as hour, SUM(input_tokens + output_tokens + cache_read_tokens + cache_write_tokens) as total_tokens, COUNT(*) as event_count, COUNT(DISTINCT date("@;
    let sum =
        "SUM(input_tokens + output_tokens + cache_read_tokens + cache_write_tokens) as total_tokens"@;
    let uses = "COUNT(*) as event_count"@;
    let days = "COUNT(DISTINCT date("@;
    let end = " GROUP BY instance_name, agent_id, hour ORDER BY agent_id, hour"@;
    let group = " GROUP BY instance_name, agent_id, hour"@;
    reveal_strlit("SELECT instance_name, agent_id, CAST(strftime('%H', ");
    reveal_strlit("strftime('%H', ");
    reveal_strlit(
        ") AS INTEGER) as hour, SUM(input_tokens + output_tokens + cache_read_tokens + cache_write_tokens) as total_tokens, COUNT(*) as event_count, COUNT(DISTINCT date(",
    );
    reveal_strlit(
        "SUM(input_tokens + output_tokens + cache_read_tokens + cache_write_tokens) as total_tokens",
    );
    reveal_strlit("COUNT(*) as event_count");
    reveal_strlit("COUNT(DISTINCT date(");
    reveal_strlit(" GROUP BY instance_name, agent_id, hour ORDER BY agent_id, hour");
    reveal_strlit(" GROUP BY instance_name, agent_id, hour");
    let h = select.len() - hour.len();
    assert(select =~= select.take(h) + hour);
    let rest = q.skip((select + at).len() as int);
    assert(q =~= select.take(h) + (hour + at) + rest);
    lemma_stands(select.take(h), hour + at, rest);
    let before = select + at;
    let behind = q.skip((before + middle).len() as int);
    assert(q =~= before + middle + behind);
    let a: int = 23;
    assert(middle.subrange(a, a + sum.len()) =~= sum);
    assert(middle =~= middle.take(a) + sum + middle.skip(a + sum.len()));
    assert(q =~= (before + middle.take(a)) + sum + (middle.skip(a + sum.len()) + behind));
    lemma_stands(before + middle.take(a), sum, middle.skip(a + sum.len()) + behind);
    let b: int = a + sum.len() + 2;
    assert(middle.subrange(b, b + uses.len()) =~= uses);
    assert(middle =~= middle.take(b) + uses + middle.skip(b + uses.len()));
    assert(q =~= (before + middle.take(b)) + uses + (middle.skip(b + uses.len()) + behind));
    lemma_stands(before + middle.take(b), uses, middle.skip(b + uses.len()) + behind);
    let c: int = middle.len() - days.len();
    assert(middle =~= middle.take(c) + days);
    let last = q.skip((before + middle + at).len() as int);
    assert(q =~= (before + middle.take(c)) + (days + at) + last);
    lemma_stands(before + middle.take(c), days + at, last);
    let head = q.take(q.len() - end.len());
    assert(end =~= group + end.skip(group.len() as int));
    assert(q =~= head + group + end.skip(group.len() as int));
    lemma_stands(head, group, end.skip(group.len() as int));
}

} // verus!
