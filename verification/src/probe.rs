//! Probes of the health of instances.

use vstd::prelude::*;
use vstd::string::*;

use crate::clock::Moment;
use crate::commands::{healthy_status, is_healthy_status};
use crate::config::{unknown_state, InstanceConfig, InstanceState, ProbeConfig};
use crate::event_log::{instance_event, opt_event, EventRecord, EventView};
use crate::json::{opt_text, text_or, value_or, Json, JsonView};
use crate::store::KeyedStore;
use crate::text::{cat3, cat5, dec, decimal, lemma_dec, same};

verus! {

// ---------------------------------------------------------------------------
// One probe
// ---------------------------------------------------------------------------

/// The address at which an instance tells of its health.
pub open spec fn health_url_of(port: u16) -> Seq<char> {
    "http://127.0.0.1:"@ + dec(port as nat) + "/health"@
}

/// The address at which an instance tells of its health.
pub fn health_url(port: u16) -> (r: String)
    ensures
        r@ == health_url_of(port),
{
    cat3("http://127.0.0.1:", decimal(port as u64).as_str(), "/health")
}

/// What came of a probe.
pub enum ProbeOutcome {
    /// An answer came, after this many hundredths of a millisecond.
    Answered { status: u16, elapsed: u64 },
    /// No answer came.
    Failed { error: String },
    /// No answer came in time.
    TimedOut,
}

impl ProbeOutcome {
    /// Whether the instance is healthy.
    pub open spec fn healthy(self) -> bool {
        self matches ProbeOutcome::Answered { status, .. } && is_healthy_status(status)
    }
}

/// What is stored of a probe, beside the time that it took.
pub struct ProbeRecord {
    pub status_code: Option<u16>,
    pub success: bool,
    pub error: Option<String>,
}

/// What a [`ProbeRecord`] stands for.
pub struct ProbeRecordView {
    pub status_code: Option<u16>,
    pub success: bool,
    pub error: Option<Seq<char>>,
}

impl View for ProbeRecord {
    type V = ProbeRecordView;

    open spec fn view(&self) -> ProbeRecordView {
        ProbeRecordView {
            status_code: self.status_code,
            success: self.success,
            error: opt_text(self.error),
        }
    }
}

/// What is stored of a probe.
pub open spec fn record_of(outcome: ProbeOutcome) -> ProbeRecordView {
    match outcome {
        ProbeOutcome::Answered { status, elapsed } => ProbeRecordView {
            status_code: Some(status),
            success: is_healthy_status(status),
            error: None,
        },
        ProbeOutcome::Failed { error } => ProbeRecordView {
            status_code: None,
            success: false,
            error: Some(error@),
        },
        ProbeOutcome::TimedOut => ProbeRecordView {
            status_code: None,
            success: false,
            error: Some("timeout"@),
        },
    }
}

/// What is stored of a probe.
pub fn probe_record(outcome: &ProbeOutcome) -> (r: ProbeRecord)
    ensures
        r@ == record_of(*outcome),
{
    match outcome {
        ProbeOutcome::Answered { status, .. } => ProbeRecord {
            status_code: Some(*status),
            success: healthy_status(*status),
            error: None,
        },
        ProbeOutcome::Failed { error } => ProbeRecord {
            status_code: None,
            success: false,
            error: Some(error.clone()),
        },
        ProbeOutcome::TimedOut => ProbeRecord {
            status_code: None,
            success: false,
            error: Some("timeout".to_owned()),
        },
    }
}

/// The state of an instance after a probe at `now`. A healthy answer brings it up and
/// ends the row of failures; any other outcome adds to that row, and leaves open
/// whether the instance is up.
pub open spec fn after_probe(
    state: InstanceState,
    outcome: ProbeOutcome,
    now: Moment,
) -> InstanceState {
    let (elapsed, status) = match outcome {
        ProbeOutcome::Answered { status, elapsed } => (Some(elapsed), Some(status)),
        _ => (None, None),
    };
    if outcome.healthy() {
        InstanceState {
            online: Some(true),
            last_check: Some(now),
            last_response_time: elapsed,
            last_status_code: status,
            consecutive_failures: 0,
            uptime_since: if state.online == Some(true) {
                state.uptime_since
            } else {
                Some(now)
            },
        }
    } else {
        InstanceState {
            online: state.online,
            last_check: Some(now),
            last_response_time: elapsed,
            last_status_code: status,
            consecutive_failures: (state.consecutive_failures + 1) as u32,
            uptime_since: state.uptime_since,
        }
    }
}

/// The entry in the event log on a probe: that the instance is back, where it was
/// down.
pub open spec fn recovery_event(
    state: InstanceState,
    outcome: ProbeOutcome,
    name: Seq<char>,
) -> Option<EventView> {
    if outcome.healthy() && state.online == Some(false) {
        Some(instance_event("recovery"@, "实例 "@ + name + " 恢复在线"@, name, None))
    } else {
        None
    }
}

fn is_online(state: &InstanceState, value: bool) -> (r: bool)
    ensures
        r == (state.online == Some(value)),
{
    match state.online {
        Some(b) => b == value,
        None => false,
    }
}

/// Takes in what came of a probe: whether the instance is healthy, and the entry in
/// the event log.
pub fn probe_instance(
    state: &mut InstanceState,
    outcome: &ProbeOutcome,
    name: &str,
    now: Moment,
) -> (r: (bool, Option<EventRecord>))
    requires
        old(state).consecutive_failures < u32::MAX,
    ensures
        *final(state) == after_probe(*old(state), *outcome, now),
        r.0 == outcome.healthy(),
        opt_event(r.1) == recovery_event(*old(state), *outcome, name@),
{
    let (elapsed, status, healthy) = match outcome {
        ProbeOutcome::Answered { status, elapsed } => (
            Some(*elapsed),
            Some(*status),
            healthy_status(*status),
        ),
        _ => (None, None, false),
    };
    state.last_check = Some(now);
    state.last_response_time = elapsed;
    state.last_status_code = status;
    let mut event: Option<EventRecord> = None;
    if healthy {
        if !is_online(state, true) {
            state.uptime_since = Some(now);
            if is_online(state, false) {
                event = Some(
                    EventRecord::on_instance(
                        "recovery",
                        cat3("实例 ", name, " 恢复在线"),
                        name,
                        None,
                    ),
                );
            }
        }
        state.online = Some(true);
        state.consecutive_failures = 0;
    } else {
        state.consecutive_failures = state.consecutive_failures + 1;
    }
    (healthy, event)
}

// ---------------------------------------------------------------------------
// A probe with a second try
// ---------------------------------------------------------------------------

/// What follows a probe.
#[derive(Debug, Clone, Copy, PartialEq, Eq, Structural)]
pub enum ProbeNext {
    /// The instance is healthy: nothing more.
    Healthy,
    /// Wait for this many seconds, then probe once more.
    RetryAfter(u64),
    /// Settle whether the instance is down.
    Settle,
}

/// What follows a probe: a second one after a first that failed, and no third one.
pub open spec fn next_after(healthy: bool, is_retry: bool, config: ProbeConfig) -> ProbeNext {
    if healthy {
        ProbeNext::Healthy
    } else if !is_retry {
        ProbeNext::RetryAfter(config.retry_delay_seconds)
    } else {
        ProbeNext::Settle
    }
}

/// What follows a probe.
pub fn probe_next(healthy: bool, is_retry: bool, config: &ProbeConfig) -> (r: ProbeNext)
    ensures
        r == next_after(healthy, is_retry, *config),
{
    if healthy {
        ProbeNext::Healthy
    } else if !is_retry {
        ProbeNext::RetryAfter(config.retry_delay_seconds)
    } else {
        ProbeNext::Settle
    }
}

/// The state of an instance after it was settled whether it is down: it is after as
/// many failures in a row as the threshold asks for.
pub open spec fn settled(state: InstanceState, threshold: u32) -> InstanceState {
    if state.consecutive_failures >= threshold {
        InstanceState { online: Some(false), uptime_since: None, ..state }
    } else {
        state
    }
}

/// The entry in the event log on an instance that goes down.
pub open spec fn down_event(
    state: InstanceState,
    threshold: u32,
    name: Seq<char>,
) -> Option<EventView> {
    if state.consecutive_failures >= threshold && state.online != Some(false) {
        Some(
            instance_event(
                "down"@,
                "实例 "@ + name + " 确认宕机（连续 "@ + dec(state.consecutive_failures as nat)
                    + " 次探测失败）"@,
                name,
                None,
            ),
        )
    } else {
        None
    }
}

/// Settles whether an instance is down.
pub fn settle_down(state: &mut InstanceState, threshold: u32, name: &str) -> (r: Option<EventRecord>)
    ensures
        *final(state) == settled(*old(state), threshold),
        opt_event(r) == down_event(*old(state), threshold, name@),
{
    if state.consecutive_failures < threshold {
        return None;
    }
    let was_down = is_online(state, false);
    state.online = Some(false);
    state.uptime_since = None;
    if was_down {
        None
    } else {
        let count = decimal(state.consecutive_failures as u64);
        Some(
            EventRecord::on_instance(
                "down",
                cat5("实例 ", name, " 确认宕机（连续 ", count.as_str(), " 次探测失败）"),
                name,
                None,
            ),
        )
    }
}

// ---------------------------------------------------------------------------
// A round of probes
// ---------------------------------------------------------------------------

/// The state that an instance is meant to be in, by its stored lifecycle.
pub open spec fn desired_state_of(lifecycle: JsonView) -> Seq<char> {
    value_or(lifecycle.str_at("desired_state"@), "running"@)
}

/// The state that an instance is meant to be in.
pub fn desired_state(lifecycle: &Json) -> (r: &str)
    ensures
        r@ == desired_state_of(lifecycle@),
{
    text_or(lifecycle.str_at("desired_state"), "running")
}

/// Whether an instance is meant to run.
pub open spec fn meant_to_run(lifecycle: JsonView) -> bool {
    desired_state_of(lifecycle) == "running"@
}

/// Whether an instance is meant to run.
pub fn is_meant_to_run(lifecycle: &Json) -> (r: bool)
    ensures
        r == meant_to_run(lifecycle@),
{
    same(desired_state(lifecycle), "running")
}

/// What a round of probes does with an instance.
#[derive(Debug, Clone, Copy, PartialEq, Eq, Structural)]
pub enum ProbePlan {
    /// Nothing: the instance is switched off.
    Skip,
    /// Note that it is not up: it is not meant to run.
    NoteStopped,
    /// Probe it.
    Probe,
}

/// What a round of probes does with an instance.
pub open spec fn plan_of(instance: InstanceConfig, lifecycle: JsonView) -> ProbePlan {
    if !instance.enabled {
        ProbePlan::Skip
    } else if meant_to_run(lifecycle) {
        ProbePlan::Probe
    } else {
        ProbePlan::NoteStopped
    }
}

/// What a round of probes does with an instance.
pub fn plan_probe(instance: &InstanceConfig, lifecycle: &Json) -> (r: ProbePlan)
    ensures
        r == plan_of(*instance, lifecycle@),
{
    if !instance.enabled {
        ProbePlan::Skip
    } else if is_meant_to_run(lifecycle) {
        ProbePlan::Probe
    } else {
        ProbePlan::NoteStopped
    }
}

/// The state of an instance that is not meant to run.
pub open spec fn noted_stopped(state: InstanceState) -> InstanceState {
    InstanceState { online: Some(false), uptime_since: None, consecutive_failures: 0, ..state }
}

/// Notes that an instance is not up because it is not meant to run.
pub fn note_stopped(state: &mut InstanceState)
    ensures
        *final(state) == noted_stopped(*old(state)),
{
    state.online = Some(false);
    state.uptime_since = None;
    state.consecutive_failures = 0;
}

/// The state of an instance among the states, or the unknown one.
pub open spec fn state_among(states: Map<Seq<char>, InstanceState>, name: Seq<char>) -> InstanceState {
    if states.contains_key(name) {
        states[name]
    } else {
        unknown_state()
    }
}

/// The state of an instance among the states.
pub fn state_of(states: &KeyedStore<InstanceState>, name: &str) -> (r: InstanceState)
    ensures
        r == state_among(states@, name@),
{
    match states.get(name) {
        Some(s) => *s,
        None => InstanceState::default(),
    }
}

// ---------------------------------------------------------------------------
// Laws
// ---------------------------------------------------------------------------

/// The state after a probe, a second one where the first asks for it, and the
/// settling of what they leave open.
pub open spec fn after_round(
    state: InstanceState,
    first: ProbeOutcome,
    second: ProbeOutcome,
    config: ProbeConfig,
    t1: Moment,
    t2: Moment,
) -> InstanceState {
    let s1 = after_probe(state, first, t1);
    match next_after(first.healthy(), false, config) {
        ProbeNext::Healthy => s1,
        ProbeNext::Settle => settled(s1, config.failure_threshold),
        ProbeNext::RetryAfter(_) => {
            let s2 = after_probe(s1, second, t2);
            match next_after(second.healthy(), true, config) {
                ProbeNext::Healthy => s2,
                _ => settled(s2, config.failure_threshold),
            }
        },
    }
}

/// A round in which the first probe or the one that follows its failure gets a healthy
/// answer finds the instance up, without failures, whatever the threshold; one in which
/// both probes fail takes it down exactly when the row of failures has reached the
/// threshold, and a probe alone never takes an instance down.
pub proof fn law_round_outcome(
    state: InstanceState,
    first: ProbeOutcome,
    second: ProbeOutcome,
    config: ProbeConfig,
    t1: Moment,
    t2: Moment,
)
    requires
        state.consecutive_failures < u32::MAX - 1,
    ensures
        ({
            let after = after_round(state, first, second, config, t1, t2);
            let failures = state.consecutive_failures;
            &&& first.healthy() ==> after.online == Some(true) && after.consecutive_failures == 0
            &&& !first.healthy() ==> next_after(false, false, config) == ProbeNext::RetryAfter(
                config.retry_delay_seconds,
            )
            &&& !first.healthy() && second.healthy() ==> after.online == Some(true)
                && after.consecutive_failures == 0
            &&& !first.healthy() && !second.healthy() ==> after.consecutive_failures == failures
                + 2
            &&& !first.healthy() && !second.healthy() && failures + 2 >= config.failure_threshold
                ==> after.online == Some(false) && after.uptime_since is None
            &&& !first.healthy() && !second.healthy() && failures + 2 < config.failure_threshold
                ==> after.online == state.online && after.uptime_since == state.uptime_since
        }),
        !first.healthy() ==> after_probe(state, first, t1).online == state.online,
{
}

/// The log tells of an instance by turns that it went down and that it is back: once
/// it is down no second entry says so, and an entry that it is back comes only where
/// it was down.
pub proof fn law_log_alternates(
    state: InstanceState,
    outcome: ProbeOutcome,
    threshold: u32,
    name: Seq<char>,
    now: Moment,
)
    ensures
        down_event(state, threshold, name) is Some ==> settled(state, threshold).online == Some(
            false,
        ) && down_event(settled(state, threshold), threshold, name) is None,
        recovery_event(state, outcome, name) is Some ==> state.online == Some(false)
            && recovery_event(after_probe(state, outcome, now), outcome, name) is None,
{
}

/// What is noted of an instance is not up, and has no failures that a restart could
/// follow.
pub proof fn law_stopped_has_no_failures(state: InstanceState)
    ensures
        noted_stopped(state).online == Some(false),
        noted_stopped(state).consecutive_failures == 0,
        noted_stopped(state).uptime_since is None,
        noted_stopped(noted_stopped(state)) == noted_stopped(state),
{
}

/// What one probe does. An answer with a status of success, and nothing else, makes the
/// instance healthy: it is up, has no failures, and has been up since this answer, or since
/// before where it was up already. Anything else is one more failure in a row, and changes
/// neither whether it counts as up nor since when. In every case the time of the probe is
/// noted, and the status and the time that an answer took, or that there was none.
pub proof fn law_probe_noted(state: InstanceState, outcome: ProbeOutcome, now: Moment)
    requires
        state.consecutive_failures < u32::MAX,
    ensures
        ({
            let after = after_probe(state, outcome, now);
            let good = outcome matches ProbeOutcome::Answered { status, elapsed } && status >= 200
                && status <= 299;
            &&& outcome.healthy() <==> good
            &&& after.last_check == Some(now)
            &&& outcome matches ProbeOutcome::Answered { status, elapsed }
                ==> after.last_status_code == Some(status) && after.last_response_time == Some(
                elapsed,
            )
            &&& !(outcome is Answered) ==> after.last_status_code is None
                && after.last_response_time is None
            &&& good ==> after.online == Some(true) && after.consecutive_failures == 0
            &&& good && state.online != Some(true) ==> after.uptime_since == Some(now)
            &&& good && state.online == Some(true) ==> after.uptime_since == state.uptime_since
            &&& !good ==> after.online == state.online && after.uptime_since == state.uptime_since
                && after.consecutive_failures == state.consecutive_failures + 1
        }),
{
}

/// What is stored of a probe: the status of an answer and whether it is one of success, or
/// the error in place of an answer.
pub proof fn law_probe_recorded(outcome: ProbeOutcome)
    ensures
        ({
            let r = record_of(outcome);
            &&& r.success <==> outcome.healthy()
            &&& r.success ==> r.error is None
            &&& r.status_code is Some <==> outcome is Answered
            &&& r.error is Some <==> !(outcome is Answered)
            &&& outcome matches ProbeOutcome::Answered { status, elapsed } ==> r.status_code
                == Some(status) && (r.success <==> status >= 200 && status < 300)
            &&& outcome matches ProbeOutcome::Failed { error } ==> r.error == Some(error@)
            &&& outcome is TimedOut ==> r.error == Some("timeout"@)
        }),
{
}

/// The log tells that an instance is back exactly where it counted as down and an answer of
/// success comes; and that it is down exactly where it did not count as down yet and has
/// failed as many times in a row as the threshold asks for. Both entries name the instance.
pub proof fn law_log_tells(
    state: InstanceState,
    outcome: ProbeOutcome,
    threshold: u32,
    name: Seq<char>,
)
    ensures
        recovery_event(state, outcome, name) is Some <==> state.online == Some(false) && (
        outcome matches ProbeOutcome::Answered { status, elapsed } && status >= 200 && status
            < 300),
        recovery_event(state, outcome, name) matches Some(e) ==> e.event_type == "recovery"@
            && e.instance_name == Some(name) && e.message == "实例 "@ + name + " 恢复在线"@
            && e.details is None,
        down_event(state, threshold, name) is Some <==> state.online != Some(false)
            && state.consecutive_failures >= threshold,
        down_event(state, threshold, name) matches Some(e) ==> e.event_type == "down"@
            && e.instance_name == Some(name) && e.message == "实例 "@ + name
            + " 确认宕机（连续 "@ + dec(state.consecutive_failures as nat) + " 次探测失败）"@
            && e.details is None,
        settled(state, threshold).online == Some(false) <==> state.online == Some(false)
            || state.consecutive_failures >= threshold,
        settled(state, threshold).consecutive_failures == state.consecutive_failures,
        settled(state, threshold).last_check == state.last_check,
        state.consecutive_failures < threshold ==> settled(state, threshold) == state,
        state.consecutive_failures >= threshold ==> settled(state, threshold).uptime_since is None,
{
}

/// An instance is probed exactly where it is switched on and nothing but running is asked
/// of it; one of which something else is asked is noted as stopped, and one that is
/// switched off is left alone. What is not asked otherwise is that an instance runs.
pub proof fn law_probe_planned(instance: InstanceConfig, lifecycle: JsonView, asked: Seq<char>)
    ensures
        plan_of(instance, lifecycle) is Skip <==> !instance.enabled,
        lifecycle.get("desired_state"@) == Some(JsonView::Str(asked)) ==> {
            &&& desired_state_of(lifecycle) == asked
            &&& plan_of(instance, lifecycle) is Probe <==> instance.enabled && asked == "running"@
            &&& plan_of(instance, lifecycle) is NoteStopped <==> instance.enabled && asked
                != "running"@
        },
        lifecycle.get("desired_state"@) is None ==> meant_to_run(lifecycle) && (plan_of(
            instance,
            lifecycle,
        ) is Probe <==> instance.enabled),
{
}

/// The state of an instance that was stopped keeps what was last seen of it, and forgets
/// its failures; and an instance that was never seen is neither up nor down.
pub proof fn law_states_kept(
    state: InstanceState,
    states: Map<Seq<char>, InstanceState>,
    name: Seq<char>,
)
    ensures
        noted_stopped(state).last_check == state.last_check,
        noted_stopped(state).last_status_code == state.last_status_code,
        noted_stopped(state).last_response_time == state.last_response_time,
        state_among(states.insert(name, state), name) == state,
        state_among(Map::empty(), name).online is None,
        state_among(Map::empty(), name).consecutive_failures == 0,
        state_among(Map::empty(), name).uptime_since is None,
{
}

/// Instances on different ports are asked at different addresses, all on this machine.
pub proof fn law_health_urls(p: u16, q: u16)
    ensures
        p != q ==> health_url_of(p) != health_url_of(q),
        health_url_of(p) == "http://127.0.0.1:"@ + dec(p as nat) + "/health"@,
{
    let a = health_url_of(p);
    let b = health_url_of(q);
    if a == b {
        reveal_strlit("http://127.0.0.1:");
        reveal_strlit("/health");
        lemma_dec(p as nat);
        lemma_dec(q as nat);
        let dp = dec(p as nat);
        let dq = dec(q as nat);
        assert(a.len() == 17 + dp.len() + 7);
        assert(b.len() == 17 + dq.len() + 7);
        assert(a.subrange(17, (17 + dp.len()) as int) =~= dp);
        assert(b.subrange(17, (17 + dq.len()) as int) =~= dq);
    }
}

/// A healthy probe is the last of its round; a first one that is not asks for a second one
/// after the time that is set for it, and a second one for none.
pub proof fn law_second_try(healthy: bool, is_retry: bool, config: ProbeConfig)
    ensures
        next_after(healthy, is_retry, config) is Healthy <==> healthy,
        !healthy && !is_retry ==> next_after(healthy, is_retry, config) == ProbeNext::RetryAfter(
            config.retry_delay_seconds,
        ),
        !healthy && is_retry ==> next_after(healthy, is_retry, config) is Settle,
{
}

} // verus!
