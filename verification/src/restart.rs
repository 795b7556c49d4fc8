//! Starting, stopping and restarting instances.

use vstd::prelude::*;
use vstd::string::*;

use crate::clock::Moment;
use crate::commands::{code_value, filled, filled_trimmed, json_code, trim_filled};
use crate::config::{InstanceState, RestartConfig};
use crate::event_log::{instance_event, EventRecord, EventView};
use crate::json::{
    bool_or_null, json_opt_bool, json_opt_text, json_text, lemma_entry_value, opt_owned, opt_slice,
    opt_str_view, opt_text, text_or_null, value_or, Fields, Json, JsonView,
};
use crate::probe::{is_meant_to_run, meant_to_run};
use crate::text::{cat, cat3, cat5, dec, decimal, trim, trimmed};

verus! {

// ---------------------------------------------------------------------------
// Whether to restart
// ---------------------------------------------------------------------------

/// Whether an instance may be restarted of itself: restarts are switched on, it is
/// meant to run, and fewer restarts than the limit were made in the window.
pub open spec fn may_restart(config: RestartConfig, lifecycle: JsonView, recent: u32) -> bool {
    config.enabled && meant_to_run(lifecycle) && recent < config.max_restarts_per_window
}

/// Whether an instance may be restarted of itself. `recent` is the number of
/// restarts in the window.
pub fn should_restart(config: &RestartConfig, lifecycle: &Json, recent: u32) -> (r: bool)
    ensures
        r == may_restart(*config, lifecycle@, recent),
{
    if !config.enabled {
        return false;
    }
    if !is_meant_to_run(lifecycle) {
        return false;
    }
    recent < config.max_restarts_per_window
}

/// The entry in the event log where the limit of restarts is reached.
pub open spec fn limit_event(config: RestartConfig, name: Seq<char>) -> EventView {
    instance_event(
        "restart_limit"@,
        "实例 "@ + name + " 在 "@ + dec(config.window_minutes as nat) + " 分钟内已重启 "@ + dec(
            config.max_restarts_per_window as nat,
        ) + " 次，停止自动重启"@,
        name,
        None,
    )
}

/// The entry in the event log where the limit of restarts is reached.
pub fn restart_limit_event(config: &RestartConfig, name: &str) -> (r: EventRecord)
    ensures
        r@ == limit_event(*config, name@),
{
    let minutes = decimal(config.window_minutes as u64);
    let most = decimal(config.max_restarts_per_window as u64);
    let mut message = cat5("实例 ", name, " 在 ", minutes.as_str(), " 分钟内已重启 ");
    message.append(most.as_str());
    message.append(" 次，停止自动重启");
    EventRecord::on_instance("restart_limit", message, name, None)
}

// ---------------------------------------------------------------------------
// Actions on a gateway
// ---------------------------------------------------------------------------

/// What is done to a gateway.
#[derive(Debug, Clone, Copy, PartialEq, Eq, Structural)]
pub enum GatewayAction {
    Start,
    Stop,
    Restart,
}

impl GatewayAction {
    /// The word for it.
    pub open spec fn word(self) -> Seq<char> {
        match self {
            GatewayAction::Start => "start"@,
            GatewayAction::Stop => "stop"@,
            GatewayAction::Restart => "restart"@,
        }
    }

    /// The word for it.
    pub fn as_str(self) -> (r: &'static str)
        ensures
            r@ == self.word(),
    {
        match self {
            GatewayAction::Start => "start",
            GatewayAction::Stop => "stop",
            GatewayAction::Restart => "restart",
        }
    }

    /// Whether the instance is to be up after it.
    pub open spec fn brings_up(self) -> bool {
        !(self is Stop)
    }
}

/// What became of the command that acts on a gateway.
pub enum GatewayCommand {
    /// It ended, with an exit code unless a signal ended it.
    Exited { code: Option<i32>, stdout: String, stderr: String },
    /// The program is not there.
    NotFound,
    /// It could not be run.
    NotRun { error: String },
}

/// The exit code, or minus one where a signal ended the command.
pub open spec fn exit_code_of(code: Option<i32>) -> i32 {
    value_or(code, (-1) as i32)
}

/// Whether the instance is to be asked for its health: the command went well.
pub open spec fn asks_health(command: GatewayCommand) -> bool {
    command matches GatewayCommand::Exited { code, .. } && exit_code_of(code) == 0
}

/// The seconds to wait before an instance is asked for its health, or nothing where
/// it is not asked.
pub fn seconds_before_health(
    command: &GatewayCommand,
    wait_seconds: Option<u64>,
    config: &RestartConfig,
) -> (r: Option<u64>)
    ensures
        r == if asks_health(*command) {
            Some(value_or(wait_seconds, config.wait_after_restart_seconds))
        } else {
            None
        },
{
    match command {
        GatewayCommand::Exited { code: Some(c), .. } => if *c == 0 {
            match wait_seconds {
                Some(s) => Some(s),
                None => Some(config.wait_after_restart_seconds),
            }
        } else {
            None
        },
        _ => None,
    }
}

/// The result of an action on a gateway.
pub enum GatewayResult {
    /// The command was run.
    Ran {
        success: bool,
        exit_code: i32,
        stdout: Option<String>,
        stderr: Option<String>,
        message: String,
        health_after: Option<bool>,
    },
    /// The command could not be run.
    NotRun { error: String },
}

/// What a [`GatewayResult`] stands for.
pub enum GatewayView {
    Ran {
        success: bool,
        exit_code: i32,
        stdout: Option<Seq<char>>,
        stderr: Option<Seq<char>>,
        message: Seq<char>,
        health_after: Option<bool>,
    },
    NotRun { error: Seq<char> },
}

impl View for GatewayResult {
    type V = GatewayView;

    open spec fn view(&self) -> GatewayView {
        match self {
            GatewayResult::Ran { success, exit_code, stdout, stderr, message, health_after } => {
                GatewayView::Ran {
                    success: *success,
                    exit_code: *exit_code,
                    stdout: opt_text(*stdout),
                    stderr: opt_text(*stderr),
                    message: message@,
                    health_after: *health_after,
                }
            },
            GatewayResult::NotRun { error } => GatewayView::NotRun { error: error@ },
        }
    }
}

/// The result of an action on a gateway. Where the command went well, `healthy` tells
/// what the instance answered, and the action has succeeded where the instance is as
/// it is to be after it.
pub open spec fn result_of_action(
    action: GatewayAction,
    command: GatewayCommand,
    healthy: bool,
) -> GatewayView {
    match command {
        GatewayCommand::Exited { code, stdout, stderr } => GatewayView::Ran {
            success: asks_health(command) && healthy == action.brings_up(),
            exit_code: exit_code_of(code),
            stdout: filled_trimmed(stdout@),
            stderr: filled_trimmed(stderr@),
            message: value_or(filled_trimmed(stderr@), trimmed(stdout@)),
            health_after: if asks_health(command) {
                Some(healthy)
            } else {
                None
            },
        },
        GatewayCommand::NotFound => GatewayView::NotRun { error: "openclaw 命令未找到"@ },
        GatewayCommand::NotRun { error } => GatewayView::NotRun { error: error@ },
    }
}

/// The result of an action on a gateway.
pub fn run_gateway_action(action: GatewayAction, command: GatewayCommand, healthy: bool) -> (r:
    GatewayResult)
    ensures
        r@ == result_of_action(action, command, healthy),
{
    match command {
        GatewayCommand::Exited { code, stdout, stderr } => {
            let exit_code: i32 = match code {
                Some(c) => c,
                None => -1,
            };
            let out = trim_filled(stdout.as_str());
            let err = trim_filled(stderr.as_str());
            let message = match &err {
                Some(e) => e.clone(),
                None => trim(stdout.as_str()).to_owned(),
            };
            let up = match action {
                GatewayAction::Stop => false,
                _ => true,
            };
            let settled = exit_code == 0;
            GatewayResult::Ran {
                success: settled && healthy == up,
                exit_code,
                stdout: out,
                stderr: err,
                message,
                health_after: if settled {
                    Some(healthy)
                } else {
                    None
                },
            }
        },
        GatewayCommand::NotFound => GatewayResult::NotRun {
            error: "openclaw 命令未找到".to_owned(),
        },
        GatewayCommand::NotRun { error } => GatewayResult::NotRun { error },
    }
}

impl GatewayView {
    /// Whether the action has succeeded.
    pub open spec fn succeeded(self) -> bool {
        self matches GatewayView::Ran { success, .. } && success
    }

    /// Whether the instance answered that it is healthy.
    pub open spec fn healthy(self) -> bool {
        self matches GatewayView::Ran { health_after, .. } && health_after == Some(true)
    }

    /// What the command wrote to its error output.
    pub open spec fn error_output(self) -> Option<Seq<char>> {
        match self {
            GatewayView::Ran { stderr, .. } => stderr,
            GatewayView::NotRun { .. } => None,
        }
    }

    /// The message of the command, or the error where it could not be run.
    pub open spec fn told(self) -> Seq<char> {
        match self {
            GatewayView::Ran { message, .. } => message,
            GatewayView::NotRun { error } => error,
        }
    }

    /// The entries of the report on the action.
    pub open spec fn entries(self, desired_state: Seq<char>) -> Seq<(Seq<char>, JsonView)> {
        match self {
            GatewayView::Ran { success, exit_code, stdout, stderr, message, health_after } => seq![
                ("success"@, JsonView::Bool(success)),
                ("exit_code"@, code_value(Some(exit_code))),
                ("stdout"@, text_or_null(stdout)),
                ("stderr"@, text_or_null(stderr)),
                ("message"@, JsonView::Str(message)),
                ("health_after"@, bool_or_null(health_after)),
                ("desired_state"@, JsonView::Str(desired_state)),
            ],
            GatewayView::NotRun { error } => seq![
                ("success"@, JsonView::Bool(false)),
                ("error"@, JsonView::Str(error)),
                ("desired_state"@, JsonView::Str(desired_state)),
            ],
        }
    }
}

impl GatewayResult {
    /// Whether the action has succeeded.
    pub fn succeeded(&self) -> (r: bool)
        ensures
            r == self@.succeeded(),
    {
        match self {
            GatewayResult::Ran { success, .. } => *success,
            GatewayResult::NotRun { .. } => false,
        }
    }

    /// Whether the instance answered that it is healthy.
    pub fn healthy(&self) -> (r: bool)
        ensures
            r == self@.healthy(),
    {
        match self {
            GatewayResult::Ran { health_after, .. } => match health_after {
                Some(b) => *b,
                None => false,
            },
            GatewayResult::NotRun { .. } => false,
        }
    }

    fn error_output(&self) -> (r: Option<&str>)
        ensures
            opt_str_view(r) == self@.error_output(),
    {
        match self {
            GatewayResult::Ran { stderr, .. } => opt_slice(stderr),
            GatewayResult::NotRun { .. } => None,
        }
    }

    fn told(&self) -> (r: &str)
        ensures
            r@ == self@.told(),
    {
        match self {
            GatewayResult::Ran { message, .. } => message.as_str(),
            GatewayResult::NotRun { error } => error.as_str(),
        }
    }

    fn put_entries(&self, fields: &mut Fields, desired_state: &str)
        ensures
            final(fields)@ == old(fields)@ + self@.entries(desired_state@),
    {
        match self {
            GatewayResult::Ran { success, exit_code, stdout, stderr, message, health_after } => {
                fields.put("success", Json::Bool(*success));
                fields.put("exit_code", json_code(Some(*exit_code)));
                fields.put("stdout", json_opt_text(opt_slice(stdout)));
                fields.put("stderr", json_opt_text(opt_slice(stderr)));
                fields.put("message", json_text(message.as_str()));
                fields.put("health_after", json_opt_bool(*health_after));
                fields.put("desired_state", json_text(desired_state));
            },
            GatewayResult::NotRun { error } => {
                fields.put("success", Json::Bool(false));
                fields.put("error", json_text(error.as_str()));
                fields.put("desired_state", json_text(desired_state));
            },
        }
        assert(fields@ =~= old(fields)@ + self@.entries(desired_state@));
    }

    /// The report on the action.
    pub fn to_json(&self, desired_state: &str) -> (r: Json)
        ensures
            r@ == JsonView::Object(self@.entries(desired_state@)),
    {
        let mut fields = Fields::new();
        self.put_entries(&mut fields, desired_state);
        assert(fields@ =~= self@.entries(desired_state@));
        fields.object()
    }

    /// The answer to a request for the action.
    pub fn response(&self, name: &str, desired_state: &str) -> (r: Json)
        ensures
            r@ == action_response(self@, name@, desired_state@),
    {
        let mut fields = Fields::new();
        fields.put(
            "status",
            json_text(
                if self.succeeded() {
                    "ok"
                } else {
                    "error"
                },
            ),
        );
        fields.put("instance_name", json_text(name));
        self.put_entries(&mut fields, desired_state);
        assert(fields@ == action_response(self@, name@, desired_state@)->Object_0);
        fields.object()
    }
}

/// The answer to a request for an action.
pub open spec fn action_response(
    result: GatewayView,
    name: Seq<char>,
    desired_state: Seq<char>,
) -> JsonView {
    JsonView::Object(
        seq![
            (
                "status"@,
                JsonView::Str(
                    if result.succeeded() {
                        "ok"@
                    } else {
                        "error"@
                    },
                ),
            ),
            ("instance_name"@, JsonView::Str(name)),
        ] + result.entries(desired_state),
    )
}

// ---------------------------------------------------------------------------
// What follows an action
// ---------------------------------------------------------------------------

/// The state of an instance that came up at `now`.
pub open spec fn marked_online(state: InstanceState, now: Moment) -> InstanceState {
    InstanceState {
        online: Some(true),
        consecutive_failures: 0,
        uptime_since: Some(now),
        last_check: Some(now),
        ..state
    }
}

/// The state of an instance that was stopped at `now`.
pub open spec fn marked_stopped(state: InstanceState, now: Moment) -> InstanceState {
    InstanceState {
        online: Some(false),
        consecutive_failures: 0,
        uptime_since: None,
        last_check: Some(now),
        last_response_time: None,
        last_status_code: None,
    }
}

/// Marks an instance as up.
pub fn mark_instance_online(state: &mut InstanceState, now: Moment)
    ensures
        *final(state) == marked_online(*old(state), now),
{
    state.online = Some(true);
    state.consecutive_failures = 0;
    state.uptime_since = Some(now);
    state.last_check = Some(now);
}

/// Marks an instance as stopped.
pub fn mark_instance_stopped(state: &mut InstanceState, now: Moment)
    ensures
        *final(state) == marked_stopped(*old(state), now),
{
    state.online = Some(false);
    state.consecutive_failures = 0;
    state.uptime_since = None;
    state.last_check = Some(now);
    state.last_response_time = None;
    state.last_status_code = None;
}

/// The state of an instance after an action: changed only where it has succeeded.
pub open spec fn state_after(
    state: InstanceState,
    action: GatewayAction,
    result: GatewayView,
    now: Moment,
) -> InstanceState {
    if !result.succeeded() {
        state
    } else if action.brings_up() {
        marked_online(state, now)
    } else {
        marked_stopped(state, now)
    }
}

/// Takes in the result of an action.
pub fn note_action(
    state: &mut InstanceState,
    action: GatewayAction,
    result: &GatewayResult,
    now: Moment,
)
    ensures
        *final(state) == state_after(*old(state), action, result@, now),
{
    if result.succeeded() {
        match action {
            GatewayAction::Stop => mark_instance_stopped(state, now),
            _ => mark_instance_online(state, now),
        }
    }
}

/// What is stored of the last action on an instance.
pub struct LifecycleRecord {
    pub action: String,
    pub status: String,
    pub message: String,
}

/// What is stored of the last action on an instance.
pub fn lifecycle_record(action: GatewayAction, result: &GatewayResult) -> (r: LifecycleRecord)
    ensures
        r.action@ == action.word(),
        r.status@ == if result@.succeeded() {
            "success"@
        } else {
            "failed"@
        },
        r.message@ == result@.told(),
{
    LifecycleRecord {
        action: action.as_str().to_owned(),
        status: (if result.succeeded() {
            "success"
        } else {
            "failed"
        }).to_owned(),
        message: result.told().to_owned(),
    }
}

/// What is stored of a restart.
pub struct RestartRecord {
    pub trigger_reason: String,
    pub success: bool,
    pub exit_code: i32,
    pub stderr_output: Option<String>,
    pub health_after: Option<bool>,
}

/// What a [`RestartRecord`] stands for.
pub struct RestartRecordView {
    pub trigger_reason: Seq<char>,
    pub success: bool,
    pub exit_code: i32,
    pub stderr_output: Option<Seq<char>>,
    pub health_after: Option<bool>,
}

impl View for RestartRecord {
    type V = RestartRecordView;

    open spec fn view(&self) -> RestartRecordView {
        RestartRecordView {
            trigger_reason: self.trigger_reason@,
            success: self.success,
            exit_code: self.exit_code,
            stderr_output: opt_text(self.stderr_output),
            health_after: self.health_after,
        }
    }
}

/// What is stored of a restart: of every one whose command was run, and of no other
/// action.
pub open spec fn restart_record_of(
    action: GatewayAction,
    result: GatewayView,
    reason: Seq<char>,
) -> Option<RestartRecordView> {
    match (action, result) {
        (
            GatewayAction::Restart,
            GatewayView::Ran { success, exit_code, stdout, stderr, message, health_after },
        ) => Some(
            RestartRecordView {
                trigger_reason: reason,
                success,
                exit_code,
                stderr_output: stderr,
                health_after,
            },
        ),
        _ => None,
    }
}

/// What is stored of a restart.
pub fn restart_record(action: GatewayAction, result: &GatewayResult, reason: &str) -> (r: Option<
    RestartRecord,
>)
    ensures
        match r {
            Some(record) => restart_record_of(action, result@, reason@) == Some(record@),
            None => restart_record_of(action, result@, reason@) is None,
        },
{
    match (action, result) {
        (
            GatewayAction::Restart,
            GatewayResult::Ran { success, exit_code, stderr, health_after, .. },
        ) => Some(
            RestartRecord {
                trigger_reason: reason.to_owned(),
                success: *success,
                exit_code: *exit_code,
                stderr_output: opt_owned(opt_slice(stderr)),
                health_after: *health_after,
            },
        ),
        _ => None,
    }
}

/// The entry in the event log on a restart that was made of itself.
pub open spec fn auto_restart_event_of(result: GatewayView, name: Seq<char>) -> EventView {
    if result.succeeded() {
        instance_event("restart_success"@, "实例 "@ + name + " 重启成功并已恢复在线"@, name, None)
    } else {
        instance_event(
            "restart_failed"@,
            "实例 "@ + name + " 重启失败"@,
            name,
            match result {
                GatewayView::Ran { stderr, .. } => match stderr {
                    Some(e) => filled(e),
                    None => None,
                },
                GatewayView::NotRun { error } => filled(error),
            },
        )
    }
}

/// The entry in the event log on a restart that was made of itself.
pub fn auto_restart_event(result: &GatewayResult, name: &str) -> (r: EventRecord)
    ensures
        r@ == auto_restart_event_of(result@, name@),
{
    if result.succeeded() {
        EventRecord::on_instance(
            "restart_success",
            cat3("实例 ", name, " 重启成功并已恢复在线"),
            name,
            None,
        )
    } else {
        let err = match result {
            GatewayResult::Ran { stderr, .. } => opt_slice(stderr),
            GatewayResult::NotRun { error } => Some(error.as_str()),
        };
        let details = match err {
            Some(e) => if e.is_empty() {
                None
            } else {
                Some(e)
            },
            None => None,
        };
        EventRecord::on_instance("restart_failed", cat3("实例 ", name, " 重启失败"), name, details)
    }
}

/// What is asked for by hand.
pub struct ManualRequest {
    pub action: GatewayAction,
    pub desired_state: &'static str,
    pub trigger_reason: &'static str,
    pub message: &'static str,
    /// The seconds to wait before the instance is asked for its health, where they
    /// are not those of the configuration.
    pub wait_seconds: Option<u64>,
}

/// What is asked for by hand, for each action.
pub fn manual_request(action: GatewayAction) -> (r: ManualRequest)
    ensures
        r.action == action,
        r.desired_state@ == if action.brings_up() {
            "running"@
        } else {
            "stopped"@
        },
        match action {
            GatewayAction::Start => r.trigger_reason@ == "manual_start"@ && r.message@
                == "Manual start requested"@ && r.wait_seconds is None,
            GatewayAction::Stop => r.trigger_reason@ == "manual_stop"@ && r.message@
                == "Manual stop requested"@ && r.wait_seconds == Some(5u64),
            GatewayAction::Restart => r.trigger_reason@ == "manual_restart"@ && r.message@
                == "Manual restart requested"@ && r.wait_seconds is None,
        },
{
    match action {
        GatewayAction::Start => ManualRequest {
            action,
            desired_state: "running",
            trigger_reason: "manual_start",
            message: "Manual start requested",
            wait_seconds: None,
        },
        GatewayAction::Stop => ManualRequest {
            action,
            desired_state: "stopped",
            trigger_reason: "manual_stop",
            message: "Manual stop requested",
            wait_seconds: Some(5),
        },
        GatewayAction::Restart => ManualRequest {
            action,
            desired_state: "running",
            trigger_reason: "manual_restart",
            message: "Manual restart requested",
            wait_seconds: None,
        },
    }
}

/// The entry in the event log on an action by hand.
pub open spec fn manual_event_of(
    action: GatewayAction,
    result: GatewayView,
    name: Seq<char>,
) -> EventView {
    match action {
        GatewayAction::Restart => instance_event(
            if result.succeeded() {
                "restart_success"@
            } else {
                "restart_failed"@
            },
            "手动重启实例 "@ + name + "，健康检查: "@ + if result.healthy() {
                "通过"@
            } else {
                "未通过"@
            },
            name,
            result.error_output(),
        ),
        GatewayAction::Start => instance_event(
            if result.succeeded() {
                "start_success"@
            } else {
                "start_failed"@
            },
            "手动启动实例 "@ + name,
            name,
            Some(result.told()),
        ),
        GatewayAction::Stop => instance_event(
            if result.succeeded() {
                "stop_success"@
            } else {
                "stop_failed"@
            },
            "手动停止实例 "@ + name,
            name,
            Some(result.told()),
        ),
    }
}

/// The entry in the event log on an action by hand.
pub fn manual_event(action: GatewayAction, result: &GatewayResult, name: &str) -> (r: EventRecord)
    ensures
        r@ == manual_event_of(action, result@, name@),
{
    let ok = result.succeeded();
    match action {
        GatewayAction::Restart => {
            let mut message = cat3("手动重启实例 ", name, "，健康检查: ");
            message.append(
                if result.healthy() {
                    "通过"
                } else {
                    "未通过"
                },
            );
            EventRecord::on_instance(
                if ok {
                    "restart_success"
                } else {
                    "restart_failed"
                },
                message,
                name,
                result.error_output(),
            )
        },
        GatewayAction::Start => EventRecord::on_instance(
            if ok {
                "start_success"
            } else {
                "start_failed"
            },
            cat("手动启动实例 ", name),
            name,
            Some(result.told()),
        ),
        GatewayAction::Stop => EventRecord::on_instance(
            if ok {
                "stop_success"
            } else {
                "stop_failed"
            },
            cat("手动停止实例 ", name),
            name,
            Some(result.told()),
        ),
    }
}

// ---------------------------------------------------------------------------
// Laws
// ---------------------------------------------------------------------------

/// An action has succeeded exactly where its command went well and the instance is as
/// it is to be: up after a start or a restart, down after a stop; and the state of the
/// instance tells the same afterwards.
pub proof fn law_success_is_observed(
    action: GatewayAction,
    command: GatewayCommand,
    healthy: bool,
    state: InstanceState,
    now: Moment,
)
    ensures
        ({
            let result = result_of_action(action, command, healthy);
            &&& result.succeeded() <==> asks_health(command) && healthy == action.brings_up()
            &&& result.succeeded() ==> state_after(state, action, result, now).online == Some(
                action.brings_up(),
            ) && state_after(state, action, result, now).consecutive_failures == 0
            &&& !result.succeeded() ==> state_after(state, action, result, now) == state
        }),
{
}

/// Restarts of itself are limited: once as many were made in the window as are
/// allowed, none follows, and none is made where restarts are switched off or the
/// instance is not meant to run.
pub proof fn law_restarts_limited(config: RestartConfig, lifecycle: JsonView, recent: u32)
    ensures
        recent >= config.max_restarts_per_window ==> !may_restart(config, lifecycle, recent),
        !config.enabled ==> !may_restart(config, lifecycle, recent),
        !meant_to_run(lifecycle) ==> !may_restart(config, lifecycle, recent),
        may_restart(config, lifecycle, recent) ==> recent + 1 <= config.max_restarts_per_window,
{
}

/// What is asked for by hand is that the instance runs, except by a stop.
pub proof fn law_manual_request(action: GatewayAction, r: ManualRequest)
    requires
        call_ensures(manual_request, (action,), r),
    ensures
        r.action == action,
        action is Stop ==> r.desired_state@ == "stopped"@ && r.trigger_reason@ == "manual_stop"@
            && r.message@ == "Manual stop requested"@ && r.wait_seconds == Some(5u64),
        action is Start ==> r.desired_state@ == "running"@ && r.trigger_reason@
            == "manual_start"@ && r.message@ == "Manual start requested"@ && r.wait_seconds is None,
        action is Restart ==> r.desired_state@ == "running"@ && r.trigger_reason@
            == "manual_restart"@ && r.message@ == "Manual restart requested"@
            && r.wait_seconds is None,
{
}

/// An instance may be restarted of itself exactly where this is switched on, running is
/// what is asked of it, or nothing, and fewer restarts than allowed were made.
pub proof fn law_may_restart(config: RestartConfig, lifecycle: JsonView, recent: u32, asked: Seq<char>)
    ensures
        lifecycle.get("desired_state"@) == Some(JsonView::Str(asked)) ==> (may_restart(
            config,
            lifecycle,
            recent,
        ) <==> config.enabled && asked == "running"@ && recent < config.max_restarts_per_window),
        lifecycle.get("desired_state"@) is None ==> (may_restart(config, lifecycle, recent)
            <==> config.enabled && recent < config.max_restarts_per_window),
        ({
            let e = limit_event(config, asked);
            &&& e.event_type == "restart_limit"@
            &&& e.instance_name == Some(asked)
            &&& e.details is None
            &&& e.message == "实例 "@ + asked + " 在 "@ + dec(config.window_minutes as nat)
                + " 分钟内已重启 "@ + dec(config.max_restarts_per_window as nat)
                + " 次，停止自动重启"@
        }),
{
}

/// What comes of an action. The instance is asked for its health only after a command that
/// ended with the code zero; the action has succeeded exactly where the answer is then the
/// one that is wanted, health after a start or a restart, and none after a stop. A command
/// that a signal ended counts as one with the code minus one; and one that could not be run
/// has not succeeded.
pub proof fn law_action_result(
    action: GatewayAction,
    code: Option<i32>,
    stdout: String,
    stderr: String,
    error: String,
    healthy: bool,
)
    ensures
        ({
            let command = GatewayCommand::Exited { code, stdout, stderr };
            let result = result_of_action(action, command, healthy);
            &&& asks_health(command) <==> code == Some(0i32)
            &&& result matches GatewayView::Ran {
                success,
                exit_code,
                stdout: out,
                stderr: err,
                message,
                health_after,
            } && {
                &&& success <==> code == Some(0i32) && (action is Stop <==> !healthy)
                &&& exit_code == match code {
                    Some(c) => c as int,
                    None => -1,
                }
                &&& health_after == if code == Some(0i32) {
                    Some(healthy)
                } else {
                    None
                }
                &&& out is Some <==> trimmed(stdout@).len() > 0
                &&& err is Some <==> trimmed(stderr@).len() > 0
                &&& out matches Some(o) ==> o == trimmed(stdout@)
                &&& err matches Some(e) ==> e == trimmed(stderr@)
                &&& message == if trimmed(stderr@).len() > 0 {
                    trimmed(stderr@)
                } else {
                    trimmed(stdout@)
                }
            }
            &&& result.succeeded() <==> code == Some(0i32) && (action is Stop <==> !healthy)
            &&& result.healthy() <==> code == Some(0i32) && healthy
        }),
        !result_of_action(action, GatewayCommand::NotFound, healthy).succeeded(),
        result_of_action(action, GatewayCommand::NotFound, healthy).told()
            == "openclaw 命令未找到"@,
        !result_of_action(action, GatewayCommand::NotRun { error }, healthy).succeeded(),
        result_of_action(action, GatewayCommand::NotRun { error }, healthy).told() == error@,
{
}

/// What follows an action that has succeeded: the instance is up from now on, or, after a
/// stop, down, with nothing left of its last answer; in both cases without failures. One
/// that has not succeeded changes nothing.
pub proof fn law_action_noted(
    state: InstanceState,
    action: GatewayAction,
    result: GatewayView,
    now: Moment,
)
    ensures
        ({
            let after = state_after(state, action, result, now);
            let done = result matches GatewayView::Ran { success: true, .. };
            &&& !done ==> after == state
            &&& done ==> after.last_check == Some(now) && after.consecutive_failures == 0
            &&& done && !(action is Stop) ==> after.online == Some(true) && after.uptime_since
                == Some(now) && after.last_status_code == state.last_status_code
                && after.last_response_time == state.last_response_time
            &&& done && action is Stop ==> after.online == Some(false) && after.uptime_since is None
                && after.last_status_code is None && after.last_response_time is None
        }),
{
}

/// A restart whose command was run is stored, with why it was made and what came of it;
/// starts and stops are not, so only restarts count against the limit.
pub proof fn law_restart_recorded(action: GatewayAction, result: GatewayView, reason: Seq<char>)
    ensures
        restart_record_of(action, result, reason) is Some <==> action is Restart && result is Ran,
        restart_record_of(action, result, reason) matches Some(r) ==> r.trigger_reason == reason
            && (result matches GatewayView::Ran {
            success,
            exit_code,
            stdout,
            stderr,
            message,
            health_after,
        } && r.success == success && r.exit_code == exit_code && r.stderr_output == stderr
            && r.health_after == health_after),
{
}

/// The entries in the event log on an action tell whether it has succeeded, and name the
/// instance; those on a failure tell what the command wrote, where it wrote anything.
pub proof fn law_action_events(action: GatewayAction, result: GatewayView, name: Seq<char>)
    ensures
        ({
            let auto = auto_restart_event_of(result, name);
            let manual = manual_event_of(action, result, name);
            let done = result matches GatewayView::Ran { success: true, .. };
            let well = result matches GatewayView::Ran { health_after: Some(true), .. };
            &&& auto.instance_name == Some(name)
            &&& manual.instance_name == Some(name)
            &&& auto.event_type == if done {
                "restart_success"@
            } else {
                "restart_failed"@
            }
            &&& auto.message == "实例 "@ + name + if done {
                " 重启成功并已恢复在线"@
            } else {
                " 重启失败"@
            }
            &&& done ==> auto.details is None
            &&& !done ==> (result matches GatewayView::NotRun { error } ==> auto.details
                == if error.len() == 0 {
                None
            } else {
                Some(error)
            })
            &&& !done ==> (result matches GatewayView::Ran { stderr: Some(e), .. } ==> e.len() > 0
                ==> auto.details == Some(e))
            &&& manual.event_type == match action {
                GatewayAction::Restart => if done {
                    "restart_success"@
                } else {
                    "restart_failed"@
                },
                GatewayAction::Start => if done {
                    "start_success"@
                } else {
                    "start_failed"@
                },
                GatewayAction::Stop => if done {
                    "stop_success"@
                } else {
                    "stop_failed"@
                },
            }
            &&& manual.message == match action {
                GatewayAction::Restart => "手动重启实例 "@ + name + "，健康检查: "@ + if well {
                    "通过"@
                } else {
                    "未通过"@
                },
                GatewayAction::Start => "手动启动实例 "@ + name,
                GatewayAction::Stop => "手动停止实例 "@ + name,
            }
            &&& result matches GatewayView::Ran { message, stderr, .. } ==> manual.details
                == if action is Restart {
                stderr
            } else {
                Some(message)
            }
        }),
{
}

/// The answer to a request for an action says `ok` exactly where it has succeeded, and
/// tells the instance, what is asked of it from now on, and what came of the command.
pub proof fn law_action_answered(result: GatewayView, name: Seq<char>, desired_state: Seq<char>)
    ensures
        ({
            let told = action_response(result, name, desired_state);
            &&& told.get("instance_name"@) == Some(JsonView::Str(name))
            &&& told.get("desired_state"@) == Some(JsonView::Str(desired_state))
            &&& result matches GatewayView::Ran {
                success,
                exit_code,
                stdout,
                stderr,
                message,
                health_after,
            } ==> {
                &&& told.get("status"@) == Some(
                    JsonView::Str(
                        if success {
                            "ok"@
                        } else {
                            "error"@
                        },
                    ),
                )
                &&& told.get("success"@) == Some(JsonView::Bool(success))
                &&& told.get("exit_code"@) == Some(code_value(Some(exit_code)))
                &&& told.get("stdout"@) == Some(text_or_null(stdout))
                &&& told.get("stderr"@) == Some(text_or_null(stderr))
                &&& told.get("message"@) == Some(JsonView::Str(message))
                &&& told.get("health_after"@) == Some(bool_or_null(health_after))
            }
            &&& result matches GatewayView::NotRun { error } ==> {
                &&& told.get("status"@) == Some(JsonView::Str("error"@))
                &&& told.get("success"@) == Some(JsonView::Bool(false))
                &&& told.get("error"@) == Some(JsonView::Str(error))
            }
        }),
{
    let entries = action_response(result, name, desired_state)->Object_0;
    reveal_strlit("status");
    assert("status"@.len() == 6);
    reveal_strlit("instance_name");
    assert("instance_name"@.len() == 13);
    reveal_strlit("success");
    assert("success"@.len() == 7);
    reveal_strlit("exit_code");
    assert("exit_code"@.len() == 9);
    reveal_strlit("stdout");
    assert("stdout"@.len() == 6);
    reveal_strlit("stderr");
    assert("stderr"@.len() == 6);
    reveal_strlit("message");
    assert("message"@.len() == 7);
    reveal_strlit("health_after");
    assert("health_after"@.len() == 12);
    reveal_strlit("desired_state");
    assert("desired_state"@.len() == 13);
    reveal_strlit("error");
    assert("error"@.len() == 5);
    if result is Ran {
        assert("status"@[2] != "stdout"@[2]);
        assert("status"@[2] != "stderr"@[2]);
        assert("stdout"@[3] != "stderr"@[3]);
        assert("success"@[0] != "message"@[0]);
        assert("instance_name"@[0] != "desired_state"@[0]);
        lemma_entry_value(entries, "status"@, 0);
        lemma_entry_value(entries, "instance_name"@, 1);
        lemma_entry_value(entries, "success"@, 2);
        lemma_entry_value(entries, "exit_code"@, 3);
        lemma_entry_value(entries, "stdout"@, 4);
        lemma_entry_value(entries, "stderr"@, 5);
        lemma_entry_value(entries, "message"@, 6);
        lemma_entry_value(entries, "health_after"@, 7);
        lemma_entry_value(entries, "desired_state"@, 8);
    } else {
        assert("instance_name"@[0] != "desired_state"@[0]);
        lemma_entry_value(entries, "status"@, 0);
        lemma_entry_value(entries, "instance_name"@, 1);
        lemma_entry_value(entries, "success"@, 2);
        lemma_entry_value(entries, "error"@, 3);
        lemma_entry_value(entries, "desired_state"@, 4);
    }
}

/// The seconds that are waited before an instance is asked for its health: those that are
/// given, or else those of the configuration; after a command that failed it is not asked.
pub proof fn law_wait_before_health(
    command: &GatewayCommand,
    wait_seconds: Option<u64>,
    config: &RestartConfig,
    r: Option<u64>,
)
    requires
        call_ensures(seconds_before_health, (command, wait_seconds, config), r),
    ensures
        r is Some <==> (*command matches GatewayCommand::Exited { code: Some(c), .. } && c == 0),
        r is Some && wait_seconds is Some ==> r == wait_seconds,
        r is Some && wait_seconds is None ==> r == Some(config.wait_after_restart_seconds),
{
}

/// What is stored of the last action on an instance.
pub proof fn law_action_stored(action: GatewayAction, result: &GatewayResult, r: LifecycleRecord)
    requires
        call_ensures(lifecycle_record, (action, result), r),
    ensures
        r.action@ == match action {
            GatewayAction::Start => "start"@,
            GatewayAction::Stop => "stop"@,
            GatewayAction::Restart => "restart"@,
        },
        *result matches GatewayResult::Ran { success, message, .. } ==> r.message@ == message@
            && r.status@ == if success {
            "success"@
        } else {
            "failed"@
        },
        *result matches GatewayResult::NotRun { error } ==> r.message@ == error@ && r.status@
            == "failed"@,
{
}

} // verus!
