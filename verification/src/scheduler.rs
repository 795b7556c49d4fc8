//! What the background loops decide.

use vstd::prelude::*;

use crate::config::{AppConfig, InstanceConfig, InstanceState, ProbeConfig, RestartConfig};
use crate::json::{Json, JsonView};
use crate::probe::{is_meant_to_run, meant_to_run};
use crate::restart::{may_restart, should_restart};

verus! {

/// What the probe loop does with an instance after a round of probes.
#[derive(Debug, Clone, Copy, PartialEq, Eq, Structural)]
pub enum LoopStep {
    /// Nothing.
    Leave,
    /// See how many restarts were made in the window, and decide.
    CountRestarts,
}

/// Whether an instance asks for a restart: it is switched on, meant to run, and down
/// after as many failures in a row as the threshold asks for.
pub open spec fn asks_restart(
    instance: InstanceConfig,
    lifecycle: JsonView,
    state: InstanceState,
    config: ProbeConfig,
) -> bool {
    instance.enabled && meant_to_run(lifecycle) && state.online == Some(false)
        && state.consecutive_failures >= config.failure_threshold
}

/// What the probe loop does with an instance: it goes into a restart only where the
/// instance asks for it, outside maintenance mode, with restarts switched on.
pub open spec fn step_of(
    instance: InstanceConfig,
    lifecycle: JsonView,
    state: InstanceState,
    maintenance: bool,
    probe: ProbeConfig,
    restart: RestartConfig,
) -> LoopStep {
    if asks_restart(instance, lifecycle, state, probe) && !maintenance && restart.enabled {
        LoopStep::CountRestarts
    } else {
        LoopStep::Leave
    }
}

/// What the probe loop does with an instance after a round of probes.
pub fn loop_step(
    instance: &InstanceConfig,
    lifecycle: &Json,
    state: &InstanceState,
    maintenance: bool,
    probe: &ProbeConfig,
    restart: &RestartConfig,
) -> (r: LoopStep)
    ensures
        r == step_of(*instance, lifecycle@, *state, maintenance, *probe, *restart),
{
    if !instance.enabled {
        return LoopStep::Leave;
    }
    if !is_meant_to_run(lifecycle) {
        return LoopStep::Leave;
    }
    let down = match state.online {
        Some(up) => !up,
        None => false,
    };
    if down && state.consecutive_failures >= probe.failure_threshold {
        if maintenance {
            return LoopStep::Leave;
        }
        if restart.enabled {
            return LoopStep::CountRestarts;
        }
    }
    LoopStep::Leave
}

/// Whether an instance is restarted of itself.
pub open spec fn auto_restarts(
    instance: InstanceConfig,
    lifecycle: JsonView,
    state: InstanceState,
    maintenance: bool,
    recent: u32,
    probe: ProbeConfig,
    restart: RestartConfig,
) -> bool {
    step_of(instance, lifecycle, state, maintenance, probe, restart) is CountRestarts
        && may_restart(restart, lifecycle, recent)
}

/// Whether an instance is restarted of itself. `recent` is the number of restarts in
/// the window.
pub fn auto_restart(
    instance: &InstanceConfig,
    lifecycle: &Json,
    state: &InstanceState,
    maintenance: bool,
    recent: u32,
    config: &AppConfig,
) -> (r: bool)
    ensures
        r == auto_restarts(
            *instance,
            lifecycle@,
            *state,
            maintenance,
            recent,
            config.probe,
            config.restart,
        ),
{
    match loop_step(instance, lifecycle, state, maintenance, &config.probe, &config.restart) {
        LoopStep::Leave => false,
        LoopStep::CountRestarts => should_restart(&config.restart, lifecycle, recent),
    }
}

/// The seconds between two scans for token usage.
pub fn scan_interval_seconds(interval_minutes: u64) -> (r: u64)
    requires
        interval_minutes * 60 <= u64::MAX,
    ensures
        r == interval_minutes * 60,
{
    interval_minutes * 60
}

/// The seconds between two readings of the configuration files of the instances.
pub fn collect_interval_seconds() -> (r: u64)
    ensures
        r == 60,
{
    60
}

/// In maintenance mode no instance is restarted of itself; nor is one that is
/// switched off or not meant to run, one that is not known to be down, one with fewer
/// failures than the threshold, or one that was restarted as often as is allowed.
pub proof fn law_no_restart_unless_needed(
    instance: InstanceConfig,
    lifecycle: JsonView,
    state: InstanceState,
    maintenance: bool,
    recent: u32,
    probe: ProbeConfig,
    restart: RestartConfig,
)
    ensures
        auto_restarts(instance, lifecycle, state, maintenance, recent, probe, restart) ==> {
            &&& !maintenance
            &&& instance.enabled
            &&& restart.enabled
            &&& meant_to_run(lifecycle)
            &&& state.online == Some(false)
            &&& state.consecutive_failures >= probe.failure_threshold
            &&& recent < restart.max_restarts_per_window
        },
{
}

/// An instance that is down is restarted: where it is switched on, meant to run, down
/// after as many failures as the threshold asks for, and neither maintenance mode nor
/// the limit nor the switch stands against it.
pub proof fn law_restart_when_down(
    instance: InstanceConfig,
    lifecycle: JsonView,
    state: InstanceState,
    recent: u32,
    probe: ProbeConfig,
    restart: RestartConfig,
)
    requires
        asks_restart(instance, lifecycle, state, probe),
        restart.enabled,
        recent < restart.max_restarts_per_window,
    ensures
        auto_restarts(instance, lifecycle, state, false, recent, probe, restart),
{
}

/// An instance is restarted of itself exactly where it is switched on, running is asked of
/// it, or nothing, it is known to be down and has failed as many times in a row as the
/// threshold asks for; where the agent is not in maintenance, restarts are switched on, and
/// fewer of them than allowed were made in the window.
pub proof fn law_restart_decided(
    instance: InstanceConfig,
    lifecycle: JsonView,
    state: InstanceState,
    maintenance: bool,
    recent: u32,
    probe: ProbeConfig,
    restart: RestartConfig,
    asked: Seq<char>,
)
    ensures
        ({
            let needed = instance.enabled && state.online == Some(false)
                && state.consecutive_failures >= probe.failure_threshold && !maintenance
                && restart.enabled && recent < restart.max_restarts_per_window;
            let made = auto_restarts(
                instance,
                lifecycle,
                state,
                maintenance,
                recent,
                probe,
                restart,
            );
            &&& lifecycle.get("desired_state"@) == Some(JsonView::Str(asked)) ==> (made
                <==> needed && asked == "running"@)
            &&& lifecycle.get("desired_state"@) is None ==> (made <==> needed)
        }),
{
}

/// The pauses of the background loops.
pub proof fn law_pauses(minutes: u64, scan: u64, collect: u64)
    requires
        call_ensures(scan_interval_seconds, (minutes,), scan),
        call_ensures(collect_interval_seconds, (), collect),
    ensures
        scan == 60 * minutes,
        collect == 60,
{
}

} // verus!
