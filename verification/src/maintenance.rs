//! Maintenance mode, in which nothing is restarted of itself.

use vstd::prelude::*;
use vstd::string::*;

use crate::event_log::{agent_event, EventRecord, EventView};
use crate::json::{
    json_text, lemma_entry_value, opt_str_view, text_or, value_or, Fields, Json, JsonView,
};
use crate::text::same;

verus! {

// ---------------------------------------------------------------------------
// The stored setting
// ---------------------------------------------------------------------------

/// The key under which the mode is stored.
pub fn maintenance_key() -> (r: &'static str)
    ensures
        r@ == "maintenance_mode"@,
{
    "maintenance_mode"
}

/// The text that stores the mode.
pub open spec fn mode_text(enabled: bool) -> Seq<char> {
    if enabled {
        "true"@
    } else {
        "false"@
    }
}

/// The mode that a stored text tells: on for the text `true` alone, and off where
/// nothing is stored.
pub open spec fn mode_of(stored: Option<Seq<char>>) -> bool {
    value_or(stored, "false"@) == "true"@
}

/// The text that stores the mode.
pub fn maintenance_text(enabled: bool) -> (r: &'static str)
    ensures
        r@ == mode_text(enabled),
{
    if enabled {
        "true"
    } else {
        "false"
    }
}

/// The mode that a stored text tells.
pub fn maintenance_from(stored: Option<&str>) -> (r: bool)
    ensures
        r == mode_of(opt_str_view(stored)),
{
    same(text_or(stored, "false"), "true")
}

/// The mode that is read is the mode that was stored, and it is off before anything
/// is stored.
pub proof fn law_mode_read_back(enabled: bool)
    ensures
        mode_of(Some(mode_text(enabled))) == enabled,
        !mode_of(None),
        mode_of(Some("true"@)),
        !mode_of(Some("false"@)),
{
    reveal_strlit("true");
    reveal_strlit("false");
    assert("true"@.len() != "false"@.len());
}

// ---------------------------------------------------------------------------
// Changes of the mode
// ---------------------------------------------------------------------------

/// A change of the mode, with its entry in the event log.
pub struct ModeChange {
    pub enabled: bool,
    pub event: EventRecord,
}

/// What a [`ModeChange`] stands for.
pub struct ModeChangeView {
    pub enabled: bool,
    pub event: EventView,
}

impl View for ModeChange {
    type V = ModeChangeView;

    open spec fn view(&self) -> ModeChangeView {
        ModeChangeView { enabled: self.enabled, event: self.event@ }
    }
}

/// What an optional change stands for.
pub open spec fn opt_change(c: Option<ModeChange>) -> Option<ModeChangeView> {
    match c {
        Some(c) => Some(c@),
        None => None,
    }
}

/// The change that switches the mode, with a reason or the usual message.
pub open spec fn switch(enabled: bool, reason: Option<Seq<char>>) -> ModeChangeView {
    ModeChangeView {
        enabled,
        event: if enabled {
            agent_event(
                "maintenance_entered"@,
                value_or(reason, "Agent entered maintenance mode"@),
            )
        } else {
            agent_event("maintenance_exited"@, value_or(reason, "Agent exited maintenance mode"@))
        },
    }
}

/// The answer to a request that switches the mode.
pub open spec fn switch_report(enabled: bool, reason: Option<Seq<char>>) -> JsonView {
    JsonView::Object(
        seq![
            ("maintenance_mode"@, JsonView::Bool(enabled)),
            ("reason"@, JsonView::Str(value_or(reason, ""@))),
        ],
    )
}

fn switch_mode(enabled: bool, reason: Option<&str>) -> (r: ModeChange)
    ensures
        r@ == switch(enabled, opt_str_view(reason)),
{
    if enabled {
        ModeChange {
            enabled,
            event: EventRecord::on_agent(
                "maintenance_entered",
                text_or(reason, "Agent entered maintenance mode").to_owned(),
            ),
        }
    } else {
        ModeChange {
            enabled,
            event: EventRecord::on_agent(
                "maintenance_exited",
                text_or(reason, "Agent exited maintenance mode").to_owned(),
            ),
        }
    }
}

fn report_switch(enabled: bool, reason: Option<&str>) -> (r: Json)
    ensures
        r@ == switch_report(enabled, opt_str_view(reason)),
{
    let mut fields = Fields::new();
    fields.put("maintenance_mode", Json::Bool(enabled));
    fields.put("reason", json_text(text_or(reason, "")));
    assert(fields@ == switch_report(enabled, opt_str_view(reason))->Object_0);
    fields.object()
}

/// Switches the mode on: the change, and the answer.
pub fn enter_maintenance(reason: Option<&str>) -> (r: (ModeChange, Json))
    ensures
        r.0@ == switch(true, opt_str_view(reason)),
        r.1@ == switch_report(true, opt_str_view(reason)),
{
    (switch_mode(true, reason), report_switch(true, reason))
}

/// Switches the mode off: the change, and the answer.
pub fn exit_maintenance(reason: Option<&str>) -> (r: (ModeChange, Json))
    ensures
        r.0@ == switch(false, opt_str_view(reason)),
        r.1@ == switch_report(false, opt_str_view(reason)),
{
    (switch_mode(false, reason), report_switch(false, reason))
}

// ---------------------------------------------------------------------------
// Work in maintenance mode
// ---------------------------------------------------------------------------

/// The change before work that needs the mode, given the mode that is found.
pub open spec fn change_before(original: bool) -> Option<ModeChangeView> {
    if original {
        None
    } else {
        Some(switch(true, None))
    }
}

/// The change after work that needs the mode, given the mode that was found.
pub open spec fn change_after(original: bool) -> Option<ModeChangeView> {
    if original {
        None
    } else {
        Some(switch(false, None))
    }
}

/// The change before work that needs the mode.
pub fn before_work(original: bool) -> (r: Option<ModeChange>)
    ensures
        opt_change(r) == change_before(original),
{
    if original {
        None
    } else {
        Some(switch_mode(true, None))
    }
}

/// The change after work that needs the mode, whatever came of the work.
pub fn after_work(original: bool) -> (r: Option<ModeChange>)
    ensures
        opt_change(r) == change_after(original),
{
    if original {
        None
    } else {
        Some(switch_mode(false, None))
    }
}

/// The mode after an optional change.
pub open spec fn mode_after(mode: bool, change: Option<ModeChangeView>) -> bool {
    match change {
        Some(c) => c.enabled,
        None => mode,
    }
}

/// Work is done in maintenance mode, and leaves behind the mode that it found.
pub proof fn law_work_restores_mode(original: bool)
    ensures
        mode_after(original, change_before(original)),
        mode_after(mode_after(original, change_before(original)), change_after(original))
            == original,
{
}

/// A switch of the mode is answered with the mode that is on from now on and the reason, and
/// the event log tells which way it went, with the reason or else with the usual words.
pub proof fn law_switch_told(enabled: bool, reason: Option<Seq<char>>)
    ensures
        switch(enabled, reason).enabled == enabled,
        switch(enabled, reason).event.event_type == if enabled {
            "maintenance_entered"@
        } else {
            "maintenance_exited"@
        },
        reason matches Some(r) ==> switch(enabled, reason).event.message == r,
        reason is None ==> switch(enabled, reason).event.message == if enabled {
            "Agent entered maintenance mode"@
        } else {
            "Agent exited maintenance mode"@
        },
        switch(enabled, reason).event.instance_name is None,
        switch_report(enabled, reason).get("maintenance_mode"@) == Some(JsonView::Bool(enabled)),
        reason matches Some(r) ==> switch_report(enabled, reason).get("reason"@) == Some(
            JsonView::Str(r),
        ),
        reason is None ==> switch_report(enabled, reason).get("reason"@) == Some(
            JsonView::Str(""@),
        ),
{
    let entries = switch_report(enabled, reason)->Object_0;
    reveal_strlit("maintenance_mode");
    assert("maintenance_mode"@.len() == 16);
    reveal_strlit("reason");
    assert("reason"@.len() == 6);
    lemma_entry_value(entries, "maintenance_mode"@, 0);
    lemma_entry_value(entries, "reason"@, 1);
}

/// The mode is entered before work and left after it exactly where it was off before; a mode
/// that was on is neither entered again nor left, and each of the two changes is logged.
pub proof fn law_work_in_mode(original: bool)
    ensures
        change_before(original) is Some <==> !original,
        change_after(original) is Some <==> !original,
        change_before(original) matches Some(c) ==> c.enabled && c.event.event_type
            == "maintenance_entered"@,
        change_after(original) matches Some(c) ==> !c.enabled && c.event.event_type
            == "maintenance_exited"@,
{
}

} // verus!
