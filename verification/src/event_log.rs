//! Entries of the event log.

use vstd::prelude::*;
use vstd::string::*;

use crate::json::{opt_owned, opt_str_view, opt_text};

verus! {

/// An entry of the event log.
pub struct EventRecord {
    pub event_type: String,
    pub message: String,
    pub instance_name: Option<String>,
    pub details: Option<String>,
}

/// What an [`EventRecord`] stands for.
pub struct EventView {
    pub event_type: Seq<char>,
    pub message: Seq<char>,
    pub instance_name: Option<Seq<char>>,
    pub details: Option<Seq<char>>,
}

impl View for EventRecord {
    type V = EventView;

    open spec fn view(&self) -> EventView {
        EventView {
            event_type: self.event_type@,
            message: self.message@,
            instance_name: opt_text(self.instance_name),
            details: opt_text(self.details),
        }
    }
}

/// What an optional entry stands for.
pub open spec fn opt_event(e: Option<EventRecord>) -> Option<EventView> {
    match e {
        Some(e) => Some(e@),
        None => None,
    }
}

/// An entry on the whole agent.
pub open spec fn agent_event(event_type: Seq<char>, message: Seq<char>) -> EventView {
    EventView { event_type, message, instance_name: None, details: None }
}

/// An entry on one instance.
pub open spec fn instance_event(
    event_type: Seq<char>,
    message: Seq<char>,
    name: Seq<char>,
    details: Option<Seq<char>>,
) -> EventView {
    EventView { event_type, message, instance_name: Some(name), details }
}

impl EventRecord {
    /// An entry on the whole agent.
    pub fn on_agent(event_type: &str, message: String) -> (r: EventRecord)
        ensures
            r@ == agent_event(event_type@, message@),
    {
        EventRecord {
            event_type: event_type.to_owned(),
            message,
            instance_name: None,
            details: None,
        }
    }

    /// An entry on one instance.
    pub fn on_instance(
        event_type: &str,
        message: String,
        name: &str,
        details: Option<&str>,
    ) -> (r: EventRecord)
        ensures
            r@ == instance_event(event_type@, message@, name@, opt_str_view(details)),
    {
        EventRecord {
            event_type: event_type.to_owned(),
            message,
            instance_name: Some(name.to_owned()),
            details: opt_owned(details),
        }
    }
}

/// An entry of the log holds what it is told, and names an instance exactly where it is on
/// one.
pub proof fn law_entries(
    event_type: Seq<char>,
    message: Seq<char>,
    name: Seq<char>,
    details: Option<Seq<char>>,
)
    ensures
        agent_event(event_type, message).event_type == event_type,
        agent_event(event_type, message).message == message,
        agent_event(event_type, message).instance_name is None,
        agent_event(event_type, message).details is None,
        instance_event(event_type, message, name, details).event_type == event_type,
        instance_event(event_type, message, name, details).message == message,
        instance_event(event_type, message, name, details).instance_name == Some(name),
        instance_event(event_type, message, name, details).details == details,
{
}

} // verus!
