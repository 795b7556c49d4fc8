//! Requests for the event log.

use vstd::prelude::*;
use vstd::string::*;

use crate::json::{
    int_value, json_array, json_int, json_views, lemma_entry_value, Fields, Json, JsonView,
};
use crate::tokens::clamped;

verus! {

/// A request for entries of the event log.
pub struct EventsQuery {
    pub limit: i64,
    pub offset: i64,
    pub event_type: Option<String>,
}

/// The number of entries of a request that names none.
pub fn default_limit() -> (r: i64)
    ensures
        r == 50,
{
    50
}

impl EventsQuery {
    /// The number of entries that are shown, at least one and at most 500, and the
    /// number of those that are left out before them.
    pub fn shown(&self) -> (r: (i64, i64))
        ensures
            r.0 == clamped(self.limit as int, 1, 500),
            r.1 == if self.offset < 0 {
                0
            } else {
                self.offset as int
            },
    {
        let limit: i64 = if self.limit < 1 {
            1
        } else if self.limit > 500 {
            500
        } else {
            self.limit
        };
        let offset: i64 = if self.offset < 0 {
            0
        } else {
            self.offset
        };
        (limit, offset)
    }
}

/// The answer to a request for entries of the event log.
pub open spec fn events_report(events: Seq<JsonView>, limit: i64, offset: i64) -> JsonView {
    JsonView::Object(
        seq![
            ("events"@, JsonView::Array(events)),
            ("limit"@, int_value(limit)),
            ("offset"@, int_value(offset)),
        ],
    )
}

/// The answer to a request for entries of the event log.
pub fn build_events_payload(events: Vec<Json>, limit: i64, offset: i64) -> (r: Json)
    ensures
        r@ == events_report(json_views(events@), limit, offset),
{
    let ghost goal = events_report(json_views(events@), limit, offset);
    let mut f = Fields::new();
    f.put("events", json_array(events));
    f.put("limit", json_int(limit));
    f.put("offset", json_int(offset));
    assert(f@ == goal->Object_0);
    f.object()
}

/// The list of events tells the part that it shows.
pub proof fn law_events_reported(events: Seq<JsonView>, limit: i64, offset: i64)
    ensures
        events_report(events, limit, offset).get("events"@) == Some(JsonView::Array(events)),
        events_report(events, limit, offset).get("limit"@) == Some(int_value(limit)),
        events_report(events, limit, offset).get("offset"@) == Some(int_value(offset)),
{
    let entries = events_report(events, limit, offset)->Object_0;
    reveal_strlit("events");
    assert("events"@.len() == 6);
    reveal_strlit("limit");
    assert("limit"@.len() == 5);
    reveal_strlit("offset");
    assert("offset"@.len() == 6);
    assert("events"@[0] != "offset"@[0]);
    lemma_entry_value(entries, "events"@, 0);
    lemma_entry_value(entries, "limit"@, 1);
    lemma_entry_value(entries, "offset"@, 2);
}

/// One event at least is shown and 500 at most, and none from before the first; what is asked
/// for within these bounds is what is shown.
pub proof fn law_events_shown(q: &EventsQuery, r: (i64, i64), usual: i64)
    requires
        call_ensures(EventsQuery::shown, (q,), r),
        call_ensures(default_limit, (), usual),
    ensures
        1 <= r.0 <= 500,
        1 <= q.limit <= 500 ==> r.0 == q.limit,
        q.limit < 1 ==> r.0 == 1,
        q.limit > 500 ==> r.0 == 500,
        r.1 >= 0,
        q.offset >= 0 ==> r.1 == q.offset,
        q.offset < 0 ==> r.1 == 0,
        usual == 50,
{
}

} // verus!
