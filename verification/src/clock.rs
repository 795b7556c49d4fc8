//! Moments, and the calls that read the clock or turn a time into text.

use vstd::prelude::*;
use vstd::string::*;

use crate::json::{opt_text, text_or_null, Json, JsonView};
use crate::text::{cat, chars_of, dec, decimal, is_digit, string_between};

verus! {

/// A point in time: whole seconds since the start of 1970 in UTC, and the
/// nanoseconds since the last whole second.
#[derive(Debug, Clone, Copy, PartialEq, Eq, Structural)]
pub struct Moment {
    pub secs: u64,
    pub nanos: u32,
}

impl Moment {
    /// The nanoseconds since the start of 1970.
    pub open spec fn total_nanos(self) -> int {
        self.secs * 1_000_000_000 + self.nanos
    }

    /// The nanoseconds since the start of 1970.
    pub fn as_nanos(&self) -> (r: u128)
        ensures
            r == self.total_nanos(),
    {
        self.secs as u128 * 1_000_000_000 + self.nanos as u128
    }
}

/// The whole seconds that have passed from `since` to `now`; none where `now` is
/// the earlier of the two.
pub open spec fn seconds_passed(since: Moment, now: Moment) -> int {
    let passed = now.total_nanos() - since.total_nanos();
    if passed <= 0 {
        0
    } else {
        passed / 1_000_000_000
    }
}

/// The whole seconds that have passed from `since` to `now`.
pub fn seconds_between(since: Moment, now: Moment) -> (r: u64)
    ensures
        r == if seconds_passed(since, now) <= u64::MAX {
            seconds_passed(since, now)
        } else {
            u64::MAX as int
        },
{
    let a = since.as_nanos();
    let b = now.as_nanos();
    if b <= a {
        return 0;
    }
    let secs: u128 = (b - a) / 1_000_000_000;
    if secs <= 0xffff_ffff_ffff_ffff {
        secs as u64
    } else {
        u64::MAX
    }
}

// ---------------------------------------------------------------------------
// Outside calls
// ---------------------------------------------------------------------------

/// Whether `s` has `n` digits from position `i` on.
pub open spec fn digits_at(s: Seq<char>, i: int, n: int) -> bool {
    forall|k: int| i <= k < i + n ==> is_digit(#[trigger] s[k])
}

/// Whether `s` is written as a year is: four digits, or a sign and four digits or more.
pub open spec fn is_year_text(s: Seq<char>) -> bool {
    ||| s.len() == 4 && digits_at(s, 0, 4)
    ||| s.len() > 4 && (s[0] == '+' || s[0] == '-') && digits_at(s, 1, s.len() - 1)
}

/// Whether `s` has the form of a time such as `2024-05-01T12:30:00.123456`: the year,
/// the month, the day, the hour, the minute, the second and its millionths.
pub open spec fn is_iso_time(s: Seq<char>) -> bool {
    let y = s.len() - 22;
    &&& s.len() >= 26
    &&& is_year_text(s.take(y))
    &&& s[y] == '-' && digits_at(s, y + 1, 2)
    &&& s[y + 3] == '-' && digits_at(s, y + 4, 2)
    &&& s[y + 6] == 'T' && digits_at(s, y + 7, 2)
    &&& s[y + 9] == ':' && digits_at(s, y + 10, 2)
    &&& s[y + 12] == ':' && digits_at(s, y + 13, 2)
    &&& s[y + 15] == '.' && digits_at(s, y + 16, 6)
}

/// Whether `s` has the form of a time such as `20240501-123000`: the year, the month and
/// the day; and the hour, the minute and the second.
pub open spec fn is_stamp(s: Seq<char>) -> bool {
    let y = s.len() - 11;
    &&& s.len() >= 15
    &&& is_year_text(s.take(y))
    &&& digits_at(s, y, 4)
    &&& s[y + 4] == '-'
    &&& digits_at(s, y + 5, 6)
}

/// The current time in UTC, written as `2024-05-01T12:30:00.123456`, by
/// `chrono::Utc::now` and `DateTime::format`: a text in the form of [`is_iso_time`].
/// Which time it tells goes by the clock of the machine.
#[verifier::external_body]
pub fn now_iso() -> (r: String)
    ensures
        is_iso_time(r@),
{
    chrono::Utc::now().format("%Y-%m-%dT%H:%M:%S%.6f").to_string()
}

/// The current local time, written as `20240501-123000`, by `chrono::Local::now`
/// and `DateTime::format`: a text in the form of [`is_stamp`]. Which time it tells
/// goes by the clock and the time zone of the machine.
#[verifier::external_body]
fn local_stamp() -> (r: String)
    ensures
        is_stamp(r@),
{
    chrono::Local::now().format("%Y%m%d-%H%M%S").to_string()
}

/// The host name of the machine by `hostname::get`, with what is not Unicode
/// replaced, or nothing where the call fails. Nothing is claimed of the text: it
/// goes by the machine.
#[verifier::external_body]
pub(crate) fn host_name() -> (r: String) {
    hostname::get().map(|h| h.to_string_lossy().into_owned()).unwrap_or_default()
}

/// The digits that write a number to the base sixteen.
pub open spec fn is_hex(c: char) -> bool {
    '0' <= c <= '9' || 'a' <= c <= 'f'
}

/// Whether `s` has the form of a random identifier: five groups of hexadecimal
/// digits, 8, 4, 4, 4 and 12 of them, with hyphens between, the third group
/// beginning with the version digit 4.
pub open spec fn is_uuid_text(s: Seq<char>) -> bool {
    &&& s.len() == 36
    &&& forall|i: int|
        0 <= i < 36 ==> if i == 8 || i == 13 || i == 18 || i == 23 {
            #[trigger] s[i] == '-'
        } else {
            is_hex(s[i])
        }
    &&& s[14] == '4'
}

/// A fresh random identifier by `uuid::Uuid::new_v4` and `to_string`: 36
/// characters in the form of [`is_uuid_text`]. Which one comes is left to chance.
#[verifier::external_body]
fn random_uuid() -> (r: String)
    ensures
        is_uuid_text(r@),
{
    uuid::Uuid::new_v4().to_string()
}

/// The pattern by which [`clock_text`] writes a time.
pub open spec fn clock_pattern() -> Seq<char> {
    "%Y-%m-%d %H:%M:%S"@
}

/// What `chrono` writes for the time `secs` seconds after the start of 1970, at
/// the given number of seconds east of UTC, by the given pattern; nothing where
/// the time is beyond what `chrono::DateTime` can hold.
pub uninterp spec fn chrono_text(secs: i64, east: i32, pattern: Seq<char>) -> Option<Seq<char>>;

/// `chrono::DateTime::from_timestamp`, `DateTime::with_timezone` for the
/// `chrono::FixedOffset` that `east_opt` makes, and `DateTime::format`: the text
/// named by [`chrono_text`]. The offset has to be less than a day, and the pattern
/// one that `format` accepts.
#[verifier::external_body]
fn clock_text(secs: i64, east: i32, pattern: &str) -> (r: Option<String>)
    requires
        -86_400 < east < 86_400,
        pattern@ == clock_pattern(),
    ensures
        opt_text(r) == chrono_text(secs, east, pattern@),
{
    let zone = chrono::FixedOffset::east_opt(east)?;
    let time = chrono::DateTime::from_timestamp(secs, 0)?;
    Some(time.with_timezone(&zone).format(pattern).to_string())
}

// ---------------------------------------------------------------------------
// Identifiers
// ---------------------------------------------------------------------------

/// Whether `s` has the form of an identifier of a task: two groups of hexadecimal
/// digits, 8 and 3 of them, with a hyphen between.
pub open spec fn is_task_id(s: Seq<char>) -> bool {
    &&& s.len() == 12
    &&& forall|i: int|
        0 <= i < 12 ==> if i == 8 {
            #[trigger] s[i] == '-'
        } else {
            is_hex(s[i])
        }
}

/// A fresh identifier of a task: the first twelve characters of a random
/// identifier.
pub fn new_task_id() -> (r: String)
    ensures
        is_task_id(r@),
{
    let id = random_uuid();
    let chars = chars_of(id.as_str());
    let r = string_between(&chars, 0, 12);
    assert forall|i: int| 0 <= i < 12 implies r@[i] == id@[i] by {}
    r
}

/// The name of a fresh directory for an archive to be unpacked in.
pub fn new_restore_dir_name() -> (r: String)
    ensures
        r@.len() == "openclaw-restore-"@.len() + 36,
        r@.take("openclaw-restore-"@.len() as int) == "openclaw-restore-"@,
        is_uuid_text(r@.skip("openclaw-restore-"@.len() as int)),
{
    let id = random_uuid();
    let mut r = "openclaw-restore-".to_owned();
    r.append(id.as_str());
    assert(r@.take("openclaw-restore-"@.len() as int) =~= "openclaw-restore-"@);
    assert(r@.skip("openclaw-restore-"@.len() as int) =~= id@);
    r
}

/// The identifier of a backup that is made at the given time.
pub fn backup_id_at(stamp: &str) -> (r: String)
    ensures
        r@ == "backup-"@ + stamp@,
{
    cat("backup-", stamp)
}

/// A fresh identifier of a backup: `backup-` and the current local time.
pub fn new_backup_id() -> (r: String)
    ensures
        r@.len() >= "backup-"@.len() + 15,
        r@.take("backup-"@.len() as int) == "backup-"@,
        is_stamp(r@.skip("backup-"@.len() as int)),
{
    let stamp = local_stamp();
    let r = backup_id_at(stamp.as_str());
    assert(r@.take("backup-"@.len() as int) =~= "backup-"@);
    assert(r@.skip("backup-"@.len() as int) =~= stamp@);
    r
}

// ---------------------------------------------------------------------------
// Times as text
// ---------------------------------------------------------------------------

/// The text of a time in milliseconds, in the time zone eight hours east of UTC:
/// a time after the start of 1970 that the calendar holds, and null otherwise.
pub open spec fn ts_text(ts_ms: Option<i64>) -> JsonView {
    match ts_ms {
        Some(ms) => if ms > 0 {
            text_or_null(chrono_text((ms / 1000) as i64, 28_800, clock_pattern()))
        } else {
            JsonView::Null
        },
        None => JsonView::Null,
    }
}

/// The text of a time in milliseconds.
pub fn format_ts_ms(ts_ms: Option<i64>) -> (r: Json)
    ensures
        r@ == ts_text(ts_ms),
{
    match ts_ms {
        Some(ms) => if ms > 0 {
            written_time(clock_text(ms / 1000, 28_800, "%Y-%m-%d %H:%M:%S"))
        } else {
            Json::Null
        },
        None => Json::Null,
    }
}

/// The JSON value of a time that was written, or could not be.
pub fn written_time(text: Option<String>) -> (r: Json)
    ensures
        r@ == text_or_null(opt_text(text)),
{
    match text {
        Some(s) => Json::Str(s),
        None => Json::Null,
    }
}

/// A span of seconds in its largest unit: seconds, minutes, hours or days, rounded
/// down.
pub open spec fn span_text(seconds: nat) -> Seq<char> {
    if seconds < 60 {
        dec(seconds) + "s"@
    } else if seconds < 3600 {
        dec(seconds / 60) + "m"@
    } else if seconds < 86_400 {
        dec(seconds / 3600) + "h"@
    } else {
        dec(seconds / 86_400) + "d"@
    }
}

/// The distance between two numbers.
pub open spec fn distance(a: int, b: int) -> nat {
    if a < b {
        (b - a) as nat
    } else {
        (a - b) as nat
    }
}

/// The distance of a time in milliseconds from now, in its largest unit; null for
/// a time that is missing or not after the start of 1970.
pub open spec fn delta_text(ts_ms: Option<i64>, now_ms: int) -> JsonView {
    match ts_ms {
        Some(ms) => if ms > 0 {
            JsonView::Str(span_text(distance(ms as int, now_ms) / 1000))
        } else {
            JsonView::Null
        },
        None => JsonView::Null,
    }
}

fn amount(n: u64, unit: &str) -> (r: String)
    ensures
        r@ == dec(n as nat) + unit@,
{
    let mut s = decimal(n);
    s.append(unit);
    s
}

/// The distance of a time in milliseconds from now, in its largest unit.
pub fn humanize_delta_ms(ts_ms: Option<i64>, now_ms: i64) -> (r: Json)
    requires
        now_ms >= 0,
    ensures
        r@ == delta_text(ts_ms, now_ms as int),
{
    match ts_ms {
        Some(ms) => {
            if ms <= 0 {
                return Json::Null;
            }
            let apart: u64 = if ms < now_ms {
                (now_ms - ms) as u64
            } else {
                (ms - now_ms) as u64
            };
            let delta: u64 = apart / 1000;
            let s = if delta < 60 {
                amount(delta, "s")
            } else if delta < 3600 {
                amount(delta / 60, "m")
            } else if delta < 86_400 {
                amount(delta / 3600, "h")
            } else {
                amount(delta / 86_400, "d")
            };
            Json::Str(s)
        },
        None => Json::Null,
    }
}

/// A time of running in its two largest units: seconds alone, or minutes, hours or
/// days with the next smaller unit.
pub open spec fn uptime_text(seconds: nat) -> Seq<char> {
    if seconds < 60 {
        dec(seconds) + "s"@
    } else if seconds < 3600 {
        dec(seconds / 60) + "m "@ + dec(seconds % 60) + "s"@
    } else if seconds < 86_400 {
        dec(seconds / 3600) + "h "@ + dec(seconds / 60 % 60) + "m"@
    } else {
        dec(seconds / 86_400) + "d "@ + dec(seconds / 3600 % 24) + "h"@
    }
}

/// The time of running since `since`, or null where nothing runs.
pub open spec fn uptime_value(since: Option<Moment>, now: Moment) -> JsonView {
    match since {
        Some(since) => {
            let passed = seconds_passed(since, now);
            JsonView::Str(
                uptime_text(
                    if passed <= u64::MAX {
                        passed as nat
                    } else {
                        u64::MAX as nat
                    },
                ),
            )
        },
        None => JsonView::Null,
    }
}

fn two_amounts(n: u64, unit: &str, rest: u64, small: &str) -> (r: String)
    ensures
        r@ == dec(n as nat) + unit@ + dec(rest as nat) + small@,
{
    let mut s = amount(n, unit);
    let tail = decimal(rest);
    s.append(tail.as_str());
    s.append(small);
    s
}

/// The time of running since `since`.
pub fn format_uptime(since: Option<Moment>, now: Moment) -> (r: Json)
    ensures
        r@ == uptime_value(since, now),
{
    match since {
        Some(since) => {
            let seconds = seconds_between(since, now);
            let s = if seconds < 60 {
                amount(seconds, "s")
            } else {
                let minutes: u64 = seconds / 60;
                if minutes < 60 {
                    two_amounts(minutes, "m ", seconds % 60, "s")
                } else {
                    let hours: u64 = minutes / 60;
                    assert(hours == seconds / 3600);
                    if hours < 24 {
                        two_amounts(hours, "h ", minutes % 60, "m")
                    } else {
                        let days: u64 = hours / 24;
                        assert(days == seconds / 86_400);
                        two_amounts(days, "d ", hours % 24, "h")
                    }
                }
            };
            Json::Str(s)
        },
        None => Json::Null,
    }
}

// ---------------------------------------------------------------------------
// Laws
// ---------------------------------------------------------------------------

/// The seconds between two moments are the whole ones, rounded down, and none where the
/// second moment is not after the first; so an hour later it is 3600 more.
pub proof fn law_seconds_passed(since: Moment, now: Moment, later: Moment)
    requires
        since.nanos < 1_000_000_000,
        now.nanos < 1_000_000_000,
    ensures
        now.secs >= since.secs && now.nanos >= since.nanos ==> seconds_passed(since, now)
            == now.secs - since.secs,
        now.secs > since.secs && now.nanos < since.nanos ==> seconds_passed(since, now) == now.secs
            - since.secs - 1,
        now.secs < since.secs ==> seconds_passed(since, now) == 0,
        later.secs == now.secs + 3600 && later.nanos == now.nanos && now.secs > since.secs
            ==> seconds_passed(since, later) == seconds_passed(since, now) + 3600,
{
}

/// A time of running is told in its two largest units: so many days and hours, hours and
/// minutes, minutes and seconds, or seconds alone; what is less is left out.
pub proof fn law_uptime_told(d: nat, h: nat, m: nat, s: nat)
    requires
        h < 24,
        m < 60,
        s < 60,
    ensures
        uptime_text(s) == dec(s) + "s"@,
        m > 0 ==> uptime_text(60 * m + s) == dec(m) + "m "@ + dec(s) + "s"@,
        h > 0 ==> uptime_text(3600 * h + 60 * m + s) == dec(h) + "h "@ + dec(m) + "m"@,
        d > 0 ==> uptime_text(86_400 * d + 3600 * h + 60 * m + s) == dec(d) + "d "@ + dec(h) + "h"@,
{
    let a = 60 * m + s;
    assert(a / 60 == m && a % 60 == s);
    let b = 3600 * h + a;
    assert(b / 3600 == h);
    assert(b / 60 == 60 * h + m);
    assert(b / 60 % 60 == m);
    let c = 86_400 * d + b;
    assert(c / 86_400 == d);
    assert(c / 3600 == 24 * d + h);
    assert(c / 3600 % 24 == h);
}

/// A span is told in its largest unit, rounded down; and a time that lies as far ahead as
/// another lies behind is told the same.
pub proof fn law_span_told(d: nat, h: nat, m: nat, s: nat, now_ms: int, span: i64)
    requires
        h < 24,
        m < 60,
        s < 60,
        0 <= span < now_ms,
        now_ms + span <= i64::MAX,
    ensures
        span_text(s) == dec(s) + "s"@,
        m > 0 ==> span_text(60 * m + s) == dec(m) + "m"@,
        h > 0 ==> span_text(3600 * h + 60 * m + s) == dec(h) + "h"@,
        d > 0 ==> span_text(86_400 * d + 3600 * h + 60 * m + s) == dec(d) + "d"@,
        delta_text(Some((now_ms + span) as i64), now_ms) == delta_text(
            Some((now_ms - span) as i64),
            now_ms,
        ),
        delta_text(Some((now_ms + span) as i64), now_ms) == JsonView::Str(
            span_text((span / 1000) as nat),
        ),
        delta_text(None, now_ms) is Null,
        delta_text(Some(0), now_ms) is Null,
{
    let a = 60 * m + s;
    assert(a / 60 == m);
    let b = 3600 * h + a;
    assert(b / 3600 == h);
    let c = 86_400 * d + b;
    assert(c / 86_400 == d);
}

/// A time is written in the zone eight hours east of UTC, by its whole seconds; one that is
/// not known, or not after the start of 1970, is null.
pub proof fn law_time_written(ms: i64, text: Seq<char>)
    ensures
        ms > 0 && chrono_text((ms / 1000) as i64, 28_800, "%Y-%m-%d %H:%M:%S"@) == Some(text)
            ==> ts_text(Some(ms)) == JsonView::Str(text),
        ms <= 0 ==> ts_text(Some(ms)) is Null,
        ts_text(None) is Null,
        uptime_value(None, Moment { secs: 0, nanos: 0 }) is Null,
{
}

/// The identifier of a backup is its time behind the word for a backup.
pub proof fn law_backup_named(stamp: &str, id: String)
    requires
        call_ensures(backup_id_at, (stamp,), id),
    ensures
        id@ == "backup-"@ + stamp@,
{
}

} // verus!
