//! What the agent tells of itself and of its host.

use vstd::prelude::*;
use vstd::string::*;

use crate::clock::Moment;
use crate::config::{AgentConfig, InstanceState};
use crate::install::{InstallInfo, InstallView};
use crate::json::{
    json_array, json_nat, json_opt_text, json_text, json_views, lemma_entry_value, nat_value,
    opt_slice, text_or_null, Fields, Json, JsonView,
};
use crate::numbers::{fixed_value, json_fixed, json_fixed_signed, json_moment, moment_value};
use crate::store::KeyedStore;
use crate::text::same;
use crate::token_scanner::rounded;

verus! {

// ---------------------------------------------------------------------------
// Kept answers
// ---------------------------------------------------------------------------

/// An answer that is kept for a while.
pub struct CacheEntry {
    pub value: Json,
    pub cached_at: Moment,
    /// The time that it took to make, in hundredths of a millisecond.
    pub build_ms: u64,
}

/// What a [`CacheEntry`] stands for.
pub struct CacheEntryView {
    pub value: JsonView,
    pub cached_at: Moment,
    pub build_ms: u64,
}

impl View for CacheEntry {
    type V = CacheEntryView;

    open spec fn view(&self) -> CacheEntryView {
        CacheEntryView {
            value: self.value@,
            cached_at: self.cached_at,
            build_ms: self.build_ms,
        }
    }
}

/// What is told of an answer: whether it was kept, how old it is, for how long it is
/// kept, and how long it took to make.
pub open spec fn cache_meta(
    hit: bool,
    age_hundredths: int,
    ttl_seconds: u32,
    build_ms: u64,
) -> JsonView {
    JsonView::Object(
        seq![
            ("cache_hit"@, JsonView::Bool(hit)),
            ("cache_age_ms"@, fixed_value(age_hundredths, 2)),
            ("ttl_ms"@, fixed_value(ttl_seconds * 10_000, 1)),
            ("build_ms"@, fixed_value(build_ms as int, 2)),
            ("stale_fallback"@, JsonView::Bool(false)),
        ],
    )
}

fn report_cache(hit: bool, age_hundredths: i128, ttl_seconds: u32, build_ms: u64) -> (r: Json)
    requires
        age_hundredths > i128::MIN,
    ensures
        r@ == cache_meta(hit, age_hundredths as int, ttl_seconds, build_ms),
{
    let mut f = Fields::new();
    f.put("cache_hit", Json::Bool(hit));
    f.put("cache_age_ms", json_fixed_signed(age_hundredths, 2));
    f.put("ttl_ms", json_fixed(ttl_seconds as u128 * 10_000, 1));
    f.put("build_ms", json_fixed(build_ms as u128, 2));
    f.put("stale_fallback", Json::Bool(false));
    assert(f@ == cache_meta(hit, age_hundredths as int, ttl_seconds, build_ms)->Object_0);
    f.object()
}

/// Whether an answer can be given again: it is younger than the time for which it is
/// kept.
pub open spec fn is_fresh(cached_at: Moment, now: Moment, ttl_seconds: u32) -> bool {
    now.total_nanos() - cached_at.total_nanos() < ttl_seconds * 1_000_000_000
}

/// The age of an answer in hundredths of a millisecond, to the nearest one.
pub open spec fn age_of(cached_at: Moment, now: Moment) -> int {
    rounded(now.total_nanos() - cached_at.total_nanos(), 10_000)
}

/// The answer that is given again, with what is told of it; nothing where none is
/// kept, or none that is young enough.
pub open spec fn kept_answer(
    cache: Map<Seq<char>, CacheEntryView>,
    key: Seq<char>,
    ttl_seconds: u32,
    now: Moment,
) -> Option<(JsonView, JsonView)> {
    if cache.contains_key(key) && is_fresh(cache[key].cached_at, now, ttl_seconds) {
        Some(
            (
                cache[key].value,
                cache_meta(
                    true,
                    age_of(cache[key].cached_at, now),
                    ttl_seconds,
                    cache[key].build_ms,
                ),
            ),
        )
    } else {
        None
    }
}

/// The answers that are kept, by their keys.
pub struct PayloadCache {
    entries: KeyedStore<CacheEntry>,
}

impl View for PayloadCache {
    type V = Map<Seq<char>, CacheEntryView>;

    closed spec fn view(&self) -> Map<Seq<char>, CacheEntryView> {
        self.entries@.map_values(|e: CacheEntry| e@)
    }
}

impl PayloadCache {
    /// No answers.
    pub fn new() -> (r: Self)
        ensures
            r@ == Map::<Seq<char>, CacheEntryView>::empty(),
    {
        let r = PayloadCache { entries: KeyedStore::new() };
        assert(r@ =~= Map::<Seq<char>, CacheEntryView>::empty());
        r
    }

    /// The answer that is given again, with what is told of it.
    pub fn lookup(&self, key: &str, ttl_seconds: u32, now: Moment) -> (r: Option<(Json, Json)>)
        ensures
            match r {
                Some(a) => kept_answer(self@, key@, ttl_seconds, now) == Some((a.0@, a.1@)),
                None => kept_answer(self@, key@, ttl_seconds, now) is None,
            },
    {
        match self.entries.get(key) {
            Some(entry) => {
                let age: i128 = now.as_nanos() as i128 - entry.cached_at.as_nanos() as i128;
                if age < ttl_seconds as i128 * 1_000_000_000 {
                    let hundredths: i128 = if age >= 0 {
                        (age + 5_000) / 10_000
                    } else {
                        -((-age + 5_000) / 10_000)
                    };
                    Some(
                        (
                            entry.value.copy(),
                            report_cache(true, hundredths, ttl_seconds, entry.build_ms),
                        ),
                    )
                } else {
                    None
                }
            },
            None => None,
        }
    }

    /// Keeps an answer that was made now, in place of an earlier one with the same
    /// key; and what is told of it.
    pub fn keep(
        &mut self,
        key: &str,
        value: &Json,
        build_ms: u64,
        ttl_seconds: u32,
        now: Moment,
    ) -> (r: Json)
        ensures
            final(self)@ == old(self)@.insert(
                key@,
                CacheEntryView { value: value@, cached_at: now, build_ms },
            ),
            r@ == cache_meta(false, 0, ttl_seconds, build_ms),
    {
        let ghost before = self@;
        let entry = CacheEntry { value: value.copy(), cached_at: now, build_ms };
        let ghost e = entry@;
        self.entries.insert(key, entry);
        assert(self@ =~= before.insert(key@, e));
        report_cache(false, 0, ttl_seconds, build_ms)
    }
}

// ---------------------------------------------------------------------------
// The host
// ---------------------------------------------------------------------------

/// The version of this service.
pub open spec fn service_version() -> Seq<char> {
    "1.0.0"@
}

/// What the agent tells of its host.
pub open spec fn host_report(agent: AgentConfig, install: InstallView, now: Moment) -> JsonView {
    JsonView::Object(
        seq![
            ("agent_name"@, JsonView::Str(agent.name@)),
            ("site"@, JsonView::Str(agent.site@)),
            ("hostname"@, JsonView::Str(install.hostname)),
            ("service_version"@, JsonView::Str(service_version())),
            ("openclaw_version"@, text_or_null(install.openclaw_version)),
            ("openclaw_version_full"@, text_or_null(install.version_full)),
            ("server_time"@, moment_value(now)),
        ],
    )
}

/// What the agent tells of its host.
pub fn build_host_meta(agent: &AgentConfig, install: &InstallInfo, now: Moment) -> (r: Json)
    ensures
        r@ == host_report(*agent, install@, now),
{
    let mut f = Fields::new();
    f.put("agent_name", json_text(agent.name.as_str()));
    f.put("site", json_text(agent.site.as_str()));
    f.put("hostname", json_text(install.hostname.as_str()));
    f.put("service_version", json_text("1.0.0"));
    f.put("openclaw_version", json_opt_text(opt_slice(&install.openclaw_version)));
    f.put("openclaw_version_full", json_opt_text(opt_slice(&install.version_full)));
    f.put("server_time", json_moment(now));
    assert(f@ == host_report(*agent, install@, now)->Object_0);
    f.object()
}

// ---------------------------------------------------------------------------
// Times of answers
// ---------------------------------------------------------------------------

/// The times of answers with `time` under a name: in the place of an earlier one under
/// the same name, or behind the others.
pub open spec fn with_time(times: Seq<(Seq<char>, u64)>, name: Seq<char>, time: u64) -> Seq<
    (Seq<char>, u64),
>
    decreases times.len(),
{
    if times.len() == 0 {
        seq![(name, time)]
    } else if times[0].0 == name {
        seq![(name, time)] + times.drop_first()
    } else {
        seq![times[0]] + with_time(times.drop_first(), name, time)
    }
}

/// An instance that is reported on: its name, and its state.
pub struct Seen {
    pub name: String,
    pub state: InstanceState,
}

/// The times of the answers of those instances that gave one, by their names.
pub open spec fn times_of(seen: Seq<Seen>) -> Seq<(Seq<char>, u64)>
    decreases seen.len(),
{
    if seen.len() == 0 {
        Seq::empty()
    } else {
        let before = times_of(seen.drop_last());
        match seen.last().state.last_response_time {
            Some(t) => with_time(before, seen.last().name@, t),
            None => before,
        }
    }
}

/// The sum of the times.
pub open spec fn sum_of(times: Seq<(Seq<char>, u64)>) -> int
    decreases times.len(),
{
    if times.len() == 0 {
        0
    } else {
        sum_of(times.drop_last()) + times.last().1
    }
}

/// Whether `m` is the greatest of the times.
pub open spec fn is_greatest(times: Seq<(Seq<char>, u64)>, m: u64) -> bool {
    &&& exists|i: int| 0 <= i < times.len() && (#[trigger] times[i]).1 == m
    &&& forall|i: int| 0 <= i < times.len() ==> (#[trigger] times[i]).1 <= m
}

/// The greatest of the times.
pub open spec fn greatest(times: Seq<(Seq<char>, u64)>) -> u64 {
    choose|m: u64| is_greatest(times, m)
}

/// The mean of the times to the nearest hundredth of a millisecond, or null where
/// there are none.
pub open spec fn mean_value(times: Seq<(Seq<char>, u64)>) -> JsonView {
    if times.len() == 0 {
        JsonView::Null
    } else {
        fixed_value(rounded(sum_of(times), times.len() as int), 2)
    }
}

/// The greatest of the times, or null where there are none.
pub open spec fn greatest_value(times: Seq<(Seq<char>, u64)>) -> JsonView {
    if times.len() == 0 {
        JsonView::Null
    } else {
        fixed_value(greatest(times) as int, 2)
    }
}

/// The times as a JSON object.
pub open spec fn time_entries(times: Seq<(Seq<char>, u64)>) -> Seq<(Seq<char>, JsonView)> {
    times.map_values(|t: (Seq<char>, u64)| (t.0, fixed_value(t.1 as int, 2)))
}

/// The entries of the report on the times of answers.
pub open spec fn timing_entries(seen: Seq<Seen>) -> Seq<(Seq<char>, JsonView)> {
    let times = times_of(seen);
    seq![
        ("openclaw_probe_ms_by_instance"@, JsonView::Object(time_entries(times))),
        ("openclaw_probe_avg_ms"@, mean_value(times)),
        ("openclaw_probe_max_ms"@, greatest_value(times)),
    ]
}

/// The times that a sequence of names and times stands for.
spec fn time_views(v: Seq<(String, u64)>) -> Seq<(Seq<char>, u64)> {
    v.map_values(|t: (String, u64)| (t.0@, t.1))
}

proof fn lemma_with_time(times: Seq<(Seq<char>, u64)>, name: Seq<char>, time: u64, i: int)
    requires
        0 <= i <= times.len(),
        forall|j: int| 0 <= j < i ==> (#[trigger] times[j]).0 != name,
        i < times.len() ==> times[i].0 == name,
    ensures
        with_time(times, name, time) == if i < times.len() {
            times.update(i, (name, time))
        } else {
            times.push((name, time))
        },
    decreases times.len(),
{
    if times.len() == 0 {
        assert(with_time(times, name, time) =~= times.push((name, time)));
    } else if i == 0 {
        assert(with_time(times, name, time) =~= times.update(0, (name, time)));
    } else {
        let t = times.drop_first();
        assert forall|j: int| 0 <= j < i - 1 implies (#[trigger] t[j]).0 != name by {
            assert(t[j] == times[j + 1]);
        }
        lemma_with_time(t, name, time, i - 1);
        if i < times.len() {
            assert(seq![times[0]] + t.update(i - 1, (name, time)) =~= times.update(
                i,
                (name, time),
            ));
        } else {
            assert(seq![times[0]] + t.push((name, time)) =~= times.push((name, time)));
        }
    }
}

fn set_time(times: &mut Vec<(String, u64)>, name: &str, time: u64)
    ensures
        time_views(final(times)@) == with_time(time_views(old(times)@), name@, time),
{
    let ghost all = time_views(times@);
    let mut i: usize = 0;
    while i < times.len() && !same(times[i].0.as_str(), name)
        invariant
            i <= times@.len(),
            times@ == old(times)@,
            all == time_views(times@),
            forall|j: int| 0 <= j < i ==> (#[trigger] all[j]).0 != name@,
        decreases times@.len() - i,
    {
        assert(all[i as int].0 == times@[i as int].0@);
        i = i + 1;
    }
    proof {
        if i < times@.len() {
            assert(all[i as int].0 == times@[i as int].0@);
        }
        lemma_with_time(all, name@, time, i as int);
    }
    if i < times.len() {
        times.set(i, (name.to_owned(), time));
        assert(time_views(times@) =~= all.update(i as int, (name@, time)));
    } else {
        times.push((name.to_owned(), time));
        assert(time_views(times@) =~= all.push((name@, time)));
    }
}

fn collect_times(seen: &Vec<Seen>) -> (r: Vec<(String, u64)>)
    ensures
        time_views(r@) == times_of(seen@),
{
    let mut out: Vec<(String, u64)> = Vec::new();
    let mut i: usize = 0;
    proof {
        assert(seen@.take(0) =~= Seq::<Seen>::empty());
        assert(time_views(out@) =~= Seq::<(Seq<char>, u64)>::empty());
    }
    while i < seen.len()
        invariant
            i <= seen@.len(),
            time_views(out@) == times_of(seen@.take(i as int)),
        decreases seen@.len() - i,
    {
        proof {
            assert(seen@.take(i + 1).drop_last() =~= seen@.take(i as int));
            assert(seen@.take(i + 1).last() == seen@[i as int]);
        }
        match seen[i].state.last_response_time {
            Some(t) => {
                set_time(&mut out, seen[i].name.as_str(), t);
            },
            None => {},
        }
        i = i + 1;
    }
    assert(seen@.take(i as int) =~= seen@);
    out
}

fn mean_json(times: &Vec<(String, u64)>) -> (r: Json)
    ensures
        r@ == mean_value(time_views(times@)),
{
    let ghost all = time_views(times@);
    let n = times.len();
    assert(all.len() == n);
    if n == 0 {
        return Json::Null;
    }
    let mut sum: u128 = 0;
    let mut i: usize = 0;
    assert(all.take(0) =~= Seq::<(Seq<char>, u64)>::empty());
    while i < n
        invariant
            i <= n == times@.len(),
            all == time_views(times@),
            sum == sum_of(all.take(i as int)),
            sum <= i * 0xffff_ffff_ffff_ffff,
        decreases n - i,
    {
        proof {
            assert(all.take(i + 1).drop_last() =~= all.take(i as int));
            assert(all.take(i + 1).last() == (times@[i as int].0@, times@[i as int].1));
            assert(i * 0xffff_ffff_ffff_ffff <= 0xffff_ffff_ffff_ffff * 0xffff_ffff_ffff_ffff)
                by (nonlinear_arith)
                requires
                    i <= 0xffff_ffff_ffff_ffff,
            ;
        }
        sum = sum + times[i].1 as u128;
        i = i + 1;
    }
    proof {
        assert(all.take(i as int) =~= all);
        assert(i * 0xffff_ffff_ffff_ffff <= 0xffff_ffff_ffff_ffff * 0xffff_ffff_ffff_ffff) by (
        nonlinear_arith)
            requires
                i <= 0xffff_ffff_ffff_ffff,
        ;
    }
    let mean: u128 = (sum + (n / 2) as u128) / n as u128;
    json_fixed(mean, 2)
}

fn greatest_json(times: &Vec<(String, u64)>) -> (r: Json)
    ensures
        r@ == greatest_value(time_views(times@)),
{
    let ghost all = time_views(times@);
    let n = times.len();
    assert(all.len() == n);
    if n == 0 {
        return Json::Null;
    }
    let mut best: u64 = times[0].1;
    let mut i: usize = 1;
    assert(all[0].1 == best);
    while i < n
        invariant
            1 <= i <= n == times@.len(),
            all == time_views(times@),
            exists|k: int| 0 <= k < i && (#[trigger] all[k]).1 == best,
            forall|k: int| 0 <= k < i ==> (#[trigger] all[k]).1 <= best,
        decreases n - i,
    {
        assert(all[i as int].1 == times@[i as int].1);
        if times[i].1 > best {
            best = times[i].1;
        }
        i = i + 1;
    }
    proof {
        assert(is_greatest(all, best));
        let g = greatest(all);
        assert(is_greatest(all, g));
        let a = choose|k: int| 0 <= k < all.len() && (#[trigger] all[k]).1 == g;
        let b = choose|k: int| 0 <= k < all.len() && (#[trigger] all[k]).1 == best;
        assert(all[a].1 <= best && all[b].1 <= g);
    }
    json_fixed(best as u128, 2)
}

/// Adds the report on the times of answers.
fn put_timing(fields: &mut Fields, seen: &Vec<Seen>)
    ensures
        final(fields)@ == old(fields)@ + timing_entries(seen@),
{
    let times = collect_times(seen);
    let ghost all = times_of(seen@);
    let ghost goal = time_entries(all);
    let mut by_name = Fields::new();
    let mut i: usize = 0;
    while i < times.len()
        invariant
            i <= times@.len(),
            all == time_views(times@),
            goal == time_entries(all),
            by_name@ == goal.take(i as int),
        decreases times@.len() - i,
    {
        assert(all[i as int] == (times@[i as int].0@, times@[i as int].1));
        by_name.put(times[i].0.as_str(), json_fixed(times[i].1 as u128, 2));
        assert(goal.take(i + 1) =~= goal.take(i as int).push(goal[i as int]));
        i = i + 1;
    }
    assert(goal.take(i as int) =~= goal);
    fields.put("openclaw_probe_ms_by_instance", by_name.object());
    fields.put("openclaw_probe_avg_ms", mean_json(&times));
    fields.put("openclaw_probe_max_ms", greatest_json(&times));
    assert(fields@ =~= old(fields)@ + timing_entries(seen@));
}

/// The entries of the report on times: those of answers, the time that the request
/// took, and the current time.
pub open spec fn request_timing(seen: Seq<Seen>, processing_ms: u64, now: Moment) -> Seq<
    (Seq<char>, JsonView),
> {
    timing_entries(seen) + seq![
        ("api_processing_ms"@, fixed_value(processing_ms as int, 2)),
        ("generated_at"@, moment_value(now)),
    ]
}

fn request_timing_fields(seen: &Vec<Seen>, processing_ms: u64, now: Moment) -> (r: Fields)
    ensures
        r@ == request_timing(seen@, processing_ms, now),
{
    let mut t = Fields::new();
    put_timing(&mut t, seen);
    t.put("api_processing_ms", json_fixed(processing_ms as u128, 2));
    t.put("generated_at", json_moment(now));
    assert(t@ =~= request_timing(seen@, processing_ms, now));
    t
}

// ---------------------------------------------------------------------------
// Health and snapshot
// ---------------------------------------------------------------------------

/// The number of instances that are up.
pub open spec fn online_count(seen: Seq<Seen>) -> nat {
    seen.filter(|s: Seen| s.state.online == Some(true)).len()
}

/// The number of instances that are up.
pub fn count_online(seen: &Vec<Seen>) -> (r: u64)
    ensures
        r == online_count(seen@),
{
    let mut n: u64 = 0;
    let mut i: usize = 0;
    proof {
        reveal(Seq::filter);
        assert(seen@.take(0) =~= Seq::<Seen>::empty());
    }
    while i < seen.len()
        invariant
            i <= seen@.len(),
            n <= i,
            n == online_count(seen@.take(i as int)),
        decreases seen@.len() - i,
    {
        proof {
            reveal(Seq::filter);
            assert(seen@.take(i + 1).drop_last() =~= seen@.take(i as int));
            assert(seen@.take(i + 1).last() == seen@[i as int]);
        }
        let up = match seen[i].state.online {
            Some(b) => b,
            None => false,
        };
        if up {
            n = n + 1;
        }
        i = i + 1;
    }
    assert(seen@.take(i as int) =~= seen@);
    n
}

/// What goes into the answer on the health of the agent.
pub struct HealthParts {
    /// The time since the start, in hundredths of a second.
    pub uptime: u64,
    pub host: Json,
    pub system: Json,
    pub maintenance: bool,
    pub seen: Vec<Seen>,
    /// The time that the request took, in hundredths of a millisecond.
    pub processing_ms: u64,
    pub now: Moment,
}

/// The answer on the health of the agent.
pub open spec fn health_report(p: HealthParts) -> JsonView {
    JsonView::Object(
        seq![
            ("status"@, JsonView::Str("ok"@)),
            ("service"@, JsonView::Str("openclaw-probe-agent"@)),
            ("process_uptime_seconds"@, fixed_value(p.uptime as int, 2)),
            ("host"@, p.host@),
            ("system"@, p.system@),
            ("maintenance_mode"@, JsonView::Bool(p.maintenance)),
            ("instances_total"@, nat_value(p.seen@.len() as u64)),
            ("instances_online"@, nat_value(online_count(p.seen@) as u64)),
            (
                "timing"@,
                JsonView::Object(request_timing(p.seen@, p.processing_ms, p.now)),
            ),
        ],
    )
}

/// The answer on the health of the agent.
pub fn agent_health(p: &HealthParts) -> (r: Json)
    ensures
        r@ == health_report(*p),
{
    let timing = request_timing_fields(&p.seen, p.processing_ms, p.now);
    let mut f = Fields::new();
    f.put("status", json_text("ok"));
    f.put("service", json_text("openclaw-probe-agent"));
    f.put("process_uptime_seconds", json_fixed(p.uptime as u128, 2));
    f.put("host", p.host.copy());
    f.put("system", p.system.copy());
    f.put("maintenance_mode", Json::Bool(p.maintenance));
    f.put("instances_total", json_nat(p.seen.len() as u64));
    f.put("instances_online", json_nat(count_online(&p.seen)));
    f.put("timing", timing.object());
    assert(f@ == health_report(*p)->Object_0);
    f.object()
}

/// A part of the snapshot that may have been kept, with what is told of that.
pub struct Section {
    pub value: Json,
    pub meta: Json,
}

/// What goes into the snapshot.
pub struct SnapshotParts {
    pub host: Json,
    pub system: Json,
    /// The sections of the configuration that are shown.
    pub config: Json,
    pub maintenance: bool,
    pub install: Json,
    pub release: Section,
    pub instances: Vec<Json>,
    pub token_summary: Section,
    pub heatmap: Section,
    pub events: Section,
    pub seen: Vec<Seen>,
    pub processing_ms: u64,
    pub now: Moment,
}

/// What is told of the parts of the snapshot that may have been kept.
pub open spec fn section_entries(p: SnapshotParts) -> Seq<(Seq<char>, JsonView)> {
    seq![
        ("openclaw_release"@, p.release.meta@),
        ("token_summary"@, p.token_summary.meta@),
        ("agent_heatmap"@, p.heatmap.meta@),
        ("events"@, p.events.meta@),
    ]
}

/// The report on the times of the snapshot.
pub open spec fn snapshot_timing(p: SnapshotParts) -> Seq<(Seq<char>, JsonView)> {
    request_timing(p.seen@, p.processing_ms, p.now).push(
        ("cached_sections"@, JsonView::Object(section_entries(p))),
    )
}

/// The snapshot.
pub open spec fn snapshot_report(p: SnapshotParts) -> JsonView {
    JsonView::Object(
        seq![
            ("status"@, JsonView::Str("ok"@)),
            ("service"@, JsonView::Str("openclaw-probe-agent"@)),
            ("host"@, p.host@),
            ("system"@, p.system@),
            ("config"@, p.config@),
            ("maintenance_mode"@, JsonView::Bool(p.maintenance)),
            ("openclaw_install"@, p.install@),
            ("openclaw_release"@, p.release.value@),
            ("instances"@, JsonView::Array(json_views(p.instances@))),
            ("token_summary"@, p.token_summary.value@),
            ("agent_heatmap"@, p.heatmap.value@),
            ("events"@, p.events.value@),
            ("timing"@, JsonView::Object(snapshot_timing(p))),
        ],
    )
}

fn copy_all(items: &Vec<Json>) -> (r: Json)
    ensures
        r@ == JsonView::Array(json_views(items@)),
{
    let mut out: Vec<Json> = Vec::new();
    let mut i: usize = 0;
    while i < items.len()
        invariant
            i <= items@.len(),
            out@.len() == i,
            forall|k: int| 0 <= k < i ==> (#[trigger] out@[k])@ == items@[k]@,
        decreases items@.len() - i,
    {
        out.push(items[i].copy());
        i = i + 1;
    }
    assert(json_views(out@) =~= json_views(items@));
    json_array(out)
}

/// The snapshot.
pub fn agent_snapshot(p: &SnapshotParts) -> (r: Json)
    ensures
        r@ == snapshot_report(*p),
{
    let mut sections = Fields::new();
    sections.put("openclaw_release", p.release.meta.copy());
    sections.put("token_summary", p.token_summary.meta.copy());
    sections.put("agent_heatmap", p.heatmap.meta.copy());
    sections.put("events", p.events.meta.copy());
    assert(sections@ == section_entries(*p));
    let mut timing = request_timing_fields(&p.seen, p.processing_ms, p.now);
    timing.put("cached_sections", sections.object());
    assert(timing@ == snapshot_timing(*p));

    let mut f = Fields::new();
    f.put("status", json_text("ok"));
    f.put("service", json_text("openclaw-probe-agent"));
    f.put("host", p.host.copy());
    f.put("system", p.system.copy());
    f.put("config", p.config.copy());
    f.put("maintenance_mode", Json::Bool(p.maintenance));
    f.put("openclaw_install", p.install.copy());
    f.put("openclaw_release", p.release.value.copy());
    f.put("instances", copy_all(&p.instances));
    f.put("token_summary", p.token_summary.value.copy());
    f.put("agent_heatmap", p.heatmap.value.copy());
    f.put("events", p.events.value.copy());
    f.put("timing", timing.object());
    assert(f@ == snapshot_report(*p)->Object_0);
    f.object()
}

// ---------------------------------------------------------------------------
// Laws
// ---------------------------------------------------------------------------

/// An answer that was kept is given again as long as it is young enough, and no longer;
/// answers under other keys are left alone.
pub proof fn law_answer_kept(
    cache: Map<Seq<char>, CacheEntryView>,
    key: Seq<char>,
    entry: CacheEntryView,
    other: Seq<char>,
    ttl_seconds: u32,
    now: Moment,
)
    ensures
        ({
            let after = cache.insert(key, entry);
            &&& is_fresh(entry.cached_at, now, ttl_seconds) ==> (kept_answer(
                after,
                key,
                ttl_seconds,
                now,
            ) matches Some(a) && a.0 == entry.value)
            &&& !is_fresh(entry.cached_at, now, ttl_seconds) ==> kept_answer(
                after,
                key,
                ttl_seconds,
                now,
            ) is None
            &&& other != key ==> kept_answer(after, other, ttl_seconds, now) == kept_answer(
                cache,
                other,
                ttl_seconds,
                now,
            )
        }),
        ttl_seconds > 0 ==> is_fresh(now, now, ttl_seconds),
{
}

/// An answer is kept for as many seconds as are given, and not for a moment longer; and what
/// is told of it says so: that it was kept, for how long, how long it can be, and the time
/// that it took to make.
pub proof fn law_kept_for_its_time(
    cache: Map<Seq<char>, CacheEntryView>,
    key: Seq<char>,
    ttl_seconds: u32,
    now: Moment,
    hundredths: int,
    build_ms: u64,
)
    ensures
        ({
            let found = kept_answer(cache, key, ttl_seconds, now);
            let e = cache[key];
            let age = now.total_nanos() - e.cached_at.total_nanos();
            &&& found is Some <==> cache.contains_key(key) && age < 1_000_000_000 * ttl_seconds
            &&& found matches Some(a) ==> a.0 == e.value && a.1.get("cache_hit"@) == Some(
                JsonView::Bool(true),
            ) && a.1.get("ttl_ms"@) == Some(fixed_value(10_000 * ttl_seconds, 1)) && a.1.get(
                "build_ms"@,
            ) == Some(fixed_value(e.build_ms as int, 2)) && (age >= 0 && -5_000 < 10_000
                * hundredths - age <= 5_000 ==> a.1.get("cache_age_ms"@) == Some(
                fixed_value(hundredths, 2),
            ))
        }),
        ({
            let fresh = cache_meta(false, 0, ttl_seconds, build_ms);
            &&& fresh.get("cache_hit"@) == Some(JsonView::Bool(false))
            &&& fresh.get("cache_age_ms"@) == Some(fixed_value(0, 2))
            &&& fresh.get("ttl_ms"@) == Some(fixed_value(10_000 * ttl_seconds, 1))
            &&& fresh.get("build_ms"@) == Some(fixed_value(build_ms as int, 2))
            &&& fresh.get("stale_fallback"@) == Some(JsonView::Bool(false))
        }),
{
    let e = cache[key];
    let entries = cache_meta(true, age_of(e.cached_at, now), ttl_seconds, e.build_ms)->Object_0;
    let fresh = cache_meta(false, 0, ttl_seconds, build_ms)->Object_0;
    reveal_strlit("cache_hit");
    assert("cache_hit"@.len() == 9);
    reveal_strlit("cache_age_ms");
    assert("cache_age_ms"@.len() == 12);
    reveal_strlit("ttl_ms");
    assert("ttl_ms"@.len() == 6);
    reveal_strlit("build_ms");
    assert("build_ms"@.len() == 8);
    reveal_strlit("stale_fallback");
    assert("stale_fallback"@.len() == 14);
    lemma_entry_value(entries, "cache_hit"@, 0);
    lemma_entry_value(entries, "cache_age_ms"@, 1);
    lemma_entry_value(entries, "ttl_ms"@, 2);
    lemma_entry_value(entries, "build_ms"@, 3);
    lemma_entry_value(entries, "stale_fallback"@, 4);
    lemma_entry_value(fresh, "cache_hit"@, 0);
    lemma_entry_value(fresh, "cache_age_ms"@, 1);
    lemma_entry_value(fresh, "ttl_ms"@, 2);
    lemma_entry_value(fresh, "build_ms"@, 3);
    lemma_entry_value(fresh, "stale_fallback"@, 4);
}

/// The report on the host shows who the agent is, the machine, and what is installed there.
pub proof fn law_host_reported(agent: AgentConfig, install: InstallView, now: Moment)
    ensures
        ({
            let told = host_report(agent, install, now);
            &&& told.get("agent_name"@) == Some(JsonView::Str(agent.name@))
            &&& told.get("site"@) == Some(JsonView::Str(agent.site@))
            &&& told.get("hostname"@) == Some(JsonView::Str(install.hostname))
            &&& told.get("service_version"@) == Some(JsonView::Str("1.0.0"@))
            &&& told.get("openclaw_version"@) == Some(text_or_null(install.openclaw_version))
            &&& told.get("openclaw_version_full"@) == Some(text_or_null(install.version_full))
            &&& told.get("server_time"@) == Some(moment_value(now))
        }),
{
    let entries = host_report(agent, install, now)->Object_0;
    reveal_strlit("agent_name");
    assert("agent_name"@.len() == 10);
    reveal_strlit("site");
    assert("site"@.len() == 4);
    reveal_strlit("hostname");
    assert("hostname"@.len() == 8);
    reveal_strlit("service_version");
    assert("service_version"@.len() == 15);
    reveal_strlit("openclaw_version");
    assert("openclaw_version"@.len() == 16);
    reveal_strlit("openclaw_version_full");
    assert("openclaw_version_full"@.len() == 21);
    reveal_strlit("server_time");
    assert("server_time"@.len() == 11);
    lemma_entry_value(entries, "agent_name"@, 0);
    lemma_entry_value(entries, "site"@, 1);
    lemma_entry_value(entries, "hostname"@, 2);
    lemma_entry_value(entries, "service_version"@, 3);
    lemma_entry_value(entries, "openclaw_version"@, 4);
    lemma_entry_value(entries, "openclaw_version_full"@, 5);
    lemma_entry_value(entries, "server_time"@, 6);
}

/// The number of instances that are up grows with each that is known to be up, and with no
/// other.
pub proof fn law_online_counted(seen: Seq<Seen>, s: Seen)
    ensures
        online_count(Seq::empty()) == 0,
        online_count(seen.push(s)) == online_count(seen) + if s.state.online == Some(true) {
            1nat
        } else {
            0
        },
        online_count(seen) <= seen.len(),
{
    reveal(Seq::filter);
    assert(seen.push(s).drop_last() =~= seen);
    broadcast use Seq::lemma_filter_len;
}

/// The health report says what was found: how many instances there are and how many of them
/// are up, whether the agent is in maintenance, and the reports on the host and the machine.
pub proof fn law_health_reported(p: HealthParts)
    ensures
        ({
            let told = health_report(p);
            &&& told.get("status"@) == Some(JsonView::Str("ok"@))
            &&& told.get("process_uptime_seconds"@) == Some(fixed_value(p.uptime as int, 2))
            &&& told.get("host"@) == Some(p.host@)
            &&& told.get("system"@) == Some(p.system@)
            &&& told.get("maintenance_mode"@) == Some(JsonView::Bool(p.maintenance))
            &&& told.get("instances_total"@) == Some(nat_value(p.seen@.len() as u64))
            &&& told.get("instances_online"@) == Some(nat_value(online_count(p.seen@) as u64))
            &&& told.get("timing"@) == Some(
                JsonView::Object(request_timing(p.seen@, p.processing_ms, p.now)),
            )
        }),
{
    let entries = health_report(p)->Object_0;
    reveal_strlit("status");
    assert("status"@.len() == 6);
    reveal_strlit("service");
    assert("service"@.len() == 7);
    reveal_strlit("process_uptime_seconds");
    assert("process_uptime_seconds"@.len() == 22);
    reveal_strlit("host");
    assert("host"@.len() == 4);
    reveal_strlit("system");
    assert("system"@.len() == 6);
    reveal_strlit("maintenance_mode");
    assert("maintenance_mode"@.len() == 16);
    reveal_strlit("instances_total");
    assert("instances_total"@.len() == 15);
    reveal_strlit("instances_online");
    assert("instances_online"@.len() == 16);
    reveal_strlit("timing");
    assert("timing"@.len() == 6);
    assert("status"@[1] != "system"@[1]);
    assert("maintenance_mode"@[0] != "instances_online"@[0]);
    assert("status"@[0] != "timing"@[0]);
    assert("system"@[0] != "timing"@[0]);
    lemma_entry_value(entries, "status"@, 0);
    lemma_entry_value(entries, "service"@, 1);
    lemma_entry_value(entries, "process_uptime_seconds"@, 2);
    lemma_entry_value(entries, "host"@, 3);
    lemma_entry_value(entries, "system"@, 4);
    lemma_entry_value(entries, "maintenance_mode"@, 5);
    lemma_entry_value(entries, "instances_total"@, 6);
    lemma_entry_value(entries, "instances_online"@, 7);
    lemma_entry_value(entries, "timing"@, 8);
}

/// The snapshot holds each section under its own name, and says of each of those that are
/// kept what is told of its keeping.
pub proof fn law_snapshot_reported(p: SnapshotParts)
    ensures
        ({
            let told = snapshot_report(p);
            &&& told.get("status"@) == Some(JsonView::Str("ok"@))
            &&& told.get("host"@) == Some(p.host@)
            &&& told.get("system"@) == Some(p.system@)
            &&& told.get("config"@) == Some(p.config@)
            &&& told.get("maintenance_mode"@) == Some(JsonView::Bool(p.maintenance))
            &&& told.get("openclaw_install"@) == Some(p.install@)
            &&& told.get("openclaw_release"@) == Some(p.release.value@)
            &&& told.get("instances"@) == Some(JsonView::Array(json_views(p.instances@)))
            &&& told.get("token_summary"@) == Some(p.token_summary.value@)
            &&& told.get("agent_heatmap"@) == Some(p.heatmap.value@)
            &&& told.get("events"@) == Some(p.events.value@)
            &&& told.get("timing"@) matches Some(t) && t.get("cached_sections"@) matches Some(c)
                && c.get("openclaw_release"@) == Some(p.release.meta@) && c.get("token_summary"@)
                == Some(p.token_summary.meta@) && c.get("agent_heatmap"@) == Some(p.heatmap.meta@)
                && c.get("events"@) == Some(p.events.meta@) && t.get("api_processing_ms"@) == Some(
                fixed_value(p.processing_ms as int, 2),
            ) && t.get("generated_at"@) == Some(moment_value(p.now))
        }),
{
    let entries = snapshot_report(p)->Object_0;
    let timing = snapshot_timing(p);
    let sections = section_entries(p);
    reveal_strlit("status");
    assert("status"@.len() == 6);
    reveal_strlit("service");
    assert("service"@.len() == 7);
    reveal_strlit("host");
    assert("host"@.len() == 4);
    reveal_strlit("system");
    assert("system"@.len() == 6);
    reveal_strlit("config");
    assert("config"@.len() == 6);
    reveal_strlit("maintenance_mode");
    assert("maintenance_mode"@.len() == 16);
    reveal_strlit("openclaw_install");
    assert("openclaw_install"@.len() == 16);
    reveal_strlit("openclaw_release");
    assert("openclaw_release"@.len() == 16);
    reveal_strlit("instances");
    assert("instances"@.len() == 9);
    reveal_strlit("token_summary");
    assert("token_summary"@.len() == 13);
    reveal_strlit("agent_heatmap");
    assert("agent_heatmap"@.len() == 13);
    reveal_strlit("events");
    assert("events"@.len() == 6);
    reveal_strlit("timing");
    assert("timing"@.len() == 6);
    reveal_strlit("openclaw_probe_ms_by_instance");
    assert("openclaw_probe_ms_by_instance"@.len() == 29);
    reveal_strlit("openclaw_probe_avg_ms");
    assert("openclaw_probe_avg_ms"@.len() == 21);
    reveal_strlit("openclaw_probe_max_ms");
    assert("openclaw_probe_max_ms"@.len() == 21);
    reveal_strlit("api_processing_ms");
    assert("api_processing_ms"@.len() == 17);
    reveal_strlit("generated_at");
    assert("generated_at"@.len() == 12);
    reveal_strlit("cached_sections");
    assert("cached_sections"@.len() == 15);
    assert("status"@[1] != "system"@[1]);
    assert("status"@[0] != "config"@[0]);
    assert("system"@[0] != "config"@[0]);
    assert("maintenance_mode"@[0] != "openclaw_install"@[0]);
    assert("maintenance_mode"@[0] != "openclaw_release"@[0]);
    assert("openclaw_install"@[9] != "openclaw_release"@[9]);
    assert("token_summary"@[0] != "agent_heatmap"@[0]);
    assert("status"@[0] != "events"@[0]);
    assert("system"@[0] != "events"@[0]);
    assert("config"@[0] != "events"@[0]);
    assert("status"@[0] != "timing"@[0]);
    assert("system"@[0] != "timing"@[0]);
    assert("config"@[0] != "timing"@[0]);
    assert("events"@[0] != "timing"@[0]);
    lemma_entry_value(entries, "status"@, 0);
    lemma_entry_value(entries, "service"@, 1);
    lemma_entry_value(entries, "host"@, 2);
    lemma_entry_value(entries, "system"@, 3);
    lemma_entry_value(entries, "config"@, 4);
    lemma_entry_value(entries, "maintenance_mode"@, 5);
    lemma_entry_value(entries, "openclaw_install"@, 6);
    lemma_entry_value(entries, "openclaw_release"@, 7);
    lemma_entry_value(entries, "instances"@, 8);
    lemma_entry_value(entries, "token_summary"@, 9);
    lemma_entry_value(entries, "agent_heatmap"@, 10);
    lemma_entry_value(entries, "events"@, 11);
    lemma_entry_value(entries, "timing"@, 12);
    assert("token_summary"@[0] != "agent_heatmap"@[0]);
    lemma_entry_value(sections, "openclaw_release"@, 0);
    lemma_entry_value(sections, "token_summary"@, 1);
    lemma_entry_value(sections, "agent_heatmap"@, 2);
    lemma_entry_value(sections, "events"@, 3);
    assert("openclaw_probe_avg_ms"@[15] != "openclaw_probe_max_ms"@[15]);
    lemma_entry_value(timing, "openclaw_probe_ms_by_instance"@, 0);
    lemma_entry_value(timing, "openclaw_probe_avg_ms"@, 1);
    lemma_entry_value(timing, "openclaw_probe_max_ms"@, 2);
    lemma_entry_value(timing, "api_processing_ms"@, 3);
    lemma_entry_value(timing, "generated_at"@, 4);
    lemma_entry_value(timing, "cached_sections"@, 5);
}

/// The times of answers are those that the instances have last shown, one for each instance
/// by its name, the later one where a name comes twice; one that has shown none does not
/// count. Their mean is told to the nearest hundredth of a millisecond, and the greatest of
/// them is one of them and not less than any other.
pub proof fn law_times_told(
    seen: Seq<Seen>,
    s: Seen,
    times: Seq<(Seq<char>, u64)>,
    mean: int,
    most: u64,
)
    ensures
        times_of(Seq::empty()).len() == 0,
        s.state.last_response_time is None ==> times_of(seen.push(s)) == times_of(seen),
        s.state.last_response_time matches Some(t) ==> (forall|i: int|
            0 <= i < times_of(seen).len() ==> (#[trigger] times_of(seen)[i]).0 != s.name@)
            ==> times_of(seen.push(s)) == times_of(seen).push((s.name@, t)),
        times.len() > 0 && 2 * sum_of(times) - times.len() < 2 * times.len() * mean <= 2 * sum_of(
            times,
        ) + times.len() ==> mean_value(times) == fixed_value(mean, 2),
        is_greatest(times, most) ==> greatest_value(times) == fixed_value(most as int, 2),
        times.len() == 0 ==> mean_value(times) is Null && greatest_value(times) is Null,
        sum_of(times.push((s.name@, most))) == sum_of(times) + most,
{
    assert(seen.push(s).drop_last() =~= seen);
    assert(times.push((s.name@, most)).drop_last() =~= times);
    if s.state.last_response_time is Some && (forall|i: int|
        0 <= i < times_of(seen).len() ==> (#[trigger] times_of(seen)[i]).0 != s.name@) {
        lemma_with_time(
            times_of(seen),
            s.name@,
            s.state.last_response_time->0,
            times_of(seen).len() as int,
        );
    }
    if times.len() > 0 && 2 * sum_of(times) - times.len() < 2 * times.len() * mean <= 2 * sum_of(
        times,
    ) + times.len() {
        lemma_sum_not_negative(times);
        let n = times.len() as int;
        let total = sum_of(times);
        lemma_mean(total, n, mean);
    }
    if is_greatest(times, most) {
        let m = greatest(times);
        assert(is_greatest(times, m));
        let i = choose|i: int| 0 <= i < times.len() && (#[trigger] times[i]).1 == m;
        let j = choose|j: int| 0 <= j < times.len() && (#[trigger] times[j]).1 == most;
        assert(times[i].1 <= most && times[j].1 <= m);
    }
}

proof fn lemma_sum_not_negative(times: Seq<(Seq<char>, u64)>)
    ensures
        sum_of(times) >= 0,
    decreases times.len(),
{
    if times.len() > 0 {
        lemma_sum_not_negative(times.drop_last());
    }
}

proof fn lemma_mean(total: int, n: int, mean: int)
    requires
        n > 0,
        total >= 0,
        2 * total - n < 2 * n * mean <= 2 * total + n,
    ensures
        rounded(total, n) == mean,
{
    let h = n / 2;
    let q = (total + h) / n;
    assert(n * mean <= total + h < n * mean + n) by {
        assert(2 * n * mean == 2 * (n * mean)) by (nonlinear_arith);
    }
    assert(q == mean) by (nonlinear_arith)
        requires
            n > 0,
            n * mean <= total + h < n * mean + n,
            q == (total + h) / n,
    ;
}

/// The timing tells the time of each instance under its name, the mean and the greatest of
/// them.
pub proof fn law_timing_told(seen: Seq<Seen>, i: int)
    ensures
        ({
            let told = JsonView::Object(timing_entries(seen));
            let times = times_of(seen);
            &&& told.get("openclaw_probe_avg_ms"@) == Some(mean_value(times))
            &&& told.get("openclaw_probe_max_ms"@) == Some(greatest_value(times))
            &&& told.get("openclaw_probe_ms_by_instance"@) matches Some(JsonView::Object(each))
                && each.len() == times.len() && (0 <= i < times.len() ==> each[i].0 == times[i].0
                && each[i].1 == fixed_value(times[i].1 as int, 2))
        }),
{
    let entries = timing_entries(seen);
    reveal_strlit("openclaw_probe_ms_by_instance");
    assert("openclaw_probe_ms_by_instance"@.len() == 29);
    reveal_strlit("openclaw_probe_avg_ms");
    assert("openclaw_probe_avg_ms"@.len() == 21);
    reveal_strlit("openclaw_probe_max_ms");
    assert("openclaw_probe_max_ms"@.len() == 21);
    assert("openclaw_probe_avg_ms"@[15] != "openclaw_probe_max_ms"@[15]);
    lemma_entry_value(entries, "openclaw_probe_ms_by_instance"@, 0);
    lemma_entry_value(entries, "openclaw_probe_avg_ms"@, 1);
    lemma_entry_value(entries, "openclaw_probe_max_ms"@, 2);
}

/// The greatest time is one of them, and none is greater.
pub proof fn law_greatest(times: Seq<(Seq<char>, u64)>, k: int)
    requires
        0 <= k < times.len(),
        forall|j: int| 0 <= j < times.len() ==> (#[trigger] times[j]).1 <= times[k].1,
    ensures
        greatest_value(times) == fixed_value(times[k].1 as int, 2),
{
    assert(is_greatest(times, times[k].1));
    let m = greatest(times);
    assert(is_greatest(times, m));
    let i = choose|i: int| 0 <= i < times.len() && (#[trigger] times[i]).1 == m;
    assert(times[i].1 <= times[k].1 && times[k].1 <= m);
}

} // verus!
