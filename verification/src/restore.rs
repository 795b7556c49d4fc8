//! Return of the home directories to what a backup holds.

use vstd::prelude::*;
use vstd::string::*;

use crate::backup::{
    archive_path, entry_in_archive, home_meta, homes_meta, metadata, with_archive, HomeView,
};
use crate::event_log::{agent_event, EventRecord, EventView};
use crate::install::InstallView;
use crate::json::{
    json_array, json_text, json_views, law_entry_read_back, lemma_entry_value, nat_value, opt_slice,
    opt_str_view, opt_text, text_or, value_or, Fields, Json, JsonView,
};
use crate::paths::{
    expand_home, file_name, file_name_of, home_expanded, is_plain_name, join_path, joined_path,
    law_path_parts, parent, parent_of, path_body,
};
use crate::text::{begins_with, cat, cat3, dec, dec_int, decimal_i64, is_digit, lemma_dec};

verus! {

// ---------------------------------------------------------------------------
// What to restore
// ---------------------------------------------------------------------------

/// The archive of a backup.
pub fn archive_to_restore(metadata: &Json) -> (r: Result<&str, String>)
    ensures
        match r {
            Ok(path) => metadata@.str_at("archive_path"@) == Some(path@),
            Err(m) => metadata@.str_at("archive_path"@) is None && m@ == "Missing archive_path"@,
        },
{
    match metadata.str_at("archive_path") {
        Some(path) => Ok(path),
        None => Err("Missing archive_path".to_owned()),
    }
}

/// The error where the archive is not there.
pub fn archive_not_found(path: &str) -> (r: String)
    ensures
        r@ == "Backup archive not found: "@ + path@,
{
    cat("Backup archive not found: ", path)
}

/// A home to restore: where it goes, and where it stands in the archive.
pub struct Target {
    pub source: String,
    pub entry: String,
}

/// What a [`Target`] stands for.
pub struct TargetView {
    pub source: Seq<char>,
    pub entry: Seq<char>,
}

impl View for Target {
    type V = TargetView;

    open spec fn view(&self) -> TargetView {
        TargetView { source: self.source@, entry: self.entry@ }
    }
}

/// The home that an element of the metadata names, or the error where it names none.
pub open spec fn target_of(home: JsonView, user_home: Option<Seq<char>>) -> Result<
    TargetView,
    Seq<char>,
> {
    match (home.str_at("source_path"@), home.str_at("archive_path"@)) {
        (None, _) => Err("Backup source_path missing"@),
        (Some(_), None) => Err("Backup archive_path missing"@),
        (Some(source), Some(entry)) => Ok(
            TargetView { source: home_expanded(source, user_home), entry },
        ),
    }
}

/// The homes that the metadata list, or the error where they list none.
pub open spec fn targets_of(metadata: JsonView, user_home: Option<Seq<char>>) -> Result<
    Seq<Result<TargetView, Seq<char>>>,
    Seq<char>,
> {
    match metadata.array_at("homes"@) {
        Some(homes) => Ok(homes.map_values(|h: JsonView| target_of(h, user_home))),
        None => Err("Backup homes metadata missing"@),
    }
}

/// What a result stands for.
pub open spec fn target_view(t: Result<Target, String>) -> Result<TargetView, Seq<char>> {
    match t {
        Ok(t) => Ok(t@),
        Err(e) => Err(e@),
    }
}

/// What a sequence of results stands for.
pub open spec fn target_views(targets: Seq<Result<Target, String>>) -> Seq<
    Result<TargetView, Seq<char>>,
> {
    targets.map_values(|t: Result<Target, String>| target_view(t))
}

fn read_target(home: &Json, user_home: Option<&str>) -> (r: Result<Target, String>)
    ensures
        target_view(r) == target_of(home@, opt_str_view(user_home)),
{
    match (home.str_at("source_path"), home.str_at("archive_path")) {
        (None, _) => Err("Backup source_path missing".to_owned()),
        (Some(_), None) => Err("Backup archive_path missing".to_owned()),
        (Some(source), Some(entry)) => Ok(
            Target { source: expand_home(source, user_home), entry: entry.to_owned() },
        ),
    }
}

// ---------------------------------------------------------------------------
// The run of a restore
// ---------------------------------------------------------------------------

/// The name under which a home is kept aside: its own, with the time.
pub open spec fn aside_path(source: Seq<char>, now_secs: int) -> Seq<char> {
    joined_path(
        value_or(parent_of(source), "/"@),
        value_or(file_name_of(source), "openclaw"@) + ".pre-restore-"@ + dec_int(now_secs),
    )
}

fn aside_name(source: &str, now_secs: i64) -> (r: String)
    ensures
        r@ == aside_path(source@, now_secs as int),
{
    let dir = parent(source);
    let name = file_name(source);
    let kept = cat3(
        text_or(opt_slice(&name), "openclaw"),
        ".pre-restore-",
        decimal_i64(now_secs).as_str(),
    );
    join_path(text_or(opt_slice(&dir), "/"), kept.as_str())
}

/// What is to be done with the home in hand.
#[derive(Debug, Clone, Copy, PartialEq, Eq, Structural)]
pub enum RestoreStage {
    /// See whether the archive holds it.
    FindContent,
    /// See whether there is one already.
    FindSource,
    /// Keep the one that is there aside.
    MoveAside,
    /// Put what the archive holds in its place.
    PutInPlace,
}

/// What is to be done next in a restore.
pub enum RestoreStep {
    /// Tell whether the path is there.
    Look { path: String },
    /// Rename a path.
    Rename { from: String, to: String },
    /// Nothing: all homes are restored.
    Finish,
    /// Nothing more: the restore has failed.
    Fail { message: String },
}

/// What came of a step.
pub enum RestoreEvent {
    /// Whether the path is there; and the time, in seconds since the start of 1970.
    Found { there: bool, now_secs: i64 },
    /// The path was renamed.
    Renamed,
    /// The step could not be done.
    Failed { error: String },
}

/// A home that was kept aside: where it stood, and where it stands.
pub struct Moved {
    pub source: String,
    pub aside: String,
}

/// A restore on its way.
pub struct Restore {
    /// The directory that the archive was unpacked in.
    pub unpacked: String,
    pub targets: Vec<Result<Target, String>>,
    /// The position of the home in hand.
    pub index: usize,
    pub stage: RestoreStage,
    /// The name under which the home in hand is to be kept aside.
    pub aside: String,
    /// The homes that were kept aside, in order.
    pub moved: Vec<Moved>,
    /// Why the restore has failed, if it has.
    pub failure: Option<String>,
}

/// What a [`Restore`] stands for.
pub struct RestoreView {
    pub unpacked: Seq<char>,
    pub targets: Seq<Result<TargetView, Seq<char>>>,
    pub index: int,
    pub stage: RestoreStage,
    pub aside: Seq<char>,
    pub moved: Seq<(Seq<char>, Seq<char>)>,
    pub failure: Option<Seq<char>>,
}

/// What a sequence of homes kept aside stands for.
pub open spec fn moved_views(moved: Seq<Moved>) -> Seq<(Seq<char>, Seq<char>)> {
    moved.map_values(|m: Moved| (m.source@, m.aside@))
}

impl View for Restore {
    type V = RestoreView;

    open spec fn view(&self) -> RestoreView {
        RestoreView {
            unpacked: self.unpacked@,
            targets: target_views(self.targets@),
            index: self.index as int,
            stage: self.stage,
            aside: self.aside@,
            moved: moved_views(self.moved@),
            failure: opt_text(self.failure),
        }
    }
}

/// Where a home stands in what was unpacked.
pub open spec fn content_path(r: RestoreView, t: TargetView) -> Seq<char> {
    joined_path(r.unpacked, t.entry)
}

/// Whether `step` is what is to be done next.
pub open spec fn is_next(r: RestoreView, step: RestoreStep) -> bool {
    match r.failure {
        Some(m) => step matches RestoreStep::Fail { message } && message@ == m,
        None => if r.index >= r.targets.len() {
            step is Finish
        } else {
            match r.targets[r.index] {
                Err(m) => step matches RestoreStep::Fail { message } && message@ == m,
                Ok(t) => match r.stage {
                    RestoreStage::FindContent => step matches RestoreStep::Look { path } && path@
                        == content_path(r, t),
                    RestoreStage::FindSource => step matches RestoreStep::Look { path } && path@
                        == t.source,
                    RestoreStage::MoveAside => step matches RestoreStep::Rename { from, to }
                        && from@ == t.source && to@ == r.aside,
                    RestoreStage::PutInPlace => step matches RestoreStep::Rename { from, to }
                        && from@ == content_path(r, t) && to@ == t.source,
                },
            }
        },
    }
}

/// Where a restore stands after what came of a step. A home is looked for in what was
/// unpacked, then the one in its place is kept aside, where there is one, and then
/// the new one is put there. Whatever fails ends the restore, and no other kind of
/// event changes it.
pub open spec fn after_step(r: RestoreView, event: RestoreEvent) -> RestoreView {
    if r.failure is Some || r.index >= r.targets.len() || r.targets[r.index] is Err {
        r
    } else {
        let t = r.targets[r.index]->Ok_0;
        match (r.stage, event) {
            (_, RestoreEvent::Failed { error }) => RestoreView { failure: Some(error@), ..r },
            (RestoreStage::FindContent, RestoreEvent::Found { there, now_secs }) => if there {
                RestoreView { stage: RestoreStage::FindSource, ..r }
            } else {
                RestoreView {
                    failure: Some("Backup content missing: "@ + content_path(r, t)),
                    ..r
                }
            },
            (RestoreStage::FindSource, RestoreEvent::Found { there, now_secs }) => if there {
                RestoreView {
                    stage: RestoreStage::MoveAside,
                    aside: aside_path(t.source, now_secs as int),
                    ..r
                }
            } else {
                RestoreView { stage: RestoreStage::PutInPlace, ..r }
            },
            (RestoreStage::MoveAside, RestoreEvent::Renamed) => RestoreView {
                stage: RestoreStage::PutInPlace,
                moved: r.moved.push((t.source, r.aside)),
                ..r
            },
            (RestoreStage::PutInPlace, RestoreEvent::Renamed) => RestoreView {
                stage: RestoreStage::FindContent,
                index: r.index + 1,
                ..r
            },
            _ => r,
        }
    }
}

/// The homes kept aside, as they are reported.
pub open spec fn moved_report(moved: Seq<(Seq<char>, Seq<char>)>) -> JsonView {
    JsonView::Object(
        seq![
            (
                "moved_paths"@,
                JsonView::Array(
                    moved.map_values(|m: (Seq<char>, Seq<char>)| moved_entry(m)),
                ),
            ),
        ],
    )
}

/// A home kept aside, as it is reported.
pub open spec fn moved_entry(m: (Seq<char>, Seq<char>)) -> JsonView {
    JsonView::Object(
        seq![("source_path"@, JsonView::Str(m.0)), ("moved_path"@, JsonView::Str(m.1))],
    )
}

/// A restore at its beginning, from what the metadata list.
pub open spec fn restore_of(
    metadata: JsonView,
    unpacked: Seq<char>,
    user_home: Option<Seq<char>>,
) -> RestoreView {
    RestoreView {
        unpacked,
        targets: targets_of(metadata, user_home)->Ok_0,
        index: 0,
        stage: RestoreStage::FindContent,
        aside: ""@,
        moved: Seq::empty(),
        failure: None,
    }
}

impl Restore {
    /// A restore at its beginning, from what the metadata list.
    pub fn begin(metadata: &Json, unpacked: &str, user_home: Option<&str>) -> (r: Result<
        Restore,
        String,
    >)
        ensures
            match (targets_of(metadata@, opt_str_view(user_home)), r) {
                (Ok(_), Ok(run)) => run@ == restore_of(
                    metadata@,
                    unpacked@,
                    opt_str_view(user_home),
                ),
                (Err(m), Err(e)) => e@ == m,
                _ => false,
            },
    {
        match metadata.array_at("homes") {
            Some(homes) => {
                let ghost goal = json_views(homes@).map_values(
                    |h: JsonView| target_of(h, opt_str_view(user_home)),
                );
                let mut targets: Vec<Result<Target, String>> = Vec::new();
                let mut i: usize = 0;
                while i < homes.len()
                    invariant
                        i <= homes@.len(),
                        goal == json_views(homes@).map_values(
                            |h: JsonView| target_of(h, opt_str_view(user_home)),
                        ),
                        targets@.len() == i,
                        forall|k: int|
                            0 <= k < i ==> target_view(#[trigger] targets@[k]) == goal[k],
                    decreases homes@.len() - i,
                {
                    assert(json_views(homes@)[i as int] == homes@[i as int]@);
                    targets.push(read_target(&homes[i], user_home));
                    i = i + 1;
                }
                assert(target_views(targets@) =~= goal);
                let run = Restore {
                    unpacked: unpacked.to_owned(),
                    targets,
                    index: 0,
                    stage: RestoreStage::FindContent,
                    aside: "".to_owned(),
                    moved: Vec::new(),
                    failure: None,
                };
                assert(moved_views(run.moved@) =~= Seq::<(Seq<char>, Seq<char>)>::empty());
                Ok(run)
            },
            None => Err("Backup homes metadata missing".to_owned()),
        }
    }

    /// What is to be done next.
    pub fn next_step(&self) -> (r: RestoreStep)
        ensures
            is_next(self@, r),
    {
        match &self.failure {
            Some(m) => {
                return RestoreStep::Fail { message: m.clone() };
            },
            None => {},
        }
        if self.index >= self.targets.len() {
            return RestoreStep::Finish;
        }
        assert(self@.targets[self.index as int] == target_view(self.targets@[self.index as int]));
        match &self.targets[self.index] {
            Err(m) => RestoreStep::Fail { message: m.clone() },
            Ok(t) => match self.stage {
                RestoreStage::FindContent => RestoreStep::Look {
                    path: join_path(self.unpacked.as_str(), t.entry.as_str()),
                },
                RestoreStage::FindSource => RestoreStep::Look { path: t.source.clone() },
                RestoreStage::MoveAside => RestoreStep::Rename {
                    from: t.source.clone(),
                    to: self.aside.clone(),
                },
                RestoreStage::PutInPlace => RestoreStep::Rename {
                    from: join_path(self.unpacked.as_str(), t.entry.as_str()),
                    to: t.source.clone(),
                },
            },
        }
    }

    /// Takes in what came of a step.
    pub fn advance(&mut self, event: RestoreEvent)
        ensures
            final(self)@ == after_step(old(self)@, event),
    {
        if self.failure.is_some() || self.index >= self.targets.len() {
            return;
        }
        let ghost before = self@;
        assert(before.targets[self.index as int] == target_view(self.targets@[self.index as int]));
        let (source, entry) = match &self.targets[self.index] {
            Err(_) => {
                return;
            },
            Ok(t) => (t.source.clone(), t.entry.clone()),
        };
        match (self.stage, event) {
            (_, RestoreEvent::Failed { error }) => {
                self.failure = Some(error);
            },
            (RestoreStage::FindContent, RestoreEvent::Found { there, .. }) => {
                if there {
                    self.stage = RestoreStage::FindSource;
                } else {
                    let content = join_path(self.unpacked.as_str(), entry.as_str());
                    self.failure = Some(cat("Backup content missing: ", content.as_str()));
                }
            },
            (RestoreStage::FindSource, RestoreEvent::Found { there, now_secs }) => {
                if there {
                    self.aside = aside_name(source.as_str(), now_secs);
                    self.stage = RestoreStage::MoveAside;
                } else {
                    self.stage = RestoreStage::PutInPlace;
                }
            },
            (RestoreStage::MoveAside, RestoreEvent::Renamed) => {
                let aside = self.aside.clone();
                self.moved.push(Moved { source, aside });
                self.stage = RestoreStage::PutInPlace;
                assert(moved_views(self.moved@) =~= before.moved.push((source@, before.aside)));
            },
            (RestoreStage::PutInPlace, RestoreEvent::Renamed) => {
                self.index = self.index + 1;
                self.stage = RestoreStage::FindContent;
            },
            _ => {},
        }
    }

    /// The homes kept aside, as they are reported.
    pub fn report(&self) -> (r: Json)
        ensures
            r@ == moved_report(self@.moved),
    {
        let ghost goal = self@.moved.map_values(|m: (Seq<char>, Seq<char>)| moved_entry(m));
        let mut out: Vec<Json> = Vec::new();
        let mut i: usize = 0;
        while i < self.moved.len()
            invariant
                i <= self.moved@.len(),
                goal == self@.moved.map_values(|m: (Seq<char>, Seq<char>)| moved_entry(m)),
                out@.len() == i,
                forall|k: int| 0 <= k < i ==> (#[trigger] out@[k])@ == goal[k],
            decreases self.moved@.len() - i,
        {
            let m = &self.moved[i];
            assert(self@.moved[i as int] == (m.source@, m.aside@));
            let mut f = Fields::new();
            f.put("source_path", json_text(m.source.as_str()));
            f.put("moved_path", json_text(m.aside.as_str()));
            assert(f@ == moved_entry((m.source@, m.aside@))->Object_0);
            out.push(f.object());
            i = i + 1;
        }
        assert(json_views(out@) =~= goal);
        let mut f = Fields::new();
        f.put("moved_paths", json_array(out));
        assert(f@ == moved_report(self@.moved)->Object_0);
        f.object()
    }

    /// The homes kept aside, the last one first: the order in which they go back
    /// after a failure, each after what stands in its place was removed.
    pub fn rollback_order(&self) -> (r: Vec<(String, String)>)
        ensures
            r@.map_values(|m: (String, String)| (m.0@, m.1@)) == self@.moved.reverse(),
    {
        let n = self.moved.len();
        let mut out: Vec<(String, String)> = Vec::new();
        let mut i: usize = n;
        while i > 0
            invariant
                i <= n == self.moved@.len(),
                out@.len() == n - i,
                forall|k: int|
                    0 <= k < n - i ==> ((#[trigger] out@[k]).0@, out@[k].1@)
                        == self@.moved.reverse()[k],
            decreases i,
        {
            i = i - 1;
            let m = &self.moved[i];
            assert(self@.moved[i as int] == (m.source@, m.aside@));
            out.push((m.source.clone(), m.aside.clone()));
        }
        assert(pair_views(out@) =~= self@.moved.reverse());
        out
    }
}

spec fn pair_views(v: Seq<(String, String)>) -> Seq<(Seq<char>, Seq<char>)> {
    v.map_values(|m: (String, String)| (m.0@, m.1@))
}

// ---------------------------------------------------------------------------
// The whole operation
// ---------------------------------------------------------------------------

/// The error where there is no such backup.
pub fn backup_not_found(backup_id: &str) -> (r: String)
    ensures
        r@ == "Backup '"@ + backup_id@ + "' not found"@,
{
    cat3("Backup '", backup_id, "' not found")
}

/// The entry in the event log on a restore.
pub open spec fn restore_event(backup_id: Seq<char>, health_ok: bool) -> EventView {
    agent_event(
        if health_ok {
            "backup_restored"@
        } else {
            "backup_restore_failed"@
        },
        "已恢复备份 "@ + backup_id,
    )
}

/// The report on a restore.
pub open spec fn restore_report(
    backup_id: Seq<char>,
    stops: Seq<JsonView>,
    moved: JsonView,
    starts: Seq<JsonView>,
    health_ok: bool,
) -> JsonView {
    JsonView::Object(
        seq![
            ("backup_id"@, JsonView::Str(backup_id)),
            ("stop_results"@, JsonView::Array(stops)),
            ("restore"@, moved),
            ("start_results"@, JsonView::Array(starts)),
            ("health_ok"@, JsonView::Bool(health_ok)),
        ],
    )
}

/// Ends a restore: the entry in the event log, and the report. Where the instances
/// were started again, `started` holds the reports on that, and whether all of them
/// came up.
pub fn finish_restore(
    backup_id: &str,
    stops: Vec<Json>,
    moved: Json,
    started: Option<(Vec<Json>, bool)>,
) -> (r: (EventRecord, Json))
    ensures
        ({
            let (starts, health_ok) = match started {
                Some(s) => (json_views(s.0@), s.1),
                None => (Seq::<JsonView>::empty(), true),
            };
            &&& r.0@ == restore_event(backup_id@, health_ok)
            &&& r.1@ == restore_report(backup_id@, json_views(stops@), moved@, starts, health_ok)
        }),
{
    let (starts, health_ok) = match started {
        Some(s) => s,
        None => {
            let none: Vec<Json> = Vec::new();
            assert(json_views(none@) =~= Seq::<JsonView>::empty());
            (none, true)
        },
    };
    let event = EventRecord::on_agent(
        if health_ok {
            "backup_restored"
        } else {
            "backup_restore_failed"
        },
        cat("已恢复备份 ", backup_id),
    );
    let ghost goal = restore_report(
        backup_id@,
        json_views(stops@),
        moved@,
        json_views(starts@),
        health_ok,
    );
    let mut f = Fields::new();
    f.put("backup_id", json_text(backup_id));
    f.put("stop_results", json_array(stops));
    f.put("restore", moved);
    f.put("start_results", json_array(starts));
    f.put("health_ok", Json::Bool(health_ok));
    assert(f@ == goal->Object_0);
    (event, f.object())
}

// ---------------------------------------------------------------------------
// Laws
// ---------------------------------------------------------------------------

/// What stands under each name, with `from` renamed to `to`, where it stands there.
pub open spec fn renamed<T>(fs: Map<Seq<char>, T>, from: Seq<char>, to: Seq<char>) -> Map<
    Seq<char>,
    T,
> {
    if fs.contains_key(from) {
        fs.remove(from).insert(to, fs[from])
    } else {
        fs
    }
}

/// What stands under each name after the homes kept aside went back, the last one
/// first, each after what stood in its place was removed.
pub open spec fn rolled_back<T>(
    fs: Map<Seq<char>, T>,
    moved: Seq<(Seq<char>, Seq<char>)>,
) -> Map<Seq<char>, T>
    decreases moved.len(),
{
    if moved.len() == 0 {
        fs
    } else {
        let (source, aside) = moved.last();
        rolled_back(renamed(fs.remove(source), aside, source), moved.drop_last())
    }
}

/// Whether all the names that homes had and have are different ones.
pub open spec fn names_differ(moved: Seq<(Seq<char>, Seq<char>)>) -> bool {
    &&& forall|i: int, j: int|
        0 <= i < j < moved.len() ==> (#[trigger] moved[i]).0 != (#[trigger] moved[j]).0
            && moved[i].1 != moved[j].1
    &&& forall|i: int, j: int|
        0 <= i < moved.len() && 0 <= j < moved.len() ==> (#[trigger] moved[i]).0 != (
        #[trigger] moved[j]).1
}

/// Whether what stood in the place of each home kept aside stands under the name
/// under which it is kept.
pub open spec fn kept_aside<T>(
    start: Map<Seq<char>, T>,
    fs: Map<Seq<char>, T>,
    moved: Seq<(Seq<char>, Seq<char>)>,
) -> bool {
    forall|i: int|
        0 <= i < moved.len() ==> start.contains_key((#[trigger] moved[i]).0) && fs.contains_key(
            moved[i].1,
        ) && fs[moved[i].1] == start[moved[i].0]
}

/// Keeping a home aside under a new name, and putting what was unpacked in its place,
/// both leave what is kept aside where it is.
pub proof fn law_steps_keep_aside<T>(
    start: Map<Seq<char>, T>,
    fs: Map<Seq<char>, T>,
    moved: Seq<(Seq<char>, Seq<char>)>,
    source: Seq<char>,
    aside: Seq<char>,
    content: Seq<char>,
)
    requires
        kept_aside(start, fs, moved),
        fs.contains_key(source) && start.contains_key(source) && fs[source] == start[source],
        forall|i: int|
            0 <= i < moved.len() ==> (#[trigger] moved[i]).1 != source && moved[i].1 != aside
                && moved[i].1 != content,
        aside != source && aside != content,
    ensures
        kept_aside(start, renamed(fs, source, aside), moved.push((source, aside))),
        kept_aside(
            start,
            renamed(renamed(fs, source, aside), content, source),
            moved.push((source, aside)),
        ),
        kept_aside(start, renamed(fs, content, source), moved),
{
    let after = moved.push((source, aside));
    let f1 = renamed(fs, source, aside);
    let f2 = renamed(f1, content, source);
    assert forall|i: int| 0 <= i < after.len() implies start.contains_key((#[trigger] after[i]).0)
        && f1.contains_key(after[i].1) && f1[after[i].1] == start[after[i].0] && f2.contains_key(
        after[i].1,
    ) && f2[after[i].1] == start[after[i].0] by {
        if i < moved.len() {
            assert(after[i] == moved[i]);
        }
    }
}

/// A restore that fails leaves nothing behind in the place of a home that it kept
/// aside: after the way back every one of them stands where it stood, with what it
/// held, and nothing stands under the name that it had meanwhile.
pub proof fn law_rollback_restores<T>(
    start: Map<Seq<char>, T>,
    fs: Map<Seq<char>, T>,
    moved: Seq<(Seq<char>, Seq<char>)>,
    i: int,
)
    requires
        names_differ(moved),
        kept_aside(start, fs, moved),
        0 <= i < moved.len(),
    ensures
        rolled_back(fs, moved).contains_key(moved[i].0),
        rolled_back(fs, moved)[moved[i].0] == start[moved[i].0],
        !rolled_back(fs, moved).contains_key(moved[i].1),
    decreases moved.len(),
{
    let n = moved.len() - 1;
    let (source, aside) = moved.last();
    let rest = moved.drop_last();
    let next = renamed(fs.remove(source), aside, source);
    assert(moved[n] == (source, aside));
    assert forall|k: int| 0 <= k < rest.len() implies start.contains_key((#[trigger] rest[k]).0)
        && next.contains_key(rest[k].1) && next[rest[k].1] == start[rest[k].0] by {
        assert(rest[k] == moved[k]);
        assert(moved[k].1 != moved[n].1);
        assert(moved[n].0 != moved[k].1);
    }
    assert(names_differ(rest)) by {
        assert forall|a: int, b: int| 0 <= a < b < rest.len() implies (#[trigger] rest[a]).0 != (
        #[trigger] rest[b]).0 && rest[a].1 != rest[b].1 by {
            assert(moved[a].0 != moved[b].0 && moved[a].1 != moved[b].1);
        }
        assert forall|a: int, b: int|
            0 <= a < rest.len() && 0 <= b < rest.len() implies (#[trigger] rest[a]).0 != (
        #[trigger] rest[b]).1 by {
            assert(moved[a].0 != moved[b].1);
        }
    }
    if i < n {
        assert(rest[i] == moved[i]);
        law_rollback_restores(start, next, rest, i);
    } else {
        assert(fs.remove(source).contains_key(aside)) by {
            assert(moved[n].0 != moved[n].1);
        }
        assert(next.contains_key(source) && next[source] == start[source]);
        assert(!next.contains_key(aside)) by {
            assert(moved[n].0 != moved[n].1);
        }
        assert forall|k: int| 0 <= k < rest.len() implies (#[trigger] rest[k]).0 != source
            && rest[k].1 != source && rest[k].0 != aside && rest[k].1 != aside by {
            assert(moved[k].0 != moved[n].0 && moved[k].1 != moved[n].1);
            assert(moved[n].0 != moved[k].1);
            assert(moved[k].0 != moved[n].1);
        }
        lemma_untouched(next, rest, source);
        lemma_untouched(next, rest, aside);
    }
}

proof fn lemma_untouched<T>(
    fs: Map<Seq<char>, T>,
    moved: Seq<(Seq<char>, Seq<char>)>,
    path: Seq<char>,
)
    requires
        forall|k: int|
            0 <= k < moved.len() ==> (#[trigger] moved[k]).0 != path && moved[k].1 != path,
    ensures
        rolled_back(fs, moved).contains_key(path) == fs.contains_key(path),
        fs.contains_key(path) ==> rolled_back(fs, moved)[path] == fs[path],
    decreases moved.len(),
{
    if moved.len() > 0 {
        let (source, aside) = moved.last();
        let rest = moved.drop_last();
        assert(moved[moved.len() - 1] == (source, aside));
        assert forall|k: int| 0 <= k < rest.len() implies (#[trigger] rest[k]).0 != path
            && rest[k].1 != path by {
            assert(rest[k] == moved[k]);
        }
        lemma_untouched(renamed(fs.remove(source), aside, source), rest, path);
    }
}

/// A restore that has failed, or is finished, stays so; and one that goes on never
/// forgets a home that it kept aside.
pub proof fn law_restore_settles(r: RestoreView, event: RestoreEvent)
    ensures
        r.failure is Some ==> after_step(r, event) == r,
        r.index >= r.targets.len() ==> after_step(r, event) == r,
        r.moved.is_prefix_of(after_step(r, event).moved),
        after_step(r, event).moved.len() <= r.moved.len() + 1,
{
}

proof fn lemma_metadata(
    backup_id: Seq<char>,
    label: Option<Seq<char>>,
    created_at: Seq<char>,
    install: InstallView,
    root: Seq<char>,
    homes: Seq<HomeView>,
)
    ensures
        ({
            let meta = metadata(backup_id, label, created_at, install, root, homes);
            &&& meta.get("backup_id"@) == Some(JsonView::Str(backup_id))
            &&& meta.get("archive_path"@) == Some(JsonView::Str(archive_path(root, backup_id)))
            &&& meta.get("homes"@) == Some(JsonView::Array(homes_meta(homes)))
        }),
{
    let meta = metadata(backup_id, label, created_at, install, root, homes);
    let entries = meta->Object_0;
    reveal_strlit("backup_id");
    reveal_strlit("label");
    reveal_strlit("created_at");
    reveal_strlit("hostname");
    reveal_strlit("openclaw_version");
    reveal_strlit("openclaw_version_full");
    reveal_strlit("archive_path");
    reveal_strlit("metadata_path");
    reveal_strlit("homes");
    assert("backup_id"@.len() == 9);
    assert("label"@.len() == 5);
    assert("created_at"@.len() == 10);
    assert("hostname"@.len() == 8);
    assert("openclaw_version"@.len() == 16);
    assert("openclaw_version_full"@.len() == 21);
    assert("archive_path"@.len() == 12);
    assert("metadata_path"@.len() == 13);
    assert("homes"@.len() == 5);
    assert("label"@[0] != "homes"@[0]);
    lemma_entry_value(entries, "backup_id"@, 0);
    lemma_entry_value(entries, "archive_path"@, 6);
    lemma_entry_value(entries, "homes"@, 8);
}

proof fn lemma_home_meta(home: HomeView, i: int, user_home: Option<Seq<char>>)
    ensures
        target_of(home_meta(home, i), user_home) == Ok::<TargetView, Seq<char>>(
            TargetView {
                source: home_expanded(home.path, user_home),
                entry: entry_in_archive(home.path, i),
            },
        ),
{
    let entries = home_meta(home, i)->Object_0;
    reveal_strlit("source_path");
    reveal_strlit("archive_path");
    assert("source_path"@.len() == 11);
    assert("archive_path"@.len() == 12);
    lemma_entry_value(entries, "source_path"@, 0);
    lemma_entry_value(entries, "archive_path"@, 1);
}

/// What the metadata of a backup tell is what a restore reads from them, also after
/// the list of backups has added what was found of the archive: the identifier, the
/// archive, and each home, with the path that it had and the place in the archive
/// that it was written to.
pub proof fn law_metadata_read_back(
    backup_id: Seq<char>,
    label: Option<Seq<char>>,
    created_at: Seq<char>,
    install: InstallView,
    root: Seq<char>,
    homes: Seq<HomeView>,
    found: bool,
    size: u64,
    user_home: Option<Seq<char>>,
)
    ensures
        ({
            let meta = with_archive(
                metadata(backup_id, label, created_at, install, root, homes),
                found,
                size,
            );
            &&& meta.str_at("backup_id"@) == Some(backup_id)
            &&& meta.str_at("archive_path"@) == Some(archive_path(root, backup_id))
            &&& targets_of(meta, user_home) matches Ok(targets) && targets == homes.map(
                |i: int, h: HomeView|
                    Ok::<TargetView, Seq<char>>(
                        TargetView {
                            source: home_expanded(h.path, user_home),
                            entry: entry_in_archive(h.path, i),
                        },
                    ),
            )
        }),
{
    let plain = metadata(backup_id, label, created_at, install, root, homes);
    let first = plain.with("archive_exists"@, JsonView::Bool(found));
    let shown = nat_value(
        if found {
            size
        } else {
            0
        },
    );
    lemma_metadata(backup_id, label, created_at, install, root, homes);
    reveal_strlit("backup_id");
    reveal_strlit("archive_path");
    reveal_strlit("homes");
    reveal_strlit("archive_exists");
    reveal_strlit("archive_size_bytes");
    assert("backup_id"@.len() == 9);
    assert("archive_path"@.len() == 12);
    assert("homes"@.len() == 5);
    assert("archive_exists"@.len() == 14);
    assert("archive_size_bytes"@.len() == 18);
    law_entry_read_back(plain, "archive_exists"@, JsonView::Bool(found), "backup_id"@);
    law_entry_read_back(plain, "archive_exists"@, JsonView::Bool(found), "archive_path"@);
    law_entry_read_back(plain, "archive_exists"@, JsonView::Bool(found), "homes"@);
    law_entry_read_back(first, "archive_size_bytes"@, shown, "backup_id"@);
    law_entry_read_back(first, "archive_size_bytes"@, shown, "archive_path"@);
    law_entry_read_back(first, "archive_size_bytes"@, shown, "homes"@);
    let meta = with_archive(plain, found, size);
    let targets = targets_of(meta, user_home)->Ok_0;
    assert forall|i: int| 0 <= i < homes.len() implies #[trigger] targets[i] == Ok::<
        TargetView,
        Seq<char>,
    >(
        TargetView {
            source: home_expanded(homes[i].path, user_home),
            entry: entry_in_archive(homes[i].path, i),
        },
    ) by {
        lemma_home_meta(homes[i], i, user_home);
    }
    assert(targets.len() == homes.len());
}

/// Different homes stand in different places of the archive, also where they have the
/// same name.
pub proof fn law_entries_differ(p: Seq<char>, i: int, q: Seq<char>, j: int)
    requires
        0 <= i,
        0 <= j,
        i != j,
    ensures
        entry_in_archive(p, i) != entry_in_archive(q, j),
{
    let a = entry_in_archive(p, i);
    let b = entry_in_archive(q, j);
    let di = dec(i as nat);
    let dj = dec(j as nat);
    let m = di.len() as int;
    let n = dj.len() as int;
    lemma_dec(i as nat);
    lemma_dec(j as nat);
    reveal_strlit("homes/");
    reveal_strlit("/");
    assert(!is_digit('/'));
    if a == b {
        assert(a.subrange(6, 6 + m) =~= di);
        assert(b.subrange(6, 6 + n) =~= dj);
        assert(a[6 + m] == '/');
        assert(b[6 + n] == '/');
        if m < n {
            assert(b[6 + m] == dj[m]);
            assert(is_digit(dj[m]));
        } else if n < m {
            assert(a[6 + n] == di[n]);
            assert(is_digit(di[n]));
        }
        assert(di == dj);
    }
}

/// One step of a restore, and what it does to what stands under each name.
pub open spec fn stepped<T>(fs: Map<Seq<char>, T>, r: RestoreView, now_secs: i64) -> (
    Map<Seq<char>, T>,
    RestoreView,
) {
    if r.failure is Some || r.index >= r.targets.len() || r.targets[r.index] is Err {
        (fs, r)
    } else {
        let t = r.targets[r.index]->Ok_0;
        let content = content_path(r, t);
        match r.stage {
            RestoreStage::FindContent => (
                fs,
                after_step(
                    r,
                    RestoreEvent::Found { there: fs.contains_key(content), now_secs },
                ),
            ),
            RestoreStage::FindSource => (
                fs,
                after_step(
                    r,
                    RestoreEvent::Found { there: fs.contains_key(t.source), now_secs },
                ),
            ),
            RestoreStage::MoveAside => (
                renamed(fs, t.source, r.aside),
                after_step(r, RestoreEvent::Renamed),
            ),
            RestoreStage::PutInPlace => (
                renamed(fs, content, t.source),
                after_step(r, RestoreEvent::Renamed),
            ),
        }
    }
}

/// The first `n` steps of a restore; `clock` tells the time at each of them.
pub open spec fn steps_done<T>(
    fs: Map<Seq<char>, T>,
    r: RestoreView,
    clock: spec_fn(nat) -> i64,
    n: nat,
) -> (Map<Seq<char>, T>, RestoreView)
    decreases n,
{
    if n == 0 {
        (fs, r)
    } else {
        let (f, q) = steps_done(fs, r, clock, (n - 1) as nat);
        stepped(f, q, clock((n - 1) as nat))
    }
}

/// What [`stepped`] does is what the next step asks for: a look is answered by what
/// stands under the name, and a rename is made.
pub proof fn law_step_is_the_next<T>(
    fs: Map<Seq<char>, T>,
    r: RestoreView,
    step: RestoreStep,
    now_secs: i64,
)
    requires
        is_next(r, step),
    ensures
        match step {
            RestoreStep::Look { path } => stepped(fs, r, now_secs) == (
                fs,
                after_step(r, RestoreEvent::Found { there: fs.contains_key(path@), now_secs }),
            ),
            RestoreStep::Rename { from, to } => stepped(fs, r, now_secs) == (
                renamed(fs, from@, to@),
                after_step(r, RestoreEvent::Renamed),
            ),
            RestoreStep::Finish => stepped(fs, r, now_secs) == (fs, r),
            RestoreStep::Fail { message } => stepped(fs, r, now_secs) == (fs, r),
        },
{
}

/// Where the home at position `i` goes.
pub open spec fn source_at(r: RestoreView, i: int) -> Seq<char> {
    r.targets[i]->Ok_0.source
}

/// Where what the archive holds of the home at position `i` was unpacked.
pub open spec fn content_at(r: RestoreView, i: int) -> Seq<char> {
    content_path(r, r.targets[i]->Ok_0)
}

/// The name under which the home at position `i` is kept aside at the step `n`.
pub open spec fn aside_at(r: RestoreView, clock: spec_fn(nat) -> i64, i: int, n: nat) -> Seq<char> {
    aside_path(source_at(r, i), clock(n) as int)
}

/// Whether there is a home at position `i`.
pub open spec fn is_home(r: RestoreView, i: int) -> bool {
    0 <= i < r.targets.len() && r.targets[i] is Ok
}

/// Whether the restore can come to the step `n`: it takes four for each home at most.
pub open spec fn in_run(r: RestoreView, n: nat) -> bool {
    n < 4 * r.targets.len()
}

/// Whether no home is in the way of another one: no two go to the same place, none goes,
/// or is kept aside during the restore, where what was unpacked for it or for a later one
/// stands, and none is kept aside where it goes itself, or where an earlier one went.
pub open spec fn way_is_free(r: RestoreView, clock: spec_fn(nat) -> i64) -> bool {
    &&& forall|i: int, j: int|
        is_home(r, i) && is_home(r, j) && i < j ==> #[trigger] source_at(r, i)
            != #[trigger] source_at(r, j)
    &&& forall|i: int, j: int|
        is_home(r, i) && is_home(r, j) && i <= j ==> #[trigger] source_at(r, i)
            != #[trigger] content_at(r, j)
    &&& forall|i: int, j: int, n: nat|
        is_home(r, i) && is_home(r, j) && j <= i && in_run(r, n) ==> #[trigger] aside_at(
            r,
            clock,
            i,
            n,
        ) != #[trigger] source_at(r, j)
    &&& forall|i: int, j: int, n: nat|
        is_home(r, i) && is_home(r, j) && i <= j && in_run(r, n) ==> #[trigger] aside_at(
            r,
            clock,
            i,
            n,
        ) != #[trigger] content_at(r, j)
}

/// Whether the homes go to different places, no two are kept aside under the same name
/// during the restore, and neither a home nor such a name is a place of what was
/// unpacked, nor such a name a place that a home goes to.
pub open spec fn homes_apart(r: RestoreView, clock: spec_fn(nat) -> i64) -> bool {
    &&& forall|i: int, j: int|
        is_home(r, i) && is_home(r, j) && i != j ==> #[trigger] source_at(r, i)
            != #[trigger] source_at(r, j)
    &&& forall|i: int, j: int|
        is_home(r, i) && is_home(r, j) ==> #[trigger] source_at(r, i) != #[trigger] content_at(r, j)
    &&& forall|i: int, j: int, n: nat|
        is_home(r, i) && is_home(r, j) && in_run(r, n) ==> #[trigger] aside_at(r, clock, i, n)
            != #[trigger] source_at(r, j)
    &&& forall|i: int, j: int, n: nat|
        is_home(r, i) && is_home(r, j) && in_run(r, n) ==> #[trigger] aside_at(r, clock, i, n)
            != #[trigger] content_at(r, j)
    &&& forall|i: int, j: int, m: nat, n: nat|
        is_home(r, i) && is_home(r, j) && i != j && in_run(r, m) && in_run(r, n)
            ==> #[trigger] aside_at(r, clock, i, m) != #[trigger] aside_at(r, clock, j, n)
}

/// Whether the first `k` homes hold what was unpacked, and the others can still be
/// restored.
spec fn restored_up_to<T>(
    start: Map<Seq<char>, T>,
    r: RestoreView,
    fs: Map<Seq<char>, T>,
    q: RestoreView,
    k: int,
) -> bool {
    &&& q.targets == r.targets
    &&& q.unpacked == r.unpacked
    &&& q.index == k
    &&& q.stage is FindContent
    &&& q.failure is None
    &&& forall|i: int|
        0 <= i < k ==> fs.contains_key(#[trigger] source_at(r, i)) && fs[source_at(r, i)]
            == start[content_at(r, i)]
    &&& forall|i: int|
        k <= i < r.targets.len() ==> fs.contains_key(#[trigger] content_at(r, i))
            && fs[content_at(r, i)] == start[content_at(r, i)]
}

proof fn lemma_restored_up_to<T>(
    start: Map<Seq<char>, T>,
    r: RestoreView,
    clock: spec_fn(nat) -> i64,
    k: int,
) -> (n: nat)
    requires
        restored_up_to(start, r, start, r, 0),
        forall|i: int| 0 <= i < r.targets.len() ==> (#[trigger] r.targets[i]) is Ok,
        forall|i: int, j: int|
            0 <= i < j < r.targets.len() ==> #[trigger] content_at(r, i) != #[trigger] content_at(
                r,
                j,
            ),
        way_is_free(r, clock),
        0 <= k <= r.targets.len(),
    ensures
        n <= 4 * k,
        restored_up_to(
            start,
            r,
            steps_done(start, r, clock, n).0,
            steps_done(start, r, clock, n).1,
            k,
        ),
    decreases k,
{
    if k == 0 {
        0
    } else {
        let h = k - 1;
        let n0 = lemma_restored_up_to(start, r, clock, h);
        let (f0, q0) = steps_done(start, r, clock, n0);
        let source = source_at(r, h);
        let content = content_at(r, h);
        assert(r.targets[h] is Ok);
        assert(content_path(q0, q0.targets[h]->Ok_0) == content);
        let (f1, q1) = steps_done(start, r, clock, n0 + 1);
        assert((f1, q1) == stepped(f0, q0, clock(n0)));
        assert(f1 == f0 && q1.stage is FindSource);
        let (f2, q2) = steps_done(start, r, clock, n0 + 2);
        assert((f2, q2) == stepped(f1, q1, clock(n0 + 1)));
        assert(f2 == f0);
        if f0.contains_key(source) {
            let aside = aside_at(r, clock, h, n0 + 1);
            assert(in_run(r, n0 + 1));
            let (f3, q3) = steps_done(start, r, clock, n0 + 3);
            assert((f3, q3) == stepped(f2, q2, clock(n0 + 2)));
            assert(f3 == renamed(f0, source, aside));
            let (f4, q4) = steps_done(start, r, clock, n0 + 4);
            assert((f4, q4) == stepped(f3, q3, clock(n0 + 3)));
            assert(aside != content && aside != source && source != content);
            assert(f4 == renamed(f3, content, source));
            assert forall|i: int| 0 <= i < k implies f4.contains_key(#[trigger] source_at(r, i))
                && f4[source_at(r, i)] == start[content_at(r, i)] by {
                if i < h {
                    assert(source_at(r, i) != source);
                    assert(r.targets[i] is Ok);
                    assert(aside_at(r, clock, h, n0 + 1) != source_at(r, i));
                    assert(source_at(r, i) != content_at(r, h));
                }
            }
            assert forall|i: int| k <= i < r.targets.len() implies f4.contains_key(
                #[trigger] content_at(r, i),
            ) && f4[content_at(r, i)] == start[content_at(r, i)] by {
                assert(content_at(r, h) != content_at(r, i));
                assert(source_at(r, h) != content_at(r, i));
                assert(r.targets[i] is Ok);
                assert(aside_at(r, clock, h, n0 + 1) != content_at(r, i));
            }
            n0 + 4
        } else {
            let (f3, q3) = steps_done(start, r, clock, n0 + 3);
            assert((f3, q3) == stepped(f2, q2, clock(n0 + 2)));
            assert(source != content);
            assert(f3 == renamed(f0, content, source));
            assert forall|i: int| 0 <= i < k implies f3.contains_key(#[trigger] source_at(r, i))
                && f3[source_at(r, i)] == start[content_at(r, i)] by {
                assert(r.targets[i] is Ok);
                if i < h {
                    assert(source_at(r, i) != source);
                    assert(source_at(r, i) != content_at(r, h));
                }
            }
            assert forall|i: int| k <= i < r.targets.len() implies f3.contains_key(
                #[trigger] content_at(r, i),
            ) && f3[content_at(r, i)] == start[content_at(r, i)] by {
                assert(r.targets[i] is Ok);
                assert(content_at(r, h) != content_at(r, i));
                assert(source_at(r, h) != content_at(r, i));
            }
            n0 + 3
        }
    }
}

/// The number of steps that a home has behind it, of the four that it takes at most.
spec fn steps_behind(stage: RestoreStage) -> int {
    match stage {
        RestoreStage::FindContent => 0,
        RestoreStage::FindSource => 1,
        RestoreStage::MoveAside => 2,
        RestoreStage::PutInPlace => 3,
    }
}

/// Whether a restore does nothing more.
spec fn settled(r: RestoreView) -> bool {
    r.failure is Some || r.index >= r.targets.len() || r.targets[r.index] is Err
}

/// Whether a restore is past the point where the home at position `i` was kept aside,
/// if it was there.
spec fn is_past(q: RestoreView, i: int) -> bool {
    i < q.index || (i == q.index && q.stage is PutInPlace)
}

/// Whether a name is one under which the home at position `i` is kept aside.
spec fn is_aside(r: RestoreView, clock: spec_fn(nat) -> i64, i: int, name: Seq<char>) -> bool {
    exists|n: nat| in_run(r, n) && name == #[trigger] aside_at(r, clock, i, n)
}

/// Whether the home at position `i` is the one that was moved.
spec fn is_moved(
    r: RestoreView,
    clock: spec_fn(nat) -> i64,
    m: (Seq<char>, Seq<char>),
    i: int,
) -> bool {
    is_home(r, i) && m.0 == source_at(r, i) && is_aside(r, clock, i, m.1)
}

/// Whether what was moved is a home that the restore is past.
spec fn is_left(
    r: RestoreView,
    clock: spec_fn(nat) -> i64,
    q: RestoreView,
    m: (Seq<char>, Seq<char>),
) -> bool {
    exists|i: int| is_past(q, i) && is_moved(r, clock, m, i)
}

/// What holds of every step of a restore: what was kept aside is what stood in the place
/// of the homes that it is past, and the other homes are as they were.
spec fn on_the_way<T>(
    start: Map<Seq<char>, T>,
    r: RestoreView,
    clock: spec_fn(nat) -> i64,
    n: nat,
    fs: Map<Seq<char>, T>,
    q: RestoreView,
) -> bool {
    &&& q.targets == r.targets
    &&& q.unpacked == r.unpacked
    &&& 0 <= q.index <= r.targets.len()
    &&& settled(q) || n <= 4 * q.index + steps_behind(q.stage)
    &&& q.stage is MoveAside ==> fs.contains_key(source_at(r, q.index)) && is_aside(
        r,
        clock,
        q.index,
        q.aside,
    )
    &&& names_differ(q.moved)
    &&& kept_aside(start, fs, q.moved)
    &&& forall|k: int| 0 <= k < q.moved.len() ==> is_left(r, clock, q, #[trigger] q.moved[k])
    &&& forall|i: int|
        is_home(r, i) && !is_past(q, i) ==> fs.contains_key(#[trigger] source_at(r, i))
            == start.contains_key(source_at(r, i)) && (start.contains_key(source_at(r, i))
            ==> fs[source_at(r, i)] == start[source_at(r, i)])
    &&& forall|i: int|
        is_home(r, i) && is_past(q, i) && start.contains_key(#[trigger] source_at(r, i))
            ==> exists|k: int|
            0 <= k < q.moved.len() && (#[trigger] q.moved[k]).0 == source_at(r, i)
}

proof fn lemma_moved_apart(
    r: RestoreView,
    clock: spec_fn(nat) -> i64,
    m: (Seq<char>, Seq<char>),
    i: int,
    j: int,
)
    requires
        homes_apart(r, clock),
        is_moved(r, clock, m, i),
        is_home(r, j),
    ensures
        m.1 != source_at(r, j),
        m.1 != content_at(r, j),
        i != j ==> m.0 != source_at(r, j),
        forall|name: Seq<char>|
            i != j && #[trigger] is_aside(r, clock, j, name) ==> m.1 != name && m.0 != name,
{
    let n = choose|n: nat| in_run(r, n) && m.1 == #[trigger] aside_at(r, clock, i, n);
    assert(m.1 == aside_at(r, clock, i, n));
    assert forall|name: Seq<char>| i != j && #[trigger] is_aside(r, clock, j, name) implies m.1
        != name && m.0 != name by {
        let o = choose|o: nat| in_run(r, o) && name == #[trigger] aside_at(r, clock, j, o);
        assert(aside_at(r, clock, i, n) != aside_at(r, clock, j, o));
        assert(aside_at(r, clock, j, o) != source_at(r, i));
    }
}

proof fn lemma_on_the_way<T>(
    start: Map<Seq<char>, T>,
    r: RestoreView,
    clock: spec_fn(nat) -> i64,
    n: nat,
    fs: Map<Seq<char>, T>,
    q: RestoreView,
)
    requires
        homes_apart(r, clock),
        on_the_way(start, r, clock, n, fs, q),
    ensures
        ({
            let (fs1, q1) = stepped(fs, q, clock(n));
            on_the_way(start, r, clock, n + 1, fs1, q1)
        }),
{
    let (fs1, q1) = stepped(fs, q, clock(n));
    if !settled(q) {
        let h = q.index;
        let source = source_at(r, h);
        let content = content_at(r, h);
        assert(is_home(r, h));
        assert(content_path(q, q.targets[h]->Ok_0) == content);
        assert forall|k: int| 0 <= k < q.moved.len() implies (#[trigger] q.moved[k]).1 != source
            && q.moved[k].1 != content by {
            let i = choose|i: int| is_past(q, i) && is_moved(r, clock, q.moved[k], i);
            lemma_moved_apart(r, clock, q.moved[k], i, h);
        }
        assert forall|k: int| 0 <= k < q.moved.len() implies q1.moved[k] == q.moved[k] && is_left(
            r,
            clock,
            q1,
            #[trigger] q1.moved[k],
        ) by {
            assert(is_left(r, clock, q, q.moved[k]));
            let i = choose|i: int| is_past(q, i) && is_moved(r, clock, q.moved[k], i);
            assert(is_past(q1, i) && is_moved(r, clock, q1.moved[k], i));
        }
        match q.stage {
            RestoreStage::FindContent => {},
            RestoreStage::FindSource => {
                if fs.contains_key(source) {
                    assert(in_run(r, n));
                    assert(q1.aside == aside_at(r, clock, h, n));
                }
            },
            RestoreStage::MoveAside => {
                assert forall|k: int| 0 <= k < q.moved.len() implies (#[trigger] q.moved[k]).1
                    != q.aside && q.moved[k].0 != q.aside && q.moved[k].0 != source by {
                    let i = choose|i: int| is_past(q, i) && is_moved(r, clock, q.moved[k], i);
                    lemma_moved_apart(r, clock, q.moved[k], i, h);
                }
                let m = (source, q.aside);
                assert(is_moved(r, clock, m, h));
                lemma_moved_apart(r, clock, m, h, h);
                law_steps_keep_aside(start, fs, q.moved, source, q.aside, content);
                assert(q1.moved == q.moved.push(m));
                assert(is_past(q1, h) && is_moved(r, clock, m, h));
                assert forall|i: int| is_home(r, i) && !is_past(q1, i) implies fs1.contains_key(
                    #[trigger] source_at(r, i),
                ) == start.contains_key(source_at(r, i)) && (start.contains_key(source_at(r, i))
                    ==> fs1[source_at(r, i)] == start[source_at(r, i)]) by {
                    lemma_moved_apart(r, clock, m, h, i);
                }
                assert forall|i: int|
                    is_home(r, i) && is_past(q1, i) && start.contains_key(
                        #[trigger] source_at(r, i),
                    ) implies exists|k: int|
                    0 <= k < q1.moved.len() && (#[trigger] q1.moved[k]).0 == source_at(r, i) by {
                    if i == h {
                        assert(q1.moved[q.moved.len() as int].0 == source_at(r, i));
                    } else {
                        let k = choose|k: int|
                            0 <= k < q.moved.len() && (#[trigger] q.moved[k]).0 == source_at(r, i);
                        assert(q1.moved[k].0 == source_at(r, i));
                    }
                }
            },
            RestoreStage::PutInPlace => {},
        }
    }
}

/// A restore that fails is undone: whatever step it has come to, and whatever then fails,
/// after the homes kept aside went back every home that stood in its place before stands
/// there again, with what it held; and nothing is left under the names that they had
/// meanwhile.
pub proof fn law_failed_restore_undone<T>(
    start: Map<Seq<char>, T>,
    r: RestoreView,
    clock: spec_fn(nat) -> i64,
    n: nat,
    error: String,
)
    requires
        r.index == 0,
        r.stage is FindContent,
        r.moved.len() == 0,
        homes_apart(r, clock),
    ensures
        ({
            let (fs, q) = steps_done(start, r, clock, n);
            let failed = after_step(q, RestoreEvent::Failed { error });
            let back = rolled_back(fs, failed.moved);
            &&& failed.moved == q.moved
            &&& forall|i: int|
                is_home(r, i) && start.contains_key(#[trigger] source_at(r, i))
                    ==> back.contains_key(source_at(r, i)) && back[source_at(r, i)]
                    == start[source_at(r, i)]
            &&& forall|k: int|
                0 <= k < q.moved.len() ==> !back.contains_key((#[trigger] q.moved[k]).1)
        }),
{
    let (fs, q) = steps_done(start, r, clock, n);
    let back = rolled_back(fs, q.moved);
    lemma_steps_on_the_way(start, r, clock, n);
    assert forall|i: int| is_home(r, i) && start.contains_key(#[trigger] source_at(r, i)) implies
        back.contains_key(source_at(r, i)) && back[source_at(r, i)] == start[source_at(r, i)] by {
        if is_past(q, i) {
            let k = choose|k: int|
                0 <= k < q.moved.len() && (#[trigger] q.moved[k]).0 == source_at(r, i);
            law_rollback_restores(start, fs, q.moved, k);
        } else {
            assert forall|k: int| 0 <= k < q.moved.len() implies (#[trigger] q.moved[k]).0
                != source_at(r, i) && q.moved[k].1 != source_at(r, i) by {
                let j = choose|j: int| is_past(q, j) && is_moved(r, clock, q.moved[k], j);
                lemma_moved_apart(r, clock, q.moved[k], j, i);
            }
            lemma_untouched(fs, q.moved, source_at(r, i));
        }
    }
    assert forall|k: int| 0 <= k < q.moved.len() implies !back.contains_key(
        (#[trigger] q.moved[k]).1,
    ) by {
        law_rollback_restores(start, fs, q.moved, k);
    }
}

proof fn lemma_steps_on_the_way<T>(
    start: Map<Seq<char>, T>,
    r: RestoreView,
    clock: spec_fn(nat) -> i64,
    n: nat,
)
    requires
        r.index == 0,
        r.stage is FindContent,
        r.moved.len() == 0,
        homes_apart(r, clock),
    ensures
        on_the_way(
            start,
            r,
            clock,
            n,
            steps_done(start, r, clock, n).0,
            steps_done(start, r, clock, n).1,
        ),
    decreases n,
{
    if n > 0 {
        let m = (n - 1) as nat;
        lemma_steps_on_the_way(start, r, clock, m);
        let (fs, q) = steps_done(start, r, clock, m);
        lemma_on_the_way(start, r, clock, m, fs, q);
    }
}

/// Whether a restore is finished after `n` steps, with every home of the backup in its
/// place, holding what was saved of it.
pub open spec fn puts_back<T>(
    start: Map<Seq<char>, T>,
    r: RestoreView,
    clock: spec_fn(nat) -> i64,
    n: nat,
    saved: Seq<T>,
) -> bool {
    let (fs, q) = steps_done(start, r, clock, n);
    &&& q.failure is None
    &&& q.index == q.targets.len()
    &&& q.targets == r.targets
    &&& forall|i: int|
        0 <= i < saved.len() ==> fs.contains_key(#[trigger] source_at(r, i)) && fs[source_at(
            r,
            i,
        )] == saved[i]
}

/// A restore gives back what a backup has written. The backup writes each home to its
/// place in the archive, and its metadata are what the restore begins with; so where the
/// archive was unpacked, and the way is free, the restore ends without a failure after
/// four steps for each home at most, and every home holds again what was saved of it,
/// also where two of them have the same name.
pub proof fn law_backup_is_restored<T>(
    backup_id: Seq<char>,
    label: Option<Seq<char>>,
    created_at: Seq<char>,
    install: InstallView,
    root: Seq<char>,
    homes: Seq<HomeView>,
    found: bool,
    size: u64,
    user_home: Option<Seq<char>>,
    unpacked: Seq<char>,
    saved: Seq<T>,
    start: Map<Seq<char>, T>,
    clock: spec_fn(nat) -> i64,
)
    requires
        saved.len() == homes.len(),
        forall|i: int|
            0 <= i < homes.len() ==> {
                let place = joined_path(
                    unpacked,
                    entry_in_archive((#[trigger] homes[i]).path, i),
                );
                start.contains_key(place) && start[place] == saved[i]
            },
        way_is_free(
            restore_of(
                with_archive(
                    metadata(backup_id, label, created_at, install, root, homes),
                    found,
                    size,
                ),
                unpacked,
                user_home,
            ),
            clock,
        ),
    ensures
        ({
            let meta = with_archive(
                metadata(backup_id, label, created_at, install, root, homes),
                found,
                size,
            );
            let r = restore_of(meta, unpacked, user_home);
            &&& targets_of(meta, user_home) is Ok
            &&& r.targets.len() == homes.len()
            &&& forall|i: int|
                0 <= i < homes.len() ==> source_at(r, i) == home_expanded(
                    (#[trigger] homes[i]).path,
                    user_home,
                )
            &&& exists|n: nat| n <= 4 * homes.len() && #[trigger] puts_back(start, r, clock, n, saved)
        }),
{
    let meta = with_archive(
        metadata(backup_id, label, created_at, install, root, homes),
        found,
        size,
    );
    let r = restore_of(meta, unpacked, user_home);
    law_metadata_read_back(
        backup_id,
        label,
        created_at,
        install,
        root,
        homes,
        found,
        size,
        user_home,
    );
    assert forall|i: int| 0 <= i < homes.len() implies (#[trigger] r.targets[i]) is Ok
        && content_at(r, i) == joined_path(unpacked, entry_in_archive(homes[i].path, i))
        && source_at(r, i) == home_expanded(homes[i].path, user_home) by {}
    assert forall|i: int, j: int| 0 <= i < j < r.targets.len() implies #[trigger] content_at(r, i)
        != #[trigger] content_at(r, j) by {
        assert(r.targets[i] is Ok && r.targets[j] is Ok);
        law_entries_differ(homes[i].path, i, homes[j].path, j);
        reveal_strlit("homes/");
        assert("homes/"@[0] == 'h');
        assert(entry_in_archive(homes[i].path, i)[0] == 'h');
        assert(entry_in_archive(homes[j].path, j)[0] == 'h');
        lemma_joined_differ(
            unpacked,
            entry_in_archive(homes[i].path, i),
            entry_in_archive(homes[j].path, j),
        );
    }
    assert forall|i: int| 0 <= i < r.targets.len() implies start.contains_key(
        #[trigger] content_at(r, i),
    ) by {
        assert(r.targets[i] is Ok);
        assert(content_at(r, i) == joined_path(unpacked, entry_in_archive(homes[i].path, i)));
    }
    let n = lemma_restored_up_to(start, r, clock, homes.len() as int);
    assert forall|i: int| 0 <= i < saved.len() implies start[#[trigger] content_at(r, i)]
        == saved[i] by {
        assert(r.targets[i] is Ok);
        assert(content_at(r, i) == joined_path(unpacked, entry_in_archive(homes[i].path, i)));
    }
    assert(puts_back(start, r, clock, n, saved)) by {
        let fs = steps_done(start, r, clock, n).0;
        assert forall|i: int| 0 <= i < saved.len() implies fs.contains_key(
            #[trigger] source_at(r, i),
        ) && fs[source_at(r, i)] == saved[i] by {
            assert(start[content_at(r, i)] == saved[i]);
        }
    }
}

proof fn lemma_joined_differ(base: Seq<char>, a: Seq<char>, b: Seq<char>)
    requires
        a != b,
        a.len() > 0,
        b.len() > 0,
        a[0] != '/',
        b[0] != '/',
    ensures
        joined_path(base, a) != joined_path(base, b),
{
    let x = joined_path(base, a);
    let y = joined_path(base, b);
    let k = if base.len() == 0 || base.last() == '/' {
        base.len() as int
    } else {
        base.len() as int + 1
    };
    assert(x.skip(k) =~= a);
    assert(y.skip(k) =~= b);
}

/// The report on a restore tells the backup, what came of stopping and starting, and each home
/// that was kept aside, with both of its names; and the event log calls it restored exactly
/// where the instances came up.
pub proof fn law_restore_told(
    backup_id: Seq<char>,
    stops: Seq<JsonView>,
    moved: Seq<(Seq<char>, Seq<char>)>,
    starts: Seq<JsonView>,
    health_ok: bool,
)
    ensures
        ({
            let told = restore_report(backup_id, stops, moved_report(moved), starts, health_ok);
            &&& told.get("backup_id"@) == Some(JsonView::Str(backup_id))
            &&& told.get("stop_results"@) == Some(JsonView::Array(stops))
            &&& told.get("start_results"@) == Some(JsonView::Array(starts))
            &&& told.get("health_ok"@) == Some(JsonView::Bool(health_ok))
            &&& told.get("restore"@) matches Some(r) && r.get("moved_paths"@) matches Some(
                JsonView::Array(all),
            ) && all.len() == moved.len() && forall|i: int|
                0 <= i < all.len() ==> (#[trigger] all[i]).get("source_path"@) == Some(
                    JsonView::Str(moved[i].0),
                ) && all[i].get("moved_path"@) == Some(JsonView::Str(moved[i].1))
        }),
        restore_event(backup_id, health_ok).event_type == if health_ok {
            "backup_restored"@
        } else {
            "backup_restore_failed"@
        },
        restore_event(backup_id, health_ok).message == "已恢复备份 "@ + backup_id,
        restore_event(backup_id, health_ok).instance_name is None,
{
    let entries = restore_report(
        backup_id,
        stops,
        moved_report(moved),
        starts,
        health_ok,
    )->Object_0;
    let parts = moved_report(moved)->Object_0;
    reveal_strlit("source_path");
    assert("source_path"@.len() == 11);
    reveal_strlit("moved_path");
    assert("moved_path"@.len() == 10);
    reveal_strlit("backup_id");
    assert("backup_id"@.len() == 9);
    reveal_strlit("stop_results");
    assert("stop_results"@.len() == 12);
    reveal_strlit("restore");
    assert("restore"@.len() == 7);
    reveal_strlit("start_results");
    assert("start_results"@.len() == 13);
    reveal_strlit("health_ok");
    assert("health_ok"@.len() == 9);
    reveal_strlit("moved_paths");
    assert("moved_paths"@.len() == 11);
    assert("backup_id"@[0] != "health_ok"@[0]);
    lemma_entry_value(entries, "backup_id"@, 0);
    lemma_entry_value(entries, "stop_results"@, 1);
    lemma_entry_value(entries, "restore"@, 2);
    lemma_entry_value(entries, "start_results"@, 3);
    lemma_entry_value(entries, "health_ok"@, 4);
    lemma_entry_value(parts, "moved_paths"@, 0);
    let all = moved.map_values(|m: (Seq<char>, Seq<char>)| moved_entry(m));
    assert forall|i: int| 0 <= i < all.len() implies (#[trigger] all[i]).get("source_path"@) == Some(
        JsonView::Str(moved[i].0),
    ) && all[i].get("moved_path"@) == Some(JsonView::Str(moved[i].1)) by {
        let one = moved_entry(moved[i])->Object_0;
        lemma_entry_value(one, "source_path"@, 0);
        lemma_entry_value(one, "moved_path"@, 1);
    }
}

/// A home is kept aside beside where it stood, under its own name with the time behind it.
pub proof fn law_kept_beside(dir: Seq<char>, name: Seq<char>, now_secs: int)
    requires
        is_plain_name(name),
        dir.len() > 0 && path_body(dir) == dir && dir.last() != '/',
    ensures
        aside_path(dir + "/"@ + name, now_secs) == dir + "/"@ + (name + ".pre-restore-"@ + dec_int(
            now_secs,
        )),
{
    law_path_parts(dir, name);
    reveal_strlit("/");
    let kept = name + ".pre-restore-"@ + dec_int(now_secs);
    assert(kept[0] == name[0]);
    assert(dir + seq!['/'] + kept =~= dir + "/"@ + kept);
}

/// A restore goes by the archive that the metadata names, and by the homes; each part that is
/// missing is named in the error.
pub proof fn law_missing_named(
    metadata: &Json,
    archive: Result<&str, String>,
    home: JsonView,
    user_home: Option<Seq<char>>,
    path: Seq<char>,
    entry: Seq<char>,
    id: &str,
    unknown: String,
    lost: String,
)
    requires
        call_ensures(archive_to_restore, (metadata,), archive),
        call_ensures(backup_not_found, (id,), unknown),
        call_ensures(archive_not_found, (id,), lost),
    ensures
        metadata@.get("archive_path"@) == Some(JsonView::Str(path)) ==> (archive matches Ok(a)
            && a@ == path),
        metadata@.get("archive_path"@) is None ==> (archive matches Err(e) && e@
            == "Missing archive_path"@),
        metadata@.get("homes"@) is None ==> targets_of(metadata@, user_home) == Err::<
            Seq<Result<TargetView, Seq<char>>>,
            Seq<char>,
        >("Backup homes metadata missing"@),
        home.get("source_path"@) is None ==> target_of(home, user_home) == Err::<
            TargetView,
            Seq<char>,
        >("Backup source_path missing"@),
        home.get("source_path"@) == Some(JsonView::Str(path)) && home.get("archive_path"@) is None
            ==> target_of(home, user_home) == Err::<TargetView, Seq<char>>(
            "Backup archive_path missing"@,
        ),
        home.get("source_path"@) == Some(JsonView::Str(path)) && home.get("archive_path"@) == Some(
            JsonView::Str(entry),
        ) && path.len() > 0 && path[0] == '/' ==> (target_of(home, user_home) matches Ok(t)
            && t.source == path && t.entry == entry),
        unknown@ == "Backup '"@ + id@ + "' not found"@,
        lost@ == "Backup archive not found: "@ + id@,
{
    reveal_strlit("~/");
    if path.len() > 0 && begins_with(path, "~/"@) {
        assert(path.subrange(0, 2)[0] == '~');
    }
}

/// Content that the archive does not hold ends the restore, and the error names it.
pub proof fn law_content_missing(r: RestoreView, now_secs: i64, t: TargetView)
    requires
        r.failure is None,
        r.index < r.targets.len(),
        r.targets[r.index] == Ok::<TargetView, Seq<char>>(t),
        r.stage is FindContent,
        r.unpacked.len() > 0 && r.unpacked.last() != '/',
        t.entry.len() > 0 && t.entry[0] != '/',
    ensures
        after_step(r, RestoreEvent::Found { there: false, now_secs }).failure == Some(
            "Backup content missing: "@ + (r.unpacked + "/"@ + t.entry),
        ),
        after_step(r, RestoreEvent::Found { there: false, now_secs }).moved == r.moved,
{
    reveal_strlit("/");
    assert(r.unpacked + seq!['/'] + t.entry =~= r.unpacked + "/"@ + t.entry);
}

} // verus!
