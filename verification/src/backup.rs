//! Backups of the home directories.

use vstd::prelude::*;
use vstd::string::*;

use crate::commands::{enabled_instances, enabled_of};
use crate::config::{AppConfig, InstanceConfig};
use crate::event_log::{agent_event, EventRecord};
use crate::install::{InstallInfo, InstallView};
use crate::json::{
    json_array, json_nat, json_opt_text, json_text, json_texts, json_views, law_entry_read_back,
    lemma_entry_value, nat_value, opt_json_view, opt_slice, opt_str_view, parse_json, parsed_json,
    text_array, text_or, text_or_null, value_or, Fields, Json, JsonView,
};
use crate::order::{is_newer, is_newest_first, newest_first, positions, sort_newest_first};
use crate::paths::{
    expand_home, extension, extension_of, file_name, file_name_of, home_expanded, is_plain_name,
    join_path, joined_path, law_extension,
};
use crate::seqs::{distinct, law_distinct, push_distinct};
use crate::text::{cat, cat3, dec, decimal, same, text_before, texts};

verus! {

// ---------------------------------------------------------------------------
// Homes
// ---------------------------------------------------------------------------

/// A home directory, with the instances that live in it.
pub struct HomeGroup {
    pub path: String,
    pub instances: Vec<String>,
}

/// What a [`HomeGroup`] stands for.
pub struct HomeView {
    pub path: Seq<char>,
    pub instances: Seq<Seq<char>>,
}

impl View for HomeGroup {
    type V = HomeView;

    open spec fn view(&self) -> HomeView {
        HomeView { path: self.path@, instances: texts(self.instances@) }
    }
}

/// The homes that a sequence of [`HomeGroup`] stands for.
pub open spec fn home_views(homes: Seq<HomeGroup>) -> Seq<HomeView> {
    homes.map_values(|h: HomeGroup| h@)
}

/// The directory that backups are kept in.
pub fn backup_root(config: &AppConfig, home: Option<&str>) -> (r: String)
    ensures
        r@ == home_expanded(config.operations.backup_dir@, opt_str_view(home)),
{
    expand_home(config.operations.backup_dir.as_str(), home)
}

/// The home directory of an instance.
pub open spec fn home_of(instance: InstanceConfig, home: Option<Seq<char>>) -> Seq<char> {
    home_expanded(instance.openclaw_home@, home)
}

/// The home directories of instances.
pub open spec fn home_paths(instances: Seq<InstanceConfig>, home: Option<Seq<char>>) -> Seq<Seq<char>> {
    instances.map_values(|i: InstanceConfig| home_of(i, home))
}

/// The names of the instances that live in a home directory.
pub open spec fn names_at(
    instances: Seq<InstanceConfig>,
    home: Option<Seq<char>>,
    path: Seq<char>,
) -> Seq<Seq<char>> {
    instances.filter(|i: InstanceConfig| home_of(i, home) == path).map_values(
        |i: InstanceConfig| i.name@,
    )
}

/// The home directories of the instances that are switched on, each once, in the
/// order in which they first appear, with the instances that live in them.
pub open spec fn homes_of(instances: Seq<InstanceConfig>, home: Option<Seq<char>>) -> Seq<HomeView> {
    let enabled = enabled_of(instances);
    distinct(home_paths(enabled, home)).map_values(
        |p: Seq<char>| HomeView { path: p, instances: names_at(enabled, home, p) },
    )
}

fn collect_names(instances: &Vec<InstanceConfig>, home: Option<&str>, path: &str) -> (r: Vec<String>)
    ensures
        texts(r@) == names_at(instances@, opt_str_view(home), path@),
{
    let ghost h = opt_str_view(home);
    let mut out: Vec<String> = Vec::new();
    let mut i: usize = 0;
    proof {
        reveal(Seq::filter);
        assert(instances@.take(0) =~= Seq::<InstanceConfig>::empty());
        assert(texts(out@) =~= names_at(Seq::<InstanceConfig>::empty(), h, path@));
    }
    while i < instances.len()
        invariant
            i <= instances@.len(),
            h == opt_str_view(home),
            texts(out@) == names_at(instances@.take(i as int), h, path@),
        decreases instances@.len() - i,
    {
        let ghost before = instances@.take(i as int).filter(
            |i: InstanceConfig| home_of(i, h) == path@,
        );
        let ghost out_before = texts(out@);
        proof {
            reveal(Seq::filter);
            assert(instances@.take(i + 1).drop_last() =~= instances@.take(i as int));
            assert(instances@.take(i + 1).last() == instances@[i as int]);
        }
        let own = expand_home(instances[i].openclaw_home.as_str(), home);
        if same(own.as_str(), path) {
            out.push(instances[i].name.clone());
            proof {
                assert(texts(out@) =~= out_before.push(instances@[i as int].name@));
                assert(before.push(instances@[i as int]).map_values(|i: InstanceConfig| i.name@)
                    =~= out_before.push(instances@[i as int].name@));
            }
        }
        i = i + 1;
    }
    assert(instances@.take(i as int) =~= instances@);
    out
}

/// The home directories of the instances that are switched on.
pub fn unique_homes(config: &AppConfig, home: Option<&str>) -> (r: Vec<HomeGroup>)
    ensures
        home_views(r@) == homes_of(config.instances@, opt_str_view(home)),
{
    let ghost h = opt_str_view(home);
    let enabled = enabled_instances(&config.instances);
    let ghost all = home_paths(enabled@, h);
    let mut paths: Vec<String> = Vec::new();
    let mut i: usize = 0;
    proof {
        assert(all.take(0) =~= Seq::<Seq<char>>::empty());
        assert(texts(paths@) =~= Seq::<Seq<char>>::empty());
    }
    while i < enabled.len()
        invariant
            i <= enabled@.len(),
            h == opt_str_view(home),
            all == home_paths(enabled@, h),
            texts(paths@) == distinct(all.take(i as int)),
        decreases enabled@.len() - i,
    {
        let own = expand_home(enabled[i].openclaw_home.as_str(), home);
        proof {
            assert(all.take(i + 1).drop_last() =~= all.take(i as int));
            assert(all.take(i + 1).last() == own@);
        }
        push_distinct(&mut paths, own.as_str());
        i = i + 1;
    }
    assert(all.take(i as int) =~= all);
    let ghost goal = homes_of(config.instances@, h);
    let mut out: Vec<HomeGroup> = Vec::new();
    let mut k: usize = 0;
    while k < paths.len()
        invariant
            k <= paths@.len(),
            h == opt_str_view(home),
            enabled@ == enabled_of(config.instances@),
            texts(paths@) == distinct(home_paths(enabled@, h)),
            goal == homes_of(config.instances@, h),
            out@.len() == k,
            forall|j: int| 0 <= j < k ==> (#[trigger] out@[j])@ == goal[j],
        decreases paths@.len() - k,
    {
        assert(texts(paths@)[k as int] == paths@[k as int]@);
        let names = collect_names(&enabled, home, paths[k].as_str());
        out.push(HomeGroup { path: paths[k].clone(), instances: names });
        k = k + 1;
    }
    assert(texts(paths@).len() == paths@.len());
    assert(home_views(out@) =~= goal);
    out
}

/// Whether the home at position `i` is there.
pub open spec fn is_there(present: Seq<bool>, i: int) -> bool {
    0 <= i < present.len() && present[i]
}

/// Whether the first `n` homes are there.
pub open spec fn all_there(present: Seq<bool>, n: nat) -> bool {
    forall|i: int| 0 <= i < n ==> is_there(present, i)
}

/// Whether the home at position `i` is the first that is not there.
pub open spec fn first_missing(present: Seq<bool>, n: nat, i: int) -> bool {
    &&& 0 <= i < n
    &&& !is_there(present, i)
    &&& forall|j: int| 0 <= j < i ==> is_there(present, j)
}

/// Checks that there is something to back up: a home at least, and all of them there.
pub fn check_backup_sources(homes: &Vec<HomeGroup>, present: &Vec<bool>) -> (r: Result<(), String>)
    ensures
        match r {
            Ok(_) => homes@.len() > 0 && all_there(present@, homes@.len()),
            Err(m) => if homes@.len() == 0 {
                m@ == "No enabled OpenClaw homes"@
            } else {
                exists|i: int| #[trigger]
                    first_missing(present@, homes@.len(), i) && m@ == "Backup source not found: "@
                        + homes@[i].path@
            },
        },
{
    if homes.len() == 0 {
        return Err("No enabled OpenClaw homes".to_owned());
    }
    let mut i: usize = 0;
    while i < homes.len()
        invariant
            homes@.len() > 0,
            i <= homes@.len(),
            forall|j: int| 0 <= j < i ==> is_there(present@, j),
        decreases homes@.len() - i,
    {
        if !(i < present.len() && present[i]) {
            assert(first_missing(present@, homes@.len(), i as int));
            return Err(cat("Backup source not found: ", homes[i].path.as_str()));
        }
        i = i + 1;
    }
    Ok(())
}

// ---------------------------------------------------------------------------
// Metadata
// ---------------------------------------------------------------------------

/// The file that holds the archive of a backup.
pub open spec fn archive_path(root: Seq<char>, backup_id: Seq<char>) -> Seq<char> {
    joined_path(root, backup_id + ".tar.gz"@)
}

/// The file that holds the metadata of a backup.
pub open spec fn metadata_path(root: Seq<char>, backup_id: Seq<char>) -> Seq<char> {
    joined_path(root, backup_id + ".json"@)
}

/// The file that holds the archive of a backup.
pub fn archive_file(root: &str, backup_id: &str) -> (r: String)
    ensures
        r@ == archive_path(root@, backup_id@),
{
    join_path(root, cat(backup_id, ".tar.gz").as_str())
}

/// The file that holds the metadata of a backup.
pub fn metadata_file(root: &str, backup_id: &str) -> (r: String)
    ensures
        r@ == metadata_path(root@, backup_id@),
{
    join_path(root, cat(backup_id, ".json").as_str())
}

/// The name of the last component of a path, or nothing.
pub open spec fn base_name(path: Seq<char>) -> Seq<char> {
    value_or(file_name_of(path), ""@)
}

/// Where the home at position `i` stands in the archive: under its position, so that
/// homes with the same name do not meet.
pub open spec fn entry_in_archive(path: Seq<char>, i: int) -> Seq<char> {
    "homes/"@ + dec(i as nat) + "/"@ + base_name(path)
}

/// Where the home at position `i` stands in the archive.
pub fn archive_entry(path: &str, i: usize) -> (r: String)
    ensures
        r@ == entry_in_archive(path@, i as int),
{
    let name = file_name(path);
    let mut entry = cat3("homes/", decimal(i as u64).as_str(), "/");
    entry.append(text_or(opt_slice(&name), ""));
    entry
}

/// What the metadata tell of the home at position `i`.
pub open spec fn home_meta(home: HomeView, i: int) -> JsonView {
    JsonView::Object(
        seq![
            ("source_path"@, JsonView::Str(home.path)),
            ("archive_path"@, JsonView::Str(entry_in_archive(home.path, i))),
            ("instances"@, text_array(home.instances)),
        ],
    )
}

/// What the metadata tell of the homes.
pub open spec fn homes_meta(homes: Seq<HomeView>) -> Seq<JsonView> {
    homes.map(|i: int, h: HomeView| home_meta(h, i))
}

/// The metadata of a backup.
pub open spec fn metadata(
    backup_id: Seq<char>,
    label: Option<Seq<char>>,
    created_at: Seq<char>,
    install: InstallView,
    root: Seq<char>,
    homes: Seq<HomeView>,
) -> JsonView {
    JsonView::Object(
        seq![
            ("backup_id"@, JsonView::Str(backup_id)),
            ("label"@, JsonView::Str(value_or(label, ""@))),
            ("created_at"@, JsonView::Str(created_at)),
            ("hostname"@, JsonView::Str(install.hostname)),
            ("openclaw_version"@, text_or_null(install.openclaw_version)),
            ("openclaw_version_full"@, text_or_null(install.version_full)),
            ("archive_path"@, JsonView::Str(archive_path(root, backup_id))),
            ("metadata_path"@, JsonView::Str(metadata_path(root, backup_id))),
            ("homes"@, JsonView::Array(homes_meta(homes))),
        ],
    )
}

fn meta_of_home(home: &HomeGroup, i: usize) -> (r: Json)
    ensures
        r@ == home_meta(home@, i as int),
{
    let place = archive_entry(home.path.as_str(), i);
    let mut f = Fields::new();
    f.put("source_path", json_text(home.path.as_str()));
    f.put("archive_path", Json::Str(place));
    f.put("instances", json_texts(&home.instances));
    assert(f@ == home_meta(home@, i as int)->Object_0);
    f.object()
}

/// The metadata of a backup.
pub fn backup_metadata(
    backup_id: &str,
    label: Option<&str>,
    created_at: &str,
    install: &InstallInfo,
    root: &str,
    homes: &Vec<HomeGroup>,
) -> (r: Json)
    ensures
        r@ == metadata(
            backup_id@,
            opt_str_view(label),
            created_at@,
            install@,
            root@,
            home_views(homes@),
        ),
{
    let mut metas: Vec<Json> = Vec::new();
    let mut i: usize = 0;
    while i < homes.len()
        invariant
            i <= homes@.len(),
            metas@.len() == i,
            forall|k: int|
                0 <= k < i ==> (#[trigger] metas@[k])@ == homes_meta(home_views(homes@))[k],
        decreases homes@.len() - i,
    {
        assert(home_views(homes@)[i as int] == homes@[i as int]@);
        metas.push(meta_of_home(&homes[i], i));
        i = i + 1;
    }
    assert(json_views(metas@) =~= homes_meta(home_views(homes@)));
    let mut f = Fields::new();
    f.put("backup_id", json_text(backup_id));
    f.put("label", json_text(text_or(label, "")));
    f.put("created_at", json_text(created_at));
    f.put("hostname", json_text(install.hostname.as_str()));
    f.put("openclaw_version", json_opt_text(opt_slice(&install.openclaw_version)));
    f.put("openclaw_version_full", json_opt_text(opt_slice(&install.version_full)));
    f.put("archive_path", Json::Str(archive_file(root, backup_id)));
    f.put("metadata_path", Json::Str(metadata_file(root, backup_id)));
    f.put("homes", json_array(metas));
    assert(f@ == metadata(
        backup_id@,
        opt_str_view(label),
        created_at@,
        install@,
        root@,
        home_views(homes@),
    )->Object_0);
    f.object()
}

/// The entry in the event log on a backup.
pub fn backup_created_event(backup_id: &str) -> (r: EventRecord)
    ensures
        r@ == agent_event("backup_created"@, "已创建备份 "@ + backup_id@),
{
    EventRecord::on_agent("backup_created", cat("已创建备份 ", backup_id))
}

// ---------------------------------------------------------------------------
// The list of backups
// ---------------------------------------------------------------------------

/// Whether a file holds the metadata of a backup, by its name.
pub fn is_metadata_file(path: &str) -> (r: bool)
    ensures
        r == (extension_of(path@) == Some("json"@)),
{
    match extension(path) {
        Some(e) => same(e.as_str(), "json"),
        None => false,
    }
}

/// The metadata that a text writes, if it writes any.
pub fn read_metadata(text: &str) -> (r: Option<Json>)
    ensures
        opt_json_view(r) == parsed_json(text@),
{
    parse_json(text)
}

/// The archive that metadata name, or nothing.
pub open spec fn named_archive(meta: JsonView) -> Seq<char> {
    value_or(meta.str_at("archive_path"@), ""@)
}

/// The archive that metadata name.
pub fn archive_of(meta: &Json) -> (r: &str)
    ensures
        r@ == named_archive(meta@),
{
    text_or(meta.str_at("archive_path"), "")
}

/// The metadata with what was found of the archive; without an archive its size is
/// zero.
pub open spec fn with_archive(meta: JsonView, exists_: bool, size: u64) -> JsonView {
    meta.with("archive_exists"@, JsonView::Bool(exists_)).with(
        "archive_size_bytes"@,
        nat_value(
            if exists_ {
                size
            } else {
                0
            },
        ),
    )
}

/// The metadata with what was found of the archive.
pub fn add_archive(meta: Json, exists_: bool, size: u64) -> (r: Json)
    ensures
        r@ == with_archive(meta@, exists_, size),
{
    let mut out = meta;
    out.set("archive_exists", Json::Bool(exists_));
    let found: u64 = if exists_ {
        size
    } else {
        0
    };
    out.set("archive_size_bytes", json_nat(found));
    out
}

/// The times at which backups were made.
pub open spec fn backup_times(items: Seq<JsonView>) -> Seq<Seq<char>> {
    items.map_values(|b: JsonView| value_or(b.str_at("created_at"@), ""@))
}

/// The backups from the newest to the oldest.
pub open spec fn backups_sorted(items: Seq<JsonView>) -> Seq<JsonView> {
    newest_first(backup_times(items)).map_values(|i: int| items[i])
}

/// The backups from the newest to the oldest.
pub fn list_backups(items: &Vec<Json>) -> (r: Vec<Json>)
    ensures
        json_views(r@) == backups_sorted(json_views(items@)),
        r@.len() == items@.len(),
        is_newest_first(
            newest_first(backup_times(json_views(items@))),
            backup_times(json_views(items@)),
        ),
{
    let ghost all = json_views(items@);
    let mut times: Vec<String> = Vec::new();
    let mut k: usize = 0;
    while k < items.len()
        invariant
            k <= items@.len(),
            all == json_views(items@),
            texts(times@) == backup_times(all).take(k as int),
        decreases items@.len() - k,
    {
        let ghost before = texts(times@);
        let time = text_or(items[k].str_at("created_at"), "");
        times.push(time.to_owned());
        proof {
            assert(all[k as int] == items@[k as int]@);
            assert(texts(times@) =~= before.push(time@));
            assert(backup_times(all).take(k + 1) =~= backup_times(all).take(k as int).push(time@));
        }
        k = k + 1;
    }
    assert(backup_times(all).take(k as int) =~= backup_times(all));
    let order = sort_newest_first(&times);
    let ghost goal = backups_sorted(all);
    assert(is_newest_first(positions(order@), backup_times(all)));
    assert(positions(order@).len() == order@.len());
    let mut out: Vec<Json> = Vec::new();
    let mut i: usize = 0;
    while i < order.len()
        invariant
            i <= order@.len(),
            all == json_views(items@),
            positions(order@) == newest_first(backup_times(all)),
            forall|a: int| 0 <= a < order@.len() ==> #[trigger] positions(order@)[a] < all.len(),
            goal == backups_sorted(all),
            out@.len() == i,
            forall|a: int| 0 <= a < i ==> (#[trigger] out@[a])@ == goal[a],
        decreases order@.len() - i,
    {
        assert(positions(order@)[i as int] == order@[i as int]);
        out.push(items[order[i]].copy());
        i = i + 1;
    }
    assert(json_views(out@) =~= goal);
    out
}

/// Whether the backup at position `i` is the first with the identifier.
pub open spec fn is_backup_at(items: Seq<JsonView>, backup_id: Seq<char>, i: int) -> bool {
    &&& 0 <= i < items.len()
    &&& items[i].str_at("backup_id"@) == Some(backup_id)
    &&& forall|j: int| 0 <= j < i ==> (#[trigger] items[j]).str_at("backup_id"@) != Some(backup_id)
}

/// Whether no backup has the identifier.
pub open spec fn no_backup(items: Seq<JsonView>, backup_id: Seq<char>) -> bool {
    forall|i: int|
        0 <= i < items.len() ==> (#[trigger] items[i]).str_at("backup_id"@) != Some(backup_id)
}

/// The first backup with the identifier.
pub fn get_backup<'a>(backups: &'a Vec<Json>, backup_id: &str) -> (r: Option<&'a Json>)
    ensures
        match r {
            Some(b) => exists|i: int|
                is_backup_at(json_views(backups@), backup_id@, i) && json_views(backups@)[i] == b@,
            None => no_backup(json_views(backups@), backup_id@),
        },
{
    let ghost all = json_views(backups@);
    let mut i: usize = 0;
    while i < backups.len()
        invariant
            i <= backups@.len(),
            all == json_views(backups@),
            forall|j: int|
                0 <= j < i ==> (#[trigger] all[j]).str_at("backup_id"@) != Some(backup_id@),
        decreases backups@.len() - i,
    {
        assert(all[i as int] == backups@[i as int]@);
        let found = match backups[i].str_at("backup_id") {
            Some(id) => same(id, backup_id),
            None => false,
        };
        if found {
            assert(is_backup_at(all, backup_id@, i as int));
            return Some(&backups[i]);
        }
        i = i + 1;
    }
    None
}

// ---------------------------------------------------------------------------
// Laws
// ---------------------------------------------------------------------------

/// Every instance that is switched on is backed up once: its home is the path of
/// exactly one of the homes, and that one names it.
pub proof fn law_every_instance_backed_up(
    instances: Seq<InstanceConfig>,
    home: Option<Seq<char>>,
    k: int,
)
    requires
        0 <= k < enabled_of(instances).len(),
    ensures
        ({
            let homes = homes_of(instances, home);
            let mine = enabled_of(instances)[k];
            &&& exists|j: int|
                0 <= j < homes.len() && (#[trigger] homes[j]).path == home_of(mine, home)
                    && homes[j].instances.contains(mine.name@)
            &&& forall|i: int, j: int|
                0 <= i < j < homes.len() ==> (#[trigger] homes[i]).path != (
                #[trigger] homes[j]).path
        }),
{
    let enabled = enabled_of(instances);
    let mine = enabled[k];
    let paths = home_paths(enabled, home);
    let homes = homes_of(instances, home);
    law_distinct(paths);
    let p = home_of(mine, home);
    assert(paths[k] == p);
    assert(paths.contains(p));
    assert(distinct(paths).contains(p));
    let j = distinct(paths).index_of(p);
    assert(homes[j].path == p);
    let pred = |i: InstanceConfig| home_of(i, home) == p;
    enabled.lemma_filter_contains(pred, k);
    let m = enabled.filter(pred).index_of(mine);
    assert(homes[j].instances[m] == mine.name@);
}

/// The metadata of a backup tell its own identifier, label, time and files, the host and the
/// version that it was made of, and each of its homes: where it stood, where it stands in the
/// archive, and whose it is.
pub proof fn law_metadata_told(
    backup_id: Seq<char>,
    label: Option<Seq<char>>,
    created_at: Seq<char>,
    install: InstallView,
    root: Seq<char>,
    homes: Seq<HomeView>,
    i: int,
)
    ensures
        ({
            let told = metadata(backup_id, label, created_at, install, root, homes);
            &&& told.get("backup_id"@) == Some(JsonView::Str(backup_id))
            &&& told.get("label"@) == Some(
                JsonView::Str(
                    match label {
                        Some(l) => l,
                        None => ""@,
                    },
                ),
            )
            &&& told.get("created_at"@) == Some(JsonView::Str(created_at))
            &&& told.get("hostname"@) == Some(JsonView::Str(install.hostname))
            &&& told.get("openclaw_version"@) == Some(text_or_null(install.openclaw_version))
            &&& told.get("openclaw_version_full"@) == Some(text_or_null(install.version_full))
            &&& told.get("archive_path"@) == Some(
                JsonView::Str(joined_path(root, backup_id + ".tar.gz"@)),
            )
            &&& told.get("metadata_path"@) == Some(
                JsonView::Str(joined_path(root, backup_id + ".json"@)),
            )
            &&& told.get("homes"@) matches Some(JsonView::Array(all)) && all.len() == homes.len()
                && (0 <= i < homes.len() ==> all[i].get("source_path"@) == Some(
                JsonView::Str(homes[i].path),
            ) && all[i].get("archive_path"@) == Some(
                JsonView::Str(
                    "homes/"@ + dec(i as nat) + "/"@ + match file_name_of(homes[i].path) {
                        Some(n) => n,
                        None => ""@,
                    },
                ),
            ) && all[i].get("instances"@) == Some(text_array(homes[i].instances)))
        }),
{
    let entries = metadata(backup_id, label, created_at, install, root, homes)->Object_0;
    reveal_strlit("backup_id");
    assert("backup_id"@.len() == 9);
    reveal_strlit("label");
    assert("label"@.len() == 5);
    reveal_strlit("created_at");
    assert("created_at"@.len() == 10);
    reveal_strlit("hostname");
    assert("hostname"@.len() == 8);
    reveal_strlit("openclaw_version");
    assert("openclaw_version"@.len() == 16);
    reveal_strlit("openclaw_version_full");
    assert("openclaw_version_full"@.len() == 21);
    reveal_strlit("archive_path");
    assert("archive_path"@.len() == 12);
    reveal_strlit("metadata_path");
    assert("metadata_path"@.len() == 13);
    reveal_strlit("homes");
    assert("homes"@.len() == 5);
    reveal_strlit("source_path");
    assert("source_path"@.len() == 11);
    reveal_strlit("instances");
    assert("instances"@.len() == 9);
    assert("label"@[0] != "homes"@[0]);
    lemma_entry_value(entries, "backup_id"@, 0);
    lemma_entry_value(entries, "label"@, 1);
    lemma_entry_value(entries, "created_at"@, 2);
    lemma_entry_value(entries, "hostname"@, 3);
    lemma_entry_value(entries, "openclaw_version"@, 4);
    lemma_entry_value(entries, "openclaw_version_full"@, 5);
    lemma_entry_value(entries, "archive_path"@, 6);
    lemma_entry_value(entries, "metadata_path"@, 7);
    lemma_entry_value(entries, "homes"@, 8);
    if 0 <= i < homes.len() {
        let home = home_meta(homes[i], i)->Object_0;
        lemma_entry_value(home, "source_path"@, 0);
        lemma_entry_value(home, "archive_path"@, 1);
        lemma_entry_value(home, "instances"@, 2);
    }
}

/// Nothing is backed up but the homes of instances that are switched on: every home that is
/// listed is the home of one of them, and every instance that it names is switched on and
/// lives there.
pub proof fn law_only_enabled_backed_up(
    instances: Seq<InstanceConfig>,
    home: Option<Seq<char>>,
    j: int,
    k: int,
)
    requires
        0 <= j < homes_of(instances, home).len(),
        0 <= k < homes_of(instances, home)[j].instances.len(),
    ensures
        exists|i: int|
            0 <= i < instances.len() && (#[trigger] instances[i]).enabled && home_expanded(
                instances[i].openclaw_home@,
                home,
            ) == homes_of(instances, home)[j].path && instances[i].name@ == homes_of(
                instances,
                home,
            )[j].instances[k],
{
    let enabled = enabled_of(instances);
    let p = homes_of(instances, home)[j].path;
    let pred = |i: InstanceConfig| home_of(i, home) == p;
    let mine = enabled.filter(pred);
    enabled.lemma_filter_pred(pred, k);
    enabled.lemma_filter_contains_rev(pred, mine[k]);
    let on = |i: InstanceConfig| i.enabled;
    let e = choose|e: int| 0 <= e < enabled.len() && enabled[e] == mine[k];
    instances.lemma_filter_pred(on, e);
    instances.lemma_filter_contains_rev(on, enabled[e]);
    let i = choose|i: int| 0 <= i < instances.len() && instances[i] == mine[k];
    assert(instances[i].enabled);
}

/// A backup goes ahead exactly where there are homes and all of them are there; otherwise it
/// is refused, and the first one that is missing is named.
pub proof fn law_sources_checked(
    homes: &Vec<HomeGroup>,
    present: &Vec<bool>,
    r: Result<(), String>,
    i: int,
)
    requires
        call_ensures(check_backup_sources, (homes, present), r),
        present@.len() == homes@.len(),
    ensures
        r is Ok <==> homes@.len() > 0 && forall|k: int|
            0 <= k < present@.len() ==> #[trigger] present@[k],
        homes@.len() == 0 ==> (r matches Err(m) && m@ == "No enabled OpenClaw homes"@),
        0 <= i < homes@.len() && !present@[i] && (forall|k: int|
            0 <= k < i ==> #[trigger] present@[k]) ==> (r matches Err(m) && m@
            == "Backup source not found: "@ + homes@[i].path@),
{
    if r is Ok {
        assert(all_there(present@, homes@.len()));
        assert forall|k: int| 0 <= k < present@.len() implies #[trigger] present@[k] by {
            assert(is_there(present@, k));
        }
    } else if homes@.len() > 0 {
        let k = choose|k: int| #[trigger]
            first_missing(present@, homes@.len(), k) && r->Err_0@ == "Backup source not found: "@
                + homes@[k].path@;
        assert(!present@[k]);
        if 0 <= i < homes@.len() && !present@[i] && (forall|k: int|
            0 <= k < i ==> #[trigger] present@[k]) {
            if i < k {
                assert(is_there(present@, i));
            } else if k < i {
                assert(present@[k]);
            }
        }
    }
}

/// The list of backups holds every backup once, each later one before every earlier one.
pub proof fn law_backups_listed(items: &Vec<Json>, r: Vec<Json>, a: int, b: int)
    requires
        call_ensures(list_backups, (items,), r),
        0 <= a < b < r@.len(),
    ensures
        r@.len() == items@.len(),
        forall|i: int|
            0 <= i < items@.len() ==> exists|k: int|
                0 <= k < r@.len() && (#[trigger] r@[k])@ == (#[trigger] items@[i])@,
        forall|s: Seq<char>, t: Seq<char>|
            r@[a]@.get("created_at"@) == Some(JsonView::Str(s)) && r@[b]@.get("created_at"@)
                == Some(JsonView::Str(t)) ==> s == t || #[trigger] text_before(t, s),
{
    let all = json_views(items@);
    let times = backup_times(all);
    let order = newest_first(times);
    let sorted = json_views(r@);
    assert(sorted == backups_sorted(all));
    assert(is_newest_first(order, times));
    assert forall|i: int| 0 <= i < items@.len() implies exists|k: int|
        0 <= k < r@.len() && (#[trigger] r@[k])@ == (#[trigger] items@[i])@ by {
        assert(order.contains(i));
        let k = order.index_of(i);
        assert(sorted[k] == all[i]);
        assert(sorted[k] == r@[k]@);
        assert(all[i] == items@[i]@);
    }
    assert(is_newer(times, order[a], order[b]));
    assert(sorted[a] == r@[a]@ && sorted[b] == r@[b]@);
    assert(sorted[a] == all[order[a]] && sorted[b] == all[order[b]]);
    assert(times[order[a]] == value_or(all[order[a]].str_at("created_at"@), ""@));
    assert(times[order[b]] == value_or(all[order[b]].str_at("created_at"@), ""@));
}

/// A backup is found by its identifier where one has it, and no other is given in its place;
/// and what the list adds to its metadata is whether the archive is there, and its size.
pub proof fn law_backup_found(
    backups: &Vec<Json>,
    backup_id: &str,
    r: Option<&Json>,
    meta: JsonView,
    found: bool,
    size: u64,
)
    requires
        call_ensures(get_backup, (backups, backup_id), r),
        meta is Object,
    ensures
        r matches Some(b) ==> b@.get("backup_id"@) == Some(JsonView::Str(backup_id@)),
        r is Some <==> exists|i: int|
            0 <= i < backups@.len() && (#[trigger] backups@[i])@.get("backup_id"@) == Some(
                JsonView::Str(backup_id@),
            ),
        with_archive(meta, found, size).get("archive_exists"@) == Some(JsonView::Bool(found)),
        with_archive(meta, found, size).get("archive_size_bytes"@) == Some(
            nat_value(
                if found {
                    size
                } else {
                    0
                },
            ),
        ),
{
    let all = json_views(backups@);
    if r is Some {
        let i = choose|i: int| is_backup_at(all, backup_id@, i) && all[i] == r->0@;
        assert(all[i] == backups@[i]@);
    } else {
        assert(no_backup(all, backup_id@));
        assert forall|i: int| 0 <= i < backups@.len() implies (#[trigger] backups@[i])@.get(
            "backup_id"@,
        ) != Some(JsonView::Str(backup_id@)) by {
            assert(all[i] == backups@[i]@);
            assert(all[i].str_at("backup_id"@) != Some(backup_id@));
        }
    }
    reveal_strlit("archive_exists");
    reveal_strlit("archive_size_bytes");
    assert("archive_exists"@.len() != "archive_size_bytes"@.len());
    let shown = nat_value(
        if found {
            size
        } else {
            0
        },
    );
    let first = meta.with("archive_exists"@, JsonView::Bool(found));
    law_entry_read_back(meta, "archive_exists"@, JsonView::Bool(found), "archive_exists"@);
    law_entry_read_back(first, "archive_size_bytes"@, shown, "archive_exists"@);
}

/// The event log is told which backup was made. Of the files beside the archives, those whose
/// names end in `.json` are read.
pub proof fn law_backup_noted(
    backup_id: &str,
    e: EventRecord,
    dir: Seq<char>,
    stem: Seq<char>,
    path: &str,
    read: bool,
)
    requires
        call_ensures(backup_created_event, (backup_id,), e),
        call_ensures(is_metadata_file, (path,), read),
        is_plain_name(stem),
    ensures
        e@.event_type == "backup_created"@,
        e@.message == "已创建备份 "@ + backup_id@,
        e@.instance_name is None,
        path@ == dir + "/"@ + (stem + "."@ + "json"@) ==> read,
        path@ == dir + "/"@ + (stem + "."@ + "gz"@) ==> !read,
{
    reveal_strlit("json");
    reveal_strlit("gz");
    assert("json"@.len() == 4 && "gz"@.len() == 2);
    law_extension(dir, stem, "json"@);
    law_extension(dir, stem, "gz"@);
}

/// The archive of a backup is the one that its metadata names.
pub proof fn law_archive_named(meta: &Json, archive: &str, path: Seq<char>)
    requires
        call_ensures(archive_of, (meta,), archive),
    ensures
        meta@.get("archive_path"@) == Some(JsonView::Str(path)) ==> archive@ == path,
        meta@.get("archive_path"@) is None ==> archive@.len() == 0,
{
    reveal_strlit("");
}

} // verus!
