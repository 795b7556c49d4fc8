use openclaw_probe::backup::{
    add_archive, archive_entry, archive_file, archive_of, backup_created_event, backup_metadata,
    backup_root, check_backup_sources, get_backup, is_metadata_file, list_backups, metadata_file,
    read_metadata, unique_homes,
};
use openclaw_probe::commands::{
    enabled_instances, health_as_expected, healthy_status, report_instance_action, trim_filled,
    wait_after_round, wait_before_round, CommandOutcome, CommandResult, WaitStep,
};
use openclaw_probe::config::{AppConfig, InstanceConfig};
use openclaw_probe::event_log::EventRecord;
use openclaw_probe::install::{
    cut_commit, get_openclaw_install_info, is_cuttable, locate_openclaw_package_dir, DirEntry,
    InstallInfo, InstallStrategy, PackageFiles,
};
use openclaw_probe::json::{parse_json, Json, JsonNumber};
use openclaw_probe::maintenance::{
    after_work, before_work, enter_maintenance, exit_maintenance, maintenance_from,
    maintenance_key, maintenance_text,
};
use openclaw_probe::release::{
    api_url, asks_registry, get_openclaw_latest_release, npm_package_latest_version, release_url,
    Release, ReleaseReply,
};
use openclaw_probe::restore::{
    archive_not_found, archive_to_restore, backup_not_found, finish_restore, Restore,
    RestoreEvent, RestoreStep,
};
use openclaw_probe::tasks::{Task, TaskStatus, TaskStore, TaskUpdate, MAX_TASKS};
use openclaw_probe::upgrade::{
    decide_upgrade, plan_upgrade, report_needed_upgrade, Upgrade, UpgradeDecision, UpgradeEvent,
    UpgradePlan, UpgradeStep,
};
use openclaw_probe::work::WorkSlot;

fn show(v: &Json) -> String {
    match v {
        Json::Null => "null".to_string(),
        Json::Bool(b) => b.to_string(),
        Json::Number(JsonNumber::Unsigned(n)) => n.to_string(),
        Json::Number(JsonNumber::Negative(n)) => n.to_string(),
        Json::Number(JsonNumber::Decimal(t)) => t.clone(),
        Json::Str(s) => format!("{:?}", s),
        Json::Array(items) => {
            let parts: Vec<String> = items.iter().map(show).collect();
            format!("[{}]", parts.join(","))
        }
        Json::Object(entries) => {
            let parts: Vec<String> =
                entries.iter().map(|(k, v)| format!("{:?}:{}", k, show(v))).collect();
            format!("{{{}}}", parts.join(","))
        }
    }
}

fn parsed(text: &str) -> Json {
    parse_json(text).unwrap()
}

fn instance(name: &str, enabled: bool, home: &str) -> InstanceConfig {
    InstanceConfig {
        name: name.to_string(),
        port: 1,
        profile: None,
        openclaw_home: home.to_string(),
        enabled,
    }
}

fn exited(success: bool, code: i32, stdout: &str, stderr: &str) -> CommandResult {
    CommandResult::of(CommandOutcome::Exited {
        success,
        code: Some(code),
        stdout: stdout.to_string(),
        stderr: stderr.to_string(),
    })
}

fn text(s: &str) -> Option<String> {
    Some(s.to_string())
}

// Tasks

#[test]
fn tasks_are_queued() {
    let t = Task::queued("id", "backup", Json::Bool(true), "T");
    assert_eq!(
        show(&t.to_json()),
        "{\"task_id\":\"id\",\"kind\":\"backup\",\"status\":\"queued\",\"payload\":true,\
         \"result\":null,\"error\":null,\"created_at\":\"T\",\"started_at\":null,\
         \"finished_at\":null,\"updated_at\":\"T\"}"
    );
}

#[test]
fn tasks_live_and_end() {
    let mut s = TaskStore::new();
    s.add(Task::queued("a", "k", Json::Null, "1"));
    s.add(Task::queued("b", "k", Json::Null, "2"));
    s.update_task("a", TaskUpdate::Begun, "3");
    s.update_task("b", TaskUpdate::Begun, "3");
    assert_eq!(s.get_task("a").unwrap().status, TaskStatus::Running);
    s.update_task("a", TaskUpdate::Succeeded(Json::Bool(true)), "4");
    s.update_task("b", TaskUpdate::Failed("no".to_string()), "5");
    assert_eq!(
        show(&s.get_task("a").unwrap().to_json()),
        "{\"task_id\":\"a\",\"kind\":\"k\",\"status\":\"success\",\"payload\":null,\
         \"result\":true,\"error\":null,\"created_at\":\"1\",\"started_at\":\"3\",\
         \"finished_at\":\"4\",\"updated_at\":\"4\"}"
    );
    assert_eq!(
        show(&s.get_task("b").unwrap().to_json()),
        "{\"task_id\":\"b\",\"kind\":\"k\",\"status\":\"failed\",\"payload\":null,\
         \"result\":null,\"error\":\"no\",\"created_at\":\"2\",\"started_at\":\"3\",\
         \"finished_at\":\"5\",\"updated_at\":\"5\"}"
    );
    assert!(s.get_task("c").is_none());
    s.update_task("c", TaskUpdate::Begun, "6");
    assert!(s.get_task("c").is_none());
}

#[test]
fn one_task_is_at_work_at_a_time() {
    let mut s = TaskStore::new();
    let mut slot = WorkSlot::new();
    s.add(Task::queued("a", "k", Json::Null, "1"));
    s.add(Task::queued("b", "k", Json::Null, "2"));
    assert!(slot.begin_task(&mut s, "a", "3"));
    assert!(!slot.begin_task(&mut s, "b", "3"));
    assert_eq!(s.get_task("a").unwrap().status, TaskStatus::Running);
    assert_eq!(s.get_task("b").unwrap().status, TaskStatus::Queued);
    slot.end_task(&mut s, Ok(Json::Bool(true)), "4");
    let a = s.get_task("a").unwrap();
    assert_eq!(a.status, TaskStatus::Success);
    assert_eq!(show(&a.result), "true");
    assert_eq!(a.error, None);
    assert_eq!(a.started_at, text("3"));
    assert_eq!(a.finished_at, text("4"));
    assert!(slot.begin_task(&mut s, "b", "5"));
    slot.end_task(&mut s, Err("no".to_string()), "6");
    let b = s.get_task("b").unwrap();
    assert_eq!(b.status, TaskStatus::Failed);
    assert_eq!(b.error, text("no"));
    assert_eq!(show(&b.result), "null");
    slot.end_task(&mut s, Ok(Json::Null), "7");
    assert_eq!(s.get_task("b").unwrap().finished_at, text("6"));
}

#[test]
fn workers_that_do_not_come_back() {
    let mut s = TaskStore::new();
    let mut slot = WorkSlot::new();
    s.add(Task::queued("a", "k", Json::Null, "1"));
    s.add(Task::queued("b", "k", Json::Null, "2"));
    assert!(slot.begin_task(&mut s, "a", "3"));
    slot.abandon_task();
    assert_eq!(s.get_task("a").unwrap().status, TaskStatus::Running);
    assert_eq!(s.get_task("a").unwrap().finished_at, None);
    assert!(slot.begin_task(&mut s, "b", "4"));
    slot.end_task(&mut s, Ok(Json::Null), "5");
    assert_eq!(s.get_task("b").unwrap().status, TaskStatus::Success);
    assert_eq!(s.get_task("a").unwrap().status, TaskStatus::Running);
}

#[test]
fn newest_tasks_are_listed_first() {
    let mut s = TaskStore::new();
    for (id, at) in [("a", "1"), ("b", "3"), ("c", "2")] {
        s.add(Task::queued(id, "k", Json::Null, at));
    }
    let ids = |n: usize| -> Vec<String> { s.list_tasks(n).iter().map(|t| t.task_id.clone()).collect() };
    assert_eq!(ids(20), vec!["b", "c", "a"]);
    assert_eq!(ids(2), vec!["b", "c"]);
    assert_eq!(ids(0), Vec::<String>::new());
}

#[test]
fn oldest_task_makes_room() {
    let mut s = TaskStore::new();
    for i in 0..MAX_TASKS + 1 {
        s.add(Task::queued(&format!("t{}", i), "k", Json::Null, &format!("{:04}", i)));
    }
    assert_eq!(s.len(), MAX_TASKS);
    assert!(s.get_task("t0").is_none());
    assert!(s.get_task("t1").is_some());
    assert!(s.get_task("t100").is_some());
}

#[test]
fn created_tasks_are_found() {
    let mut s = TaskStore::new();
    let t = s.create_task("k", Json::Null);
    assert_eq!(s.get_task(&t.task_id).unwrap().created_at, t.created_at);
    assert_eq!(t.created_at, t.updated_at);
}

// Commands

#[test]
fn results_of_commands() {
    assert_eq!(
        show(&exited(true, 0, " out \n", "  ").to_json()),
        "{\"success\":true,\"returncode\":0,\"stdout\":\"out\",\"stderr\":null}"
    );
    let r = CommandResult::of(CommandOutcome::NotRun { error: "missing".to_string() });
    assert_eq!(
        show(&r.to_json()),
        "{\"success\":false,\"returncode\":null,\"stdout\":null,\"stderr\":\"missing\"}"
    );
    let r = CommandResult::of(CommandOutcome::TimedOut);
    assert_eq!(r.stderr, text("Command timed out"));
    assert_eq!(trim_filled("  "), None);
    assert_eq!(
        show(&report_instance_action(&instance("a", true, "/h"), "stop", &exited(false, 3, "", "e"))),
        "{\"instance_name\":\"a\",\"command\":[\"openclaw\",\"gateway\",\"stop\"],\"success\":false,\
         \"returncode\":3,\"stdout\":null,\"stderr\":\"e\"}"
    );
}

#[test]
fn waiting_for_health() {
    assert!(matches!(wait_before_round(0, false), WaitStep::Reached));
    assert!(matches!(wait_before_round(1, true), WaitStep::Ask));
    assert!(matches!(wait_before_round(1, false), WaitStep::GivenUp));
    assert!(matches!(wait_after_round(&vec![true, true], true), WaitStep::Reached));
    assert!(matches!(wait_after_round(&vec![true, false], true), WaitStep::Pause(2)));
    assert!(matches!(wait_after_round(&vec![false, false], false), WaitStep::Reached));
    assert!(!health_as_expected(&vec![true, false], false));
    assert!(healthy_status(200) && healthy_status(299));
    assert!(!healthy_status(199) && !healthy_status(300));
    let all = vec![instance("a", true, "/"), instance("b", false, "/"), instance("c", true, "/")];
    let names: Vec<String> = enabled_instances(&all).iter().map(|i| i.name.clone()).collect();
    assert_eq!(names, vec!["a", "c"]);
}

// Installation

fn entry(name: &str, has_package: bool) -> DirEntry {
    DirEntry { name: name.to_string(), has_package }
}

#[test]
fn package_directories_are_located() {
    let find = |direct: bool, e: Vec<DirEntry>| locate_openclaw_package_dir("/r", direct, &e);
    assert_eq!(find(true, vec![entry(".openclaw-x", true)]), text("/r/openclaw"));
    assert_eq!(
        find(false, vec![entry("openclaw", true), entry(".openclaw-a", false), entry(".openclaw-b", true)]),
        text("/r/.openclaw-b")
    );
    assert_eq!(find(false, Vec::new()), None);
}

#[test]
fn commits_are_cut_between_characters() {
    assert_eq!(cut_commit("0123456789"), "0123456");
    assert_eq!(cut_commit("abc"), "abc");
    assert!(is_cuttable("abc"));
    assert!(!is_cuttable("012345é"));
    assert!(is_cuttable("01234é6"));
}

fn files(build: Option<&str>, package: Option<&str>, has_entry: bool) -> PackageFiles {
    PackageFiles {
        dir: "/r/openclaw".to_string(),
        has_entry,
        build_info: build.map(|s| s.to_string()),
        package_info: package.map(|s| s.to_string()),
    }
}

#[test]
fn versions_that_the_program_tells() {
    let version = exited(true, 0, "OpenClaw v2026.1.2 (abc)", "");
    let which = exited(true, 0, "/usr/bin/openclaw", "");
    let i = get_openclaw_install_info(&version, &which, None).unwrap();
    assert_eq!(i.openclaw_version, text("2026.1.2"));
    assert_eq!(i.version_full, text("OpenClaw v2026.1.2 (abc)"));
    assert_eq!(i.openclaw_path, text("/usr/bin/openclaw"));
    assert_eq!(i.install_strategy.as_str(), "unknown");
    assert_eq!(i.npm_package_dir, None);
    assert!(!asks_registry(&i));
    let json = i.to_json();
    assert_eq!(json.str_at("install_strategy"), Some("unknown"));
    assert_eq!(json.str_at("hostname"), Some(i.hostname.as_str()));
}

#[test]
fn versions_that_only_the_package_tells() {
    let gone = exited(false, 127, "", "not found");
    let f = files(Some("{\"version\": \"v1.5\", \"commit\": \"0123456789\"}"), Some("{\"version\": \"9\"}"), true);
    let i = get_openclaw_install_info(&gone, &gone, Some(&f)).unwrap();
    assert_eq!(i.openclaw_version, text("1.5"));
    assert_eq!(i.version_full, text("OpenClaw 1.5 (0123456)"));
    assert_eq!(i.openclaw_path, text("/r/openclaw/openclaw.mjs"));
    assert_eq!(i.install_strategy.as_str(), "npm-global");
    assert_eq!(i.npm_package_dir, text("/r/openclaw"));
    let f = files(None, Some("{\"version\": \"9\"}"), false);
    let i = get_openclaw_install_info(&gone, &gone, Some(&f)).unwrap();
    assert_eq!(i.version_full, text("OpenClaw 9"));
    assert_eq!(i.openclaw_path, None);
    let f = files(Some("{\"version\": \"1\", \"commit\": \"012345é\"}"), None, false);
    assert!(get_openclaw_install_info(&gone, &gone, Some(&f)).is_none());
    let f = files(Some("broken"), None, false);
    let i = get_openclaw_install_info(&gone, &gone, Some(&f)).unwrap();
    assert_eq!(i.openclaw_version, None);
    assert_eq!(i.version_full, None);
}

fn info(strategy: InstallStrategy, version: Option<&str>) -> InstallInfo {
    InstallInfo {
        hostname: "h".to_string(),
        openclaw_version: version.map(|s| s.to_string()),
        version_full: None,
        openclaw_path: None,
        install_strategy: strategy,
        npm_package_dir: None,
    }
}

// Releases

const BODY: &str = "{\"tag_name\": \"v2.0\", \"name\": \"Two\", \"published_at\": \"P\", \
                    \"html_url\": \"U\", \"prerelease\": false, \"draft\": false}";

#[test]
fn releases_of_the_project() {
    let body = ReleaseReply::Body(BODY.to_string());
    let r = get_openclaw_latest_release(&info(InstallStrategy::Unknown, Some("1.9")), None, &body, "T");
    assert_eq!(r.latest_version, text("2.0"));
    assert_eq!(r.latest_tag, text("v2.0"));
    assert_eq!(r.release_update_available, Some(true));
    assert_eq!(r.install_target_version, text("2.0"));
    assert_eq!(r.update_available, Some(true));
    let json = r.to_json();
    assert_eq!(json.str_at("source"), Some("github-releases"));
    assert_eq!(json.str_at("repo"), Some("openclaw/openclaw"));
    assert_eq!(json.str_at("html_url"), Some("U"));
    assert_eq!(json.str_at("latest_name"), Some("Two"));
    assert_eq!(json.str_at("install_target_source"), Some("github-release"));
    assert_eq!(json.str_at("fetched_at"), Some("T"));
    assert_eq!(show(json.get("package_name").unwrap()), "null");
    assert_eq!(json.str_at("api_url"), Some(api_url()));
    assert_eq!(json.str_at("release_url"), Some(release_url()));
    assert_eq!(json.as_object().unwrap().len(), 22);
}

#[test]
fn updates_follow_the_registry_for_npm() {
    let npm = exited(true, 0, "1.9.1", "");
    let body = ReleaseReply::Body(BODY.to_string());
    let install = info(InstallStrategy::NpmGlobal, Some("1.9.1"));
    assert!(asks_registry(&install));
    let r = get_openclaw_latest_release(&install, Some(&npm), &body, "T");
    assert_eq!(r.package_latest_version, text("1.9.1"));
    assert_eq!(r.install_target_version, text("1.9.1"));
    assert_eq!(r.release_update_available, Some(true));
    assert_eq!(r.update_available, Some(false));
    assert_eq!(r.to_json().str_at("install_target_source"), Some("npm-dist-tag"));
    assert_eq!(r.to_json().str_at("package_name"), Some("openclaw"));
}

#[test]
fn replies_that_tell_nothing() {
    let install = info(InstallStrategy::Unknown, Some("1"));
    let failed = ReleaseReply::Failed { error: "down".to_string() };
    let r = get_openclaw_latest_release(&install, None, &failed, "T");
    assert_eq!(r.error, text("down"));
    assert_eq!(r.latest_version, None);
    assert_eq!(r.html_url, "https://github.com/openclaw/openclaw/releases");
    assert_eq!(r.update_available, None);
    for reply in [ReleaseReply::Unreadable, ReleaseReply::Body("<html>".to_string())] {
        let r = get_openclaw_latest_release(&install, None, &reply, "T");
        assert_eq!(r.error, None);
        assert_eq!(r.latest_version, None);
    }
    let named = ReleaseReply::Body("{\"name\": \"openclaw 3.1\"}".to_string());
    let r = get_openclaw_latest_release(&install, None, &named, "T");
    assert_eq!(r.latest_version, text("3.1"));
    assert_eq!(r.latest_tag, None);
}

#[test]
fn registry_answers() {
    assert_eq!(npm_package_latest_version(&exited(true, 0, "v1.2\n", "warn")), (text("1.2"), text("warn")));
    assert_eq!(npm_package_latest_version(&exited(false, 1, "", "")), (None, None));
    assert_eq!(npm_package_latest_version(&exited(true, 0, "v", "")), (None, None));
}

// Maintenance

#[test]
fn maintenance_is_read_back() {
    assert_eq!(maintenance_key(), "maintenance_mode");
    assert!(maintenance_from(Some(maintenance_text(true))));
    assert!(!maintenance_from(Some(maintenance_text(false))));
    assert!(!maintenance_from(Some("TRUE")));
    assert!(!maintenance_from(None));
}

#[test]
fn maintenance_is_entered_and_left() {
    let (change, report) = enter_maintenance(Some("why"));
    assert!(change.enabled);
    assert_eq!(change.event.event_type, "maintenance_entered");
    assert_eq!(change.event.message, "why");
    assert_eq!(show(&report), "{\"maintenance_mode\":true,\"reason\":\"why\"}");
    let (change, report) = exit_maintenance(None);
    assert!(!change.enabled);
    assert_eq!(change.event.event_type, "maintenance_exited");
    assert_eq!(change.event.message, "Agent exited maintenance mode");
    assert_eq!(show(&report), "{\"maintenance_mode\":false,\"reason\":\"\"}");
}

#[test]
fn work_restores_the_mode() {
    assert!(before_work(true).is_none());
    assert!(after_work(true).is_none());
    let before = before_work(false).unwrap();
    assert!(before.enabled);
    assert_eq!(before.event.message, "Agent entered maintenance mode");
    let after = after_work(false).unwrap();
    assert!(!after.enabled);
    assert_eq!(after.event.event_type, "maintenance_exited");
}

// Backups

fn config() -> AppConfig {
    let mut c = AppConfig::default();
    c.instances.push(instance("a", true, "~/x"));
    c.instances.push(instance("b", false, "~/y"));
    c.instances.push(instance("c", true, "/home/me/x"));
    c.instances.push(instance("d", true, "/z"));
    c
}

#[test]
fn every_instance_is_backed_up_once() {
    let homes = unique_homes(&config(), Some("/home/me"));
    assert_eq!(homes.len(), 2);
    assert_eq!(homes[0].path, "/home/me/x");
    assert_eq!(homes[0].instances, vec!["a", "c"]);
    assert_eq!(homes[1].instances, vec!["d"]);
    assert_eq!(backup_root(&config(), Some("/home/me")), "/home/me/openclaw-agent-backups");
}

#[test]
fn sources_of_backups_have_to_be_there() {
    let homes = unique_homes(&config(), Some("/home/me"));
    assert!(check_backup_sources(&homes, &vec![true, true]).is_ok());
    assert_eq!(
        check_backup_sources(&homes, &vec![true, false]),
        Err("Backup source not found: /z".to_string())
    );
    assert_eq!(
        check_backup_sources(&Vec::new(), &Vec::new()),
        Err("No enabled OpenClaw homes".to_string())
    );
}

#[test]
fn backups_are_described() {
    let homes = unique_homes(&config(), Some("/home/me"));
    let meta = backup_metadata("b1", Some("l"), "T", &info(InstallStrategy::Unknown, Some("1")), "/root", &homes);
    assert_eq!(
        show(&meta),
        "{\"backup_id\":\"b1\",\"label\":\"l\",\"created_at\":\"T\",\"hostname\":\"h\",\
         \"openclaw_version\":\"1\",\"openclaw_version_full\":null,\
         \"archive_path\":\"/root/b1.tar.gz\",\"metadata_path\":\"/root/b1.json\",\"homes\":[\
         {\"source_path\":\"/home/me/x\",\"archive_path\":\"homes/0/x\",\"instances\":[\"a\",\"c\"]},\
         {\"source_path\":\"/z\",\"archive_path\":\"homes/1/z\",\"instances\":[\"d\"]}]}"
    );
    assert_eq!(archive_file("/root", "b1"), "/root/b1.tar.gz");
    assert_eq!(metadata_file("/root", "b1"), "/root/b1.json");
    assert_eq!(archive_entry("/home/me/x", 0), "homes/0/x");
    assert_eq!(archive_entry("/other/x", 12), "homes/12/x");
    let e = backup_created_event("b1");
    assert_eq!(e.event_type, "backup_created");
    assert_eq!(e.message, "已创建备份 b1");
}

#[test]
fn backups_are_listed_newest_first() {
    assert!(is_metadata_file("/root/b1.json"));
    assert!(!is_metadata_file("/root/b1.tar.gz"));
    assert!(read_metadata("{").is_none());
    let a = read_metadata("{\"backup_id\": \"a\", \"created_at\": \"1\", \"archive_path\": \"/x\"}").unwrap();
    assert_eq!(archive_of(&a), "/x");
    let a = add_archive(a, true, 12);
    assert_eq!(a.bool_at("archive_exists"), Some(true));
    assert_eq!(a.i64_at("archive_size_bytes"), Some(12));
    let b = parsed("{\"backup_id\": \"b\", \"created_at\": \"2\"}");
    assert_eq!(archive_of(&b), "");
    let all = list_backups(&vec![a, b, parsed("3")]);
    assert_eq!(all[0].str_at("backup_id"), Some("b"));
    assert_eq!(all[1].str_at("backup_id"), Some("a"));
    assert_eq!(get_backup(&all, "a").unwrap().str_at("created_at"), Some("1"));
    assert!(get_backup(&all, "c").is_none());
}

// Restores

fn meta() -> Json {
    parsed(
        "{\"archive_path\": \"/b.tar.gz\", \"homes\": [\
           {\"source_path\": \"~/x\", \"archive_path\": \"homes/0/x\"}, \
           {\"source_path\": \"/z\", \"archive_path\": \"homes/1/z\"}]}",
    )
}

fn found(there: bool) -> RestoreEvent {
    RestoreEvent::Found { there, now_secs: 99 }
}

#[test]
fn archives_of_backups() {
    assert_eq!(archive_to_restore(&meta()), Ok("/b.tar.gz"));
    assert_eq!(archive_to_restore(&Json::Null), Err("Missing archive_path".to_string()));
    assert_eq!(archive_not_found("/b"), "Backup archive not found: /b");
    assert_eq!(backup_not_found("b"), "Backup 'b' not found");
}

#[test]
fn restores_read_what_backups_tell() {
    let homes = unique_homes(&config(), Some("/home/me"));
    let told = backup_metadata("b1", None, "T", &info(InstallStrategy::Unknown, None), "/root", &homes);
    let told = add_archive(told, true, 5);
    assert_eq!(archive_to_restore(&told), Ok("/root/b1.tar.gz"));
    assert_eq!(told.str_at("backup_id"), Some("b1"));
    let mut r = Restore::begin(&told, "/t", Some("/home/me")).ok().unwrap();
    assert!(matches!(r.next_step(), RestoreStep::Look { path } if path == "/t/homes/0/x"));
    r.advance(found(true));
    assert!(matches!(r.next_step(), RestoreStep::Look { path } if path == "/home/me/x"));
    r.advance(found(false));
    r.advance(RestoreEvent::Renamed);
    assert!(matches!(r.next_step(), RestoreStep::Look { path } if path == "/t/homes/1/z"));
}

#[test]
fn restores_give_back_what_backups_wrote() {
    let mut c = AppConfig::default();
    c.instances.push(instance("a", true, "/one/x"));
    c.instances.push(instance("b", true, "/two/x"));
    let homes = unique_homes(&c, None);
    let told = backup_metadata("b1", None, "T", &info(InstallStrategy::Unknown, None), "/root", &homes);
    let mut names: Vec<(String, String)> = Vec::new();
    for (i, h) in homes.iter().enumerate() {
        names.push((format!("/t/{}", archive_entry(&h.path, i)), format!("saved of {}", h.path)));
    }
    names.push(("/one/x".to_string(), "newer".to_string()));
    let mut r = Restore::begin(&told, "/t", None).ok().unwrap();
    loop {
        let event = match r.next_step() {
            RestoreStep::Look { path } => found(names.iter().any(|n| n.0 == path)),
            RestoreStep::Rename { from, to } => {
                names.iter_mut().find(|n| n.0 == from).unwrap().0 = to;
                RestoreEvent::Renamed
            }
            RestoreStep::Finish => break,
            RestoreStep::Fail { message } => panic!("{}", message),
        };
        r.advance(event);
    }
    let at = |path: &str| names.iter().find(|n| n.0 == path).map(|n| n.1.clone());
    assert_eq!(at("/one/x"), text("saved of /one/x"));
    assert_eq!(at("/two/x"), text("saved of /two/x"));
    assert_eq!(at("/one/x.pre-restore-99"), text("newer"));
}

#[test]
fn homes_are_put_back_in_place() {
    let mut r = Restore::begin(&meta(), "/t", Some("/h")).ok().unwrap();
    assert!(matches!(r.next_step(), RestoreStep::Look { path } if path == "/t/homes/0/x"));
    r.advance(found(true));
    assert!(matches!(r.next_step(), RestoreStep::Look { path } if path == "/h/x"));
    r.advance(found(true));
    assert!(matches!(r.next_step(), RestoreStep::Rename { from, to }
        if from == "/h/x" && to == "/h/x.pre-restore-99"));
    r.advance(RestoreEvent::Renamed);
    assert!(matches!(r.next_step(), RestoreStep::Rename { from, to }
        if from == "/t/homes/0/x" && to == "/h/x"));
    r.advance(RestoreEvent::Renamed);
    r.advance(found(true));
    r.advance(found(false));
    assert!(matches!(r.next_step(), RestoreStep::Rename { from, to }
        if from == "/t/homes/1/z" && to == "/z"));
    r.advance(RestoreEvent::Renamed);
    assert!(matches!(r.next_step(), RestoreStep::Finish));
    assert_eq!(
        show(&r.report()),
        "{\"moved_paths\":[{\"source_path\":\"/h/x\",\"moved_path\":\"/h/x.pre-restore-99\"}]}"
    );
}

#[test]
fn restores_that_fail_at_any_step_are_undone() {
    for n in 0..9 {
        let mut names: Vec<(String, String)> = vec![
            ("/h/x".to_string(), "old x".to_string()),
            ("/z".to_string(), "old z".to_string()),
            ("/t/homes/0/x".to_string(), "new x".to_string()),
            ("/t/homes/1/z".to_string(), "new z".to_string()),
        ];
        let mut r = Restore::begin(&meta(), "/t", Some("/h")).ok().unwrap();
        for _ in 0..n {
            let event = match r.next_step() {
                RestoreStep::Look { path } => found(names.iter().any(|m| m.0 == path)),
                RestoreStep::Rename { from, to } => {
                    names.iter_mut().find(|m| m.0 == from).unwrap().0 = to;
                    RestoreEvent::Renamed
                }
                _ => break,
            };
            r.advance(event);
        }
        r.advance(RestoreEvent::Failed { error: "disk".to_string() });
        for (source, aside) in r.rollback_order() {
            names.retain(|m| m.0 != source);
            names.iter_mut().find(|m| m.0 == aside).unwrap().0 = source;
        }
        let at = |path: &str| names.iter().find(|m| m.0 == path).map(|m| m.1.clone());
        assert_eq!(at("/h/x"), text("old x"), "{}", n);
        assert_eq!(at("/z"), text("old z"), "{}", n);
        assert_eq!(at("/h/x.pre-restore-99"), None);
        assert_eq!(at("/z.pre-restore-99"), None);
    }
}

#[test]
fn failed_restores_are_undone_in_reverse() {
    let mut r = Restore::begin(&meta(), "/t", Some("/h")).ok().unwrap();
    r.advance(found(true));
    r.advance(found(true));
    r.advance(RestoreEvent::Renamed);
    r.advance(RestoreEvent::Renamed);
    r.advance(found(true));
    r.advance(found(true));
    r.advance(RestoreEvent::Renamed);
    r.advance(RestoreEvent::Failed { error: "disk".to_string() });
    assert!(matches!(r.next_step(), RestoreStep::Fail { message } if message == "disk"));
    let order = r.rollback_order();
    assert_eq!(order[0], ("/z".to_string(), "/z.pre-restore-99".to_string()));
    assert_eq!(order[1], ("/h/x".to_string(), "/h/x.pre-restore-99".to_string()));
    r.advance(found(true));
    assert!(matches!(r.next_step(), RestoreStep::Fail { .. }));
}

#[test]
fn restores_that_cannot_go_on() {
    let mut r = Restore::begin(&meta(), "/t", Some("/h")).ok().unwrap();
    r.advance(found(false));
    assert!(matches!(r.next_step(), RestoreStep::Fail { message }
        if message == "Backup content missing: /t/homes/0/x"));
    assert!(r.rollback_order().is_empty());
    let e = Restore::begin(&parsed("{}"), "/t", None).err().unwrap();
    assert_eq!(e, "Backup homes metadata missing");
    let r = Restore::begin(&parsed("{\"homes\": [{}]}"), "/t", None).ok().unwrap();
    assert!(matches!(r.next_step(), RestoreStep::Fail { message } if message == "Backup source_path missing"));
    let r = Restore::begin(&parsed("{\"homes\": [{\"source_path\": \"/a\"}]}"), "/t", None).ok().unwrap();
    assert!(matches!(r.next_step(), RestoreStep::Fail { message } if message == "Backup archive_path missing"));
    let r = Restore::begin(&parsed("{\"homes\": []}"), "/t", None).ok().unwrap();
    assert!(matches!(r.next_step(), RestoreStep::Finish));
}

#[test]
fn restores_are_reported() {
    let (e, json) = finish_restore("b1", vec![Json::Bool(true)], Json::Null, None);
    assert_eq!(e.event_type, "backup_restored");
    assert_eq!(e.message, "已恢复备份 b1");
    assert_eq!(
        show(&json),
        "{\"backup_id\":\"b1\",\"stop_results\":[true],\"restore\":null,\"start_results\":[],\"health_ok\":true}"
    );
    let (e, json) = finish_restore("b1", Vec::new(), Json::Null, Some((vec![Json::Null], false)));
    assert_eq!(e.event_type, "backup_restore_failed");
    assert_eq!(json.bool_at("health_ok"), Some(false));
}

// Upgrades

fn plan(previous: Option<&str>, target: &str, backup: bool, rollback: bool) -> UpgradePlan {
    plan_upgrade(&info(InstallStrategy::NpmGlobal, previous), target, backup, rollback).ok().unwrap()
}

fn command(step: UpgradeStep) -> Vec<String> {
    match step {
        UpgradeStep::Run { command } => command,
        _ => panic!("no command"),
    }
}

#[test]
fn only_npm_installations_are_upgraded() {
    let e = plan_upgrade(&info(InstallStrategy::Unknown, None), "latest", true, true).err().unwrap();
    assert_eq!(
        e,
        "Unsupported install strategy: unknown. Only npm-global upgrades are supported right now."
    );
}

#[test]
fn upgrades_run_through() {
    let mut u = Upgrade::begin(plan(Some("1.0"), "", true, true));
    assert!(matches!(u.next_step(), UpgradeStep::Backup { label } if label == "pre-upgrade-1.0"));
    u.advance(UpgradeEvent::BackedUp(parsed("{\"backup_id\": \"b\"}"))).unwrap();
    assert_eq!(command(u.next_step()), vec!["npm", "install", "-g", "openclaw@latest"]);
    u.advance(UpgradeEvent::Ran(exited(true, 0, "ok", ""))).unwrap();
    assert!(matches!(u.next_step(), UpgradeStep::Restart));
    u.advance(UpgradeEvent::Restarted(Vec::new())).unwrap();
    assert!(matches!(u.next_step(), UpgradeStep::AwaitHealth));
    u.advance(UpgradeEvent::Health(true)).unwrap();
    assert!(matches!(u.next_step(), UpgradeStep::Inspect));
    u.advance(UpgradeEvent::Inspected(text("2.0"))).unwrap();
    assert!(matches!(u.next_step(), UpgradeStep::Finish));
    let e: EventRecord = u.event();
    assert_eq!(e.event_type, "upgrade_success");
    assert_eq!(e.message, "OpenClaw upgrade target=latest current=2.0");
    assert_eq!(
        show(&u.report()),
        "{\"target_version\":\"latest\",\"previous_version\":\"1.0\",\"current_version\":\"2.0\",\
         \"backup\":{\"backup_id\":\"b\"},\"install_result\":{\"success\":true,\"returncode\":0,\
         \"stdout\":\"ok\",\"stderr\":null},\"restart_results\":[],\"health_ok\":true,\
         \"rollback_result\":null}"
    );
}

#[test]
fn unhealthy_upgrades_are_rolled_back() {
    let mut u = Upgrade::begin(plan(Some("1.0"), "2.0", false, true));
    assert_eq!(command(u.next_step()), vec!["npm", "install", "-g", "openclaw@2.0"]);
    u.advance(UpgradeEvent::Ran(exited(true, 0, "", ""))).unwrap();
    u.advance(UpgradeEvent::Restarted(Vec::new())).unwrap();
    u.advance(UpgradeEvent::Health(false)).unwrap();
    u.advance(UpgradeEvent::Inspected(None)).unwrap();
    assert_eq!(command(u.next_step()), vec!["npm", "install", "-g", "openclaw@1.0"]);
    u.advance(UpgradeEvent::Ran(exited(false, 1, "", "e"))).unwrap();
    u.advance(UpgradeEvent::Restarted(vec![Json::Null])).unwrap();
    u.advance(UpgradeEvent::Health(true)).unwrap();
    assert!(matches!(u.next_step(), UpgradeStep::Finish));
    assert_eq!(u.event().event_type, "upgrade_failed");
    assert_eq!(u.event().message, "OpenClaw upgrade target=2.0 current=");
    assert_eq!(
        show(u.report().get("rollback_result").unwrap()),
        "{\"install\":{\"success\":false,\"returncode\":1,\"stdout\":null,\"stderr\":\"e\"},\
         \"restart_results\":[null],\"health_ok\":true,\"backup_id\":null}"
    );
}

#[test]
fn rollbacks_need_a_wish_and_a_version() {
    for (previous, rollback) in [(Some("1.0"), false), (None, true)] {
        let mut u = Upgrade::begin(plan(previous, "latest", false, rollback));
        u.advance(UpgradeEvent::Ran(exited(true, 0, "", ""))).unwrap();
        u.advance(UpgradeEvent::Restarted(Vec::new())).unwrap();
        u.advance(UpgradeEvent::Health(false)).unwrap();
        u.advance(UpgradeEvent::Inspected(None)).unwrap();
        assert!(matches!(u.next_step(), UpgradeStep::Finish));
        assert_eq!(show(u.report().get("rollback_result").unwrap()), "null");
    }
    let u = Upgrade::begin(plan(None, "latest", true, true));
    assert!(matches!(u.next_step(), UpgradeStep::Backup { label } if label == "pre-upgrade-unknown"));
}

#[test]
fn failed_installs_end_the_upgrade() {
    for (out, err, message) in [("o", "e", "e"), ("o", "", "o"), ("", "", "Upgrade command failed")] {
        let mut u = Upgrade::begin(plan(Some("1.0"), "2.0", false, true));
        let e = u.advance(UpgradeEvent::Ran(exited(false, 1, out, err)));
        assert_eq!(e, Err(message.to_string()));
    }
}

fn release(current: Option<&str>, latest: &str, npm: Option<&str>) -> Release {
    let body = ReleaseReply::Body(format!("{{\"tag_name\": \"{}\"}}", latest));
    let out = exited(npm.is_some(), 0, npm.unwrap_or(""), "");
    get_openclaw_latest_release(&info(InstallStrategy::NpmGlobal, current), Some(&out), &body, "T")
}

#[test]
fn needless_upgrades_are_skipped() {
    match decide_upgrade(&release(Some("2.0"), "v2.1", Some("2.0"))) {
        UpgradeDecision::Skip { event, report, .. } => {
            assert_eq!(event.event_type, "upgrade_skipped");
            assert_eq!(event.message, "OpenClaw 已是最新可安装版本 2.0");
            assert_eq!(report.bool_at("skipped"), Some(true));
            assert_eq!(report.str_at("reason"), Some("already_up_to_date"));
            assert_eq!(report.str_at("latest_version"), Some("2.1"));
            assert!(report.get("release").unwrap().is_object());
        }
        _ => panic!("not skipped"),
    }
    match decide_upgrade(&release(Some("2.0"), "v2.1", None)) {
        UpgradeDecision::Skip { event, report, .. } => {
            assert_eq!(event.message, "发现 GitHub 新版本 2.1，但 npm 暂无可安装版本");
            assert_eq!(report.str_at("reason"), Some("no_installable_update"));
            assert_eq!(show(report.get("install_target_version").unwrap()), "null");
        }
        _ => panic!("not skipped"),
    }
}

#[test]
fn needed_upgrades_are_made() {
    let r = release(Some("2.0"), "v2.1", Some("2.1"));
    match decide_upgrade(&r) {
        UpgradeDecision::Upgrade { target } => assert_eq!(target, "2.1"),
        _ => panic!("not upgraded"),
    }
    let u = Upgrade::begin(plan(Some("2.0"), "2.1", false, true));
    let report = report_needed_upgrade(&u, &r);
    assert_eq!(report.get("release").unwrap().str_at("latest_version"), Some("2.1"));
}

#[test]
fn unknown_releases_end_in_failure() {
    let install = info(InstallStrategy::Unknown, Some("1"));
    let failed = ReleaseReply::Failed { error: "down".to_string() };
    let r = get_openclaw_latest_release(&install, None, &failed, "T");
    match decide_upgrade(&r) {
        UpgradeDecision::Fail { message } => assert_eq!(message, "Failed to check latest release: down"),
        _ => panic!("no failure"),
    }
    let r = get_openclaw_latest_release(&install, None, &ReleaseReply::Unreadable, "T");
    match decide_upgrade(&r) {
        UpgradeDecision::Fail { message } => assert_eq!(message, "Latest release version not found"),
        _ => panic!("no failure"),
    }
}
