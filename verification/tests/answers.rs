use openclaw_probe::agent::{
    agent_health, agent_snapshot, build_host_meta, count_online, HealthParts, PayloadCache,
    Section, Seen, SnapshotParts,
};
use openclaw_probe::clock::Moment;
use openclaw_probe::config::{AgentConfig, InstanceConfig, InstanceState};
use openclaw_probe::database::{
    agent_setting, days_back, heatmap_query, read_lifecycle, restarts_query, scan_offset,
    stored_bool, EventRow, Lifecycle, ProbeRow, RestartRow,
};
use openclaw_probe::events::{build_events_payload, default_limit, EventsQuery};
use openclaw_probe::install::{InstallInfo, InstallStrategy};
use openclaw_probe::instances::{
    collect_instances_payload, current_state, get_instance_or_404, list_instances, not_found,
    report_instance_detail, Known,
};
use openclaw_probe::json::{parse_json, Json, JsonNumber};
use openclaw_probe::requests::{
    answer, answer_config, answer_lifecycle, answer_root, answer_with, create_backup_task,
    create_restore_task, create_upgrade_if_needed_task, create_upgrade_task,
    desired_state_given, desired_state_message, desired_state_refused, flag_given, get_pricing,
    probe_health, text_given, upgrade_given,
};
use openclaw_probe::tasks::TaskStore;
use openclaw_probe::token_scanner::model_pricing_table;

fn show(v: &Json) -> String {
    match v {
        Json::Null => "null".to_string(),
        Json::Bool(b) => b.to_string(),
        Json::Number(JsonNumber::Unsigned(n)) => n.to_string(),
        Json::Number(JsonNumber::Negative(n)) => n.to_string(),
        Json::Number(JsonNumber::Decimal(t)) => t.clone(),
        Json::Str(s) => format!("{:?}", s),
        Json::Array(items) => {
            let parts: Vec<String> = items.iter().map(show).collect();
            format!("[{}]", parts.join(","))
        }
        Json::Object(entries) => {
            let parts: Vec<String> =
                entries.iter().map(|(k, v)| format!("{:?}:{}", k, show(v))).collect();
            format!("{{{}}}", parts.join(","))
        }
    }
}

fn parsed(text: &str) -> Json {
    parse_json(text).unwrap()
}

fn at(secs: u64) -> Moment {
    Moment { secs, nanos: 0 }
}

fn instance(name: &str, enabled: bool) -> InstanceConfig {
    InstanceConfig {
        name: name.to_string(),
        port: 18789,
        profile: None,
        openclaw_home: "~/.openclaw".to_string(),
        enabled,
    }
}

// Rows and queries

#[test]
fn queries_for_restarts() {
    let select = "SELECT id, instance_name, timestamp, trigger_reason, success, exit_code, stderr_output, health_after FROM restart_events";
    assert_eq!(restarts_query(false, None), format!("{} ORDER BY timestamp DESC", select));
    assert_eq!(
        restarts_query(true, Some(10)),
        format!(
            "{} WHERE instance_name = ? AND replace(timestamp, 'T', ' ') >= datetime('now', '-10 minutes') ORDER BY timestamp DESC",
            select
        )
    );
    assert_eq!(
        restarts_query(true, None),
        format!("{} WHERE instance_name = ? ORDER BY timestamp DESC", select)
    );
}

#[test]
fn queries_for_heatmaps() {
    let ts = "datetime(replace(replace(timestamp, 'T', ' '), 'Z', ''), '+8 hours')";
    let sql = |wanted: String| {
        format!(
            "SELECT instance_name, agent_id, CAST(strftime('%H', {ts}) AS INTEGER) as hour, \
             SUM(input_tokens + output_tokens + cache_read_tokens + cache_write_tokens) as total_tokens, \
             COUNT(*) as event_count, COUNT(DISTINCT date({ts})) as active_days FROM token_usage \
             WHERE {wanted} GROUP BY instance_name, agent_id, hour ORDER BY agent_id, hour"
        )
    };
    assert_eq!(
        heatmap_query("7d", 8),
        sql(format!("{ts} >= datetime('now', '+8 hours', '-7 days')"))
    );
    assert_eq!(
        heatmap_query("14d", 8),
        sql(format!("{ts} >= datetime('now', '+8 hours', '-14 days')"))
    );
    assert_eq!(
        heatmap_query("today", 8),
        sql(format!("date({ts}) = date(datetime('now', '+8 hours'))"))
    );
    assert!(heatmap_query("today", -3).contains("'-3 hours'"));
    assert_eq!(days_back(30), "-30 days");
}

#[test]
fn rows_are_reported() {
    let e = EventRow {
        id: 3,
        timestamp: "T".to_string(),
        event_type: "down".to_string(),
        instance_name: None,
        message: "m".to_string(),
        details: Some("d".to_string()),
    };
    assert_eq!(
        show(&e.to_json()),
        "{\"id\":3,\"timestamp\":\"T\",\"event_type\":\"down\",\"instance_name\":null,\
         \"message\":\"m\",\"details\":\"d\"}"
    );
    let p = ProbeRow {
        id: 1,
        instance_name: "a".to_string(),
        timestamp: "T".to_string(),
        status_code: Some(200),
        response_time_ms: Json::Null,
        success: 1,
        error: None,
    };
    assert_eq!(
        show(&p.to_json()),
        "{\"id\":1,\"instance_name\":\"a\",\"timestamp\":\"T\",\"status_code\":200,\
         \"response_time_ms\":null,\"success\":1,\"error\":null}"
    );
    let r = RestartRow {
        id: 2,
        instance_name: "a".to_string(),
        timestamp: "T".to_string(),
        trigger_reason: Some("auto_restart".to_string()),
        success: 0,
        exit_code: Some(-1),
        stderr_output: None,
        health_after: None,
    };
    assert_eq!(
        show(&r.to_json()),
        "{\"id\":2,\"instance_name\":\"a\",\"timestamp\":\"T\",\"trigger_reason\":\"auto_restart\",\
         \"success\":0,\"exit_code\":-1,\"stderr_output\":null,\"health_after\":null}"
    );
}

#[test]
fn lifecycles_start_out_running() {
    assert_eq!(
        show(&Lifecycle::unset("a", "T").to_json()),
        "{\"instance_name\":\"a\",\"desired_state\":\"running\",\"updated_at\":\"T\",\
         \"last_action\":null,\"last_action_status\":null,\"last_action_at\":null,\
         \"last_action_message\":null}"
    );
}

#[test]
fn lifecycles_are_read_again_as_they_were() {
    let (first, is_new) = read_lifecycle(None, "a", "T");
    assert!(is_new);
    let told = show(&first.to_json());
    assert_eq!(told, show(&Lifecycle::unset("a", "T").to_json()));
    let (second, is_new) = read_lifecycle(Some(first), "a", "U");
    assert!(!is_new);
    assert_eq!(show(&second.to_json()), told);
}

#[test]
fn stored_values() {
    assert_eq!(agent_setting(Some("x".to_string()), Some("d")), Some("x".to_string()));
    assert_eq!(agent_setting(None, Some("d")), Some("d".to_string()));
    assert_eq!(agent_setting(None, None), None);
    assert_eq!(scan_offset(None), 0);
    assert_eq!(scan_offset(Some(9)), 9);
    assert_eq!(stored_bool(true), 1);
    assert_eq!(stored_bool(false), 0);
}

#[test]
fn events_are_shown_in_bounds() {
    let shown = |limit: i64, offset: i64| EventsQuery { limit, offset, event_type: None }.shown();
    assert_eq!(shown(0, -5), (1, 0));
    assert_eq!(shown(501, 3), (500, 3));
    assert_eq!(shown(20, 0), (20, 0));
    assert_eq!(default_limit(), 50);
    assert_eq!(
        show(&build_events_payload(vec![Json::Bool(true)], 20, 3)),
        "{\"events\":[true],\"limit\":20,\"offset\":3}"
    );
}

// Instances

#[test]
fn instances_are_found_by_name() {
    let all = vec![instance("a", true), instance("b", false)];
    assert_eq!(get_instance_or_404(&all, "b").unwrap().name, "b");
    let missing = get_instance_or_404(&all, "c");
    assert_eq!(show(&missing.err().unwrap()), "{\"detail\":\"Instance 'c' not found\"}");
    assert_eq!(show(&not_found("Task", "x")), "{\"detail\":\"Task 'x' not found\"}");
    assert_eq!(show(&not_found("Backup", "y")), "{\"detail\":\"Backup 'y' not found\"}");
}

#[test]
fn states_in_a_word() {
    assert_eq!(current_state(Some(true), "stopped"), "running");
    assert_eq!(current_state(Some(false), "stopped"), "stopped");
    assert_eq!(current_state(None, "stopped"), "stopped");
    assert_eq!(current_state(Some(false), "running"), "degraded");
    assert_eq!(current_state(None, "running"), "unknown");
}

fn up(secs: u64) -> InstanceState {
    let mut s = InstanceState::default();
    s.online = Some(true);
    s.last_check = Some(at(secs));
    s.uptime_since = Some(at(secs));
    s.last_response_time = Some(1_234);
    s.last_status_code = Some(200);
    s
}

#[test]
fn enabled_instances_are_reported() {
    let all = vec![instance("off", false), instance("a", true)];
    let known = vec![Known {
        state: up(100),
        lifecycle: parsed("{\"desired_state\": \"running\", \"updated_at\": \"U\", \"last_action\": \"start\"}"),
        last_restart: None,
    }];
    let infos = vec![
        parsed("{\"name\": \"a\", \"config_found\": false}"),
        parsed("{\"name\": \"a\", \"config_found\": true, \"agent_count\": 2, \"crons\": [1], \"default_model\": \"m\"}"),
    ];
    let reports = collect_instances_payload(&all, &known, &infos, at(161));
    assert_eq!(reports.len(), 1);
    assert_eq!(
        show(&reports[0]),
        "{\"name\":\"a\",\"port\":18789,\"profile\":null,\"enabled\":true,\"online\":true,\
         \"uptime_since\":100.000000000,\"uptime\":\"1m 1s\",\"last_check\":100.000000000,\
         \"last_response_time_ms\":12.34,\"last_status_code\":200,\"consecutive_failures\":0,\
         \"default_model\":\"m\",\"agent_count\":2,\"agents\":[],\"channels\":[],\"channel_count\":0,\
         \"enabled_channel_names\":[],\"enabled_channel_count\":0,\"crons\":[1],\"cron_count\":0,\
         \"enabled_cron_count\":0,\"config_found\":true,\"last_restart\":null,\"lifecycle\":{\
         \"desired_state\":\"running\",\"current_state\":\"running\",\"updated_at\":\"U\",\
         \"last_action\":\"start\",\"last_action_status\":null,\"last_action_at\":null,\
         \"last_action_message\":null,\"auto_restart_enabled\":true}}"
    );
    assert_eq!(
        show(&list_instances(vec![Json::Null])),
        "{\"instances\":[null]}"
    );
}

#[test]
fn an_instance_is_reported_in_detail() {
    let r = report_instance_detail(
        &instance("a", true),
        &InstanceState::default(),
        &parsed("{\"cron_count\": 4}"),
        &parsed("{\"desired_state\": \"stopped\"}"),
        vec![Json::Bool(true)],
        Vec::new(),
        at(5),
    );
    assert_eq!(
        show(&r),
        "{\"name\":\"a\",\"port\":18789,\"profile\":null,\"enabled\":true,\"online\":null,\
         \"uptime_since\":null,\"uptime\":null,\"last_check\":null,\"last_response_time_ms\":null,\
         \"consecutive_failures\":0,\"info\":{\"cron_count\":4},\"channel_count\":0,\
         \"enabled_channel_names\":[],\"enabled_channel_count\":0,\"crons\":[],\"cron_count\":4,\
         \"enabled_cron_count\":0,\"lifecycle\":{\"desired_state\":\"stopped\",\
         \"current_state\":\"stopped\",\"updated_at\":null,\"last_action\":null,\
         \"last_action_status\":null,\"last_action_at\":null,\"last_action_message\":null,\
         \"auto_restart_enabled\":false},\"probe_history\":[true],\"restart_history\":[]}"
    );
}

// Kept answers

#[test]
fn answers_are_kept_for_a_while() {
    let mut c = PayloadCache::new();
    assert!(c.lookup("k", 15, at(100)).is_none());
    let meta = c.keep("k", &Json::Bool(true), 250, 15, at(100));
    assert_eq!(
        show(&meta),
        "{\"cache_hit\":false,\"cache_age_ms\":0.00,\"ttl_ms\":15000.0,\"build_ms\":2.50,\
         \"stale_fallback\":false}"
    );
    let later = Moment { secs: 101, nanos: 500_005_000 };
    let (value, meta) = c.lookup("k", 15, later).unwrap();
    assert_eq!(show(&value), "true");
    assert_eq!(
        show(&meta),
        "{\"cache_hit\":true,\"cache_age_ms\":1500.01,\"ttl_ms\":15000.0,\"build_ms\":2.50,\
         \"stale_fallback\":false}"
    );
    assert!(c.lookup("k", 15, at(114)).is_some());
    assert!(c.lookup("k", 15, at(115)).is_none());
    assert!(c.lookup("other", 15, at(100)).is_none());
    c.keep("k", &Json::Null, 1, 15, at(200));
    assert_eq!(show(&c.lookup("k", 15, at(200)).unwrap().0), "null");
}

fn install() -> InstallInfo {
    InstallInfo {
        hostname: "host".to_string(),
        openclaw_version: Some("1.2".to_string()),
        version_full: None,
        openclaw_path: None,
        install_strategy: InstallStrategy::Unknown,
        npm_package_dir: None,
    }
}

#[test]
fn the_host_is_reported() {
    let agent = AgentConfig { name: "n".to_string(), site: "s".to_string(), api_token: "t".to_string() };
    assert_eq!(
        show(&build_host_meta(&agent, &install(), at(7))),
        "{\"agent_name\":\"n\",\"site\":\"s\",\"hostname\":\"host\",\"service_version\":\"1.0.0\",\
         \"openclaw_version\":\"1.2\",\"openclaw_version_full\":null,\"server_time\":7.000000000}"
    );
}

fn seen(name: &str, time: Option<u64>, online: Option<bool>) -> Seen {
    let mut state = InstanceState::default();
    state.last_response_time = time;
    state.online = online;
    Seen { name: name.to_string(), state }
}

#[test]
fn health_of_the_agent() {
    let parts = HealthParts {
        uptime: 12_345,
        host: Json::Bool(true),
        system: Json::Null,
        maintenance: true,
        seen: vec![
            seen("a", Some(100), Some(true)),
            seen("b", None, Some(false)),
            seen("c", Some(201), Some(true)),
        ],
        processing_ms: 7,
        now: at(9),
    };
    assert_eq!(count_online(&parts.seen), 2);
    assert_eq!(
        show(&agent_health(&parts)),
        "{\"status\":\"ok\",\"service\":\"openclaw-probe-agent\",\"process_uptime_seconds\":123.45,\
         \"host\":true,\"system\":null,\"maintenance_mode\":true,\"instances_total\":3,\
         \"instances_online\":2,\"timing\":{\"openclaw_probe_ms_by_instance\":{\"a\":1.00,\"c\":2.01},\
         \"openclaw_probe_avg_ms\":1.51,\"openclaw_probe_max_ms\":2.01,\"api_processing_ms\":0.07,\
         \"generated_at\":9.000000000}}"
    );
}

#[test]
fn times_of_nobody_have_no_mean() {
    let parts = HealthParts {
        uptime: 0,
        host: Json::Null,
        system: Json::Null,
        maintenance: false,
        seen: vec![seen("a", None, None)],
        processing_ms: 0,
        now: at(1),
    };
    let timing = agent_health(&parts);
    let timing = timing.get("timing").unwrap();
    assert_eq!(show(timing.get("openclaw_probe_ms_by_instance").unwrap()), "{}");
    assert_eq!(show(timing.get("openclaw_probe_avg_ms").unwrap()), "null");
    assert_eq!(show(timing.get("openclaw_probe_max_ms").unwrap()), "null");
}

#[test]
fn same_names_share_a_time() {
    let parts = HealthParts {
        uptime: 0,
        host: Json::Null,
        system: Json::Null,
        maintenance: false,
        seen: vec![seen("a", Some(500), None), seen("b", Some(100), None), seen("a", Some(300), None)],
        processing_ms: 0,
        now: at(1),
    };
    let health = agent_health(&parts);
    let timing = health.get("timing").unwrap();
    assert_eq!(show(timing.get("openclaw_probe_ms_by_instance").unwrap()), "{\"a\":3.00,\"b\":1.00}");
    assert_eq!(show(timing.get("openclaw_probe_avg_ms").unwrap()), "2.00");
    assert_eq!(show(timing.get("openclaw_probe_max_ms").unwrap()), "3.00");
}

fn section(n: i64) -> Section {
    Section {
        value: parsed(&n.to_string()),
        meta: parsed(&(n + 10).to_string()),
    }
}

#[test]
fn the_snapshot() {
    let parts = SnapshotParts {
        host: parsed("1"),
        system: parsed("2"),
        config: parsed("3"),
        maintenance: false,
        install: parsed("4"),
        release: section(5),
        instances: vec![parsed("6")],
        token_summary: section(7),
        heatmap: section(8),
        events: section(9),
        seen: Vec::new(),
        processing_ms: 150,
        now: at(3),
    };
    assert_eq!(
        show(&agent_snapshot(&parts)),
        "{\"status\":\"ok\",\"service\":\"openclaw-probe-agent\",\"host\":1,\"system\":2,\
         \"config\":3,\"maintenance_mode\":false,\"openclaw_install\":4,\"openclaw_release\":5,\
         \"instances\":[6],\"token_summary\":7,\"agent_heatmap\":8,\"events\":9,\"timing\":{\
         \"openclaw_probe_ms_by_instance\":{},\"openclaw_probe_avg_ms\":null,\
         \"openclaw_probe_max_ms\":null,\"api_processing_ms\":1.50,\"generated_at\":3.000000000,\
         \"cached_sections\":{\"openclaw_release\":15,\"token_summary\":17,\"agent_heatmap\":18,\
         \"events\":19}}}"
    );
}

// Requests

#[test]
fn states_that_can_be_asked_for() {
    let asked = |s: &str| desired_state_given(&parsed(&format!("{{\"desired_state\": {}}}", s)));
    assert_eq!(asked("\" Running \""), Some("running"));
    assert_eq!(asked("\"STOPPED\""), Some("stopped"));
    assert_eq!(asked("\"paused\""), None);
    assert_eq!(asked("3"), None);
    assert_eq!(desired_state_given(&Json::Null), None);
    assert_eq!(desired_state_refused(), "desired_state must be 'running' or 'stopped'");
    assert_eq!(desired_state_message("stopped"), "Desired state updated to stopped");
}

#[test]
fn words_and_flags_of_requests() {
    let p = parsed("{\"reason\": \"  x y \", \"blank\": \"  \", \"off\": false, \"word\": \"true\"}");
    assert_eq!(text_given(&p, "reason"), Some("x y".to_string()));
    assert_eq!(text_given(&p, "blank"), None);
    assert_eq!(text_given(&p, "missing"), None);
    assert!(!flag_given(&p, "off"));
    assert!(flag_given(&p, "word"));
    assert!(flag_given(&p, "missing"));
}

#[test]
fn upgrades_that_are_asked_for() {
    let r = upgrade_given(&parsed("{}"));
    assert_eq!(r.target_version, "latest");
    assert!(r.create_backup);
    assert!(r.rollback_on_failure);
    let r = upgrade_given(&parsed("{\"target_version\": \" 1.2 \", \"create_backup\": false, \"rollback_on_failure\": false}"));
    assert_eq!(r.target_version, "1.2");
    assert!(!r.create_backup);
    assert!(!r.rollback_on_failure);
}

#[test]
fn tasks_are_started() {
    let mut tasks = TaskStore::new();
    let a = create_backup_task(&mut tasks, None);
    assert_eq!(a.kind, "backup");
    assert_eq!(show(&a.payload), "{\"label\":\"\"}");
    let b = create_restore_task(&mut tasks, "b1", false);
    assert_eq!(b.kind, "restore");
    assert_eq!(show(&b.payload), "{\"backup_id\":\"b1\",\"start_after_restore\":false}");
    let c = create_upgrade_task(&mut tasks, "1.2", true, false);
    assert_eq!(c.kind, "upgrade");
    assert_eq!(
        show(&c.payload),
        "{\"target_version\":\"1.2\",\"create_backup\":true,\"rollback_on_failure\":false}"
    );
    let d = create_upgrade_if_needed_task(&mut tasks, false, true, true);
    assert_eq!(d.kind, "upgrade-if-needed");
    assert_eq!(
        show(&d.payload),
        "{\"create_backup\":false,\"rollback_on_failure\":true,\"force_refresh_release\":true}"
    );
    assert_eq!(tasks.len(), 4);
    assert_eq!(tasks.get_task(&b.task_id).unwrap().kind, "restore");
}

#[test]
fn answers_to_requests() {
    assert_eq!(show(&answer("accepted", "task", Json::Null)), "{\"status\":\"accepted\",\"task\":null}");
    assert_eq!(
        show(&answer_lifecycle("a", &Json::Null)),
        "{\"status\":\"ok\",\"instance_name\":\"a\",\"lifecycle\":null}"
    );
    assert_eq!(
        show(&answer_with(&parsed("{\"maintenance_mode\": true, \"status\": \"x\"}"))),
        "{\"status\":\"x\",\"maintenance_mode\":true}"
    );
    assert_eq!(show(&answer_with(&Json::Null)), "{\"status\":\"ok\"}");
    assert_eq!(show(&probe_health()), "{\"status\":\"ok\",\"service\":\"openclaw-probe\"}");
    assert_eq!(
        show(&answer_root()),
        "{\"status\":\"ok\",\"service\":\"openclaw-probe-agent\",\
         \"message\":\"Agent-only mode. Use /api/agent/health or /api/agent/snapshot.\"}"
    );
    assert_eq!(
        show(&answer_config(Json::Bool(true))),
        "{\"message\":\"配置已更新\",\"config\":true}"
    );
    let pricing = get_pricing(&model_pricing_table(None));
    assert_eq!(pricing.get("pricing").unwrap().as_object().unwrap().len(), 6);
}
