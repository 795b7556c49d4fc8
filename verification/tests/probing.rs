use openclaw_probe::auth::{unauthorized_report, verify_agent_token};
use openclaw_probe::clock::Moment;
use openclaw_probe::commands::build_gateway_command;
use openclaw_probe::config::{
    AgentConfig, AlertConfig, AppConfig, ConfigFile, ConfigManager, InstanceConfig, InstanceState,
    OperationsConfig, ProbeConfig, RestartConfig, ServerConfig, TokenScanConfig,
};
use openclaw_probe::json::{parse_json, Json, JsonNumber};
use openclaw_probe::probe::{
    desired_state, health_url, is_meant_to_run, note_stopped, plan_probe, probe_instance,
    probe_next, probe_record, settle_down, state_of, ProbeNext, ProbeOutcome, ProbePlan,
};
use openclaw_probe::restart::{
    auto_restart_event, lifecycle_record, manual_event, manual_request, note_action,
    restart_limit_event, restart_record, run_gateway_action, seconds_before_health,
    should_restart, GatewayAction, GatewayCommand, GatewayResult,
};
use openclaw_probe::scheduler::{
    auto_restart, collect_interval_seconds, loop_step, scan_interval_seconds, LoopStep,
};
use openclaw_probe::store::KeyedStore;

fn show(v: &Json) -> String {
    match v {
        Json::Null => "null".to_string(),
        Json::Bool(b) => b.to_string(),
        Json::Number(JsonNumber::Unsigned(n)) => n.to_string(),
        Json::Number(JsonNumber::Negative(n)) => n.to_string(),
        Json::Number(JsonNumber::Decimal(t)) => t.clone(),
        Json::Str(s) => format!("{:?}", s),
        Json::Array(items) => {
            let parts: Vec<String> = items.iter().map(show).collect();
            format!("[{}]", parts.join(","))
        }
        Json::Object(entries) => {
            let parts: Vec<String> =
                entries.iter().map(|(k, v)| format!("{:?}:{}", k, show(v))).collect();
            format!("{{{}}}", parts.join(","))
        }
    }
}

fn parsed(text: &str) -> Json {
    parse_json(text).unwrap()
}

fn instance(name: &str, enabled: bool, profile: Option<i64>) -> InstanceConfig {
    InstanceConfig {
        name: name.to_string(),
        port: 18789,
        profile,
        openclaw_home: "~/.openclaw".to_string(),
        enabled,
    }
}

fn at(secs: u64) -> Moment {
    Moment { secs, nanos: 0 }
}

fn answered(status: u16, elapsed: u64) -> ProbeOutcome {
    ProbeOutcome::Answered { status, elapsed }
}

fn meant(state: &str) -> Json {
    parsed(&format!("{{\"desired_state\": \"{}\"}}", state))
}

// Configuration

#[test]
fn defaults_of_the_configuration() {
    let c = AppConfig::default();
    assert!(c.instances.is_empty());
    assert_eq!(c.probe.interval_seconds, 30);
    assert_eq!(c.probe.timeout_seconds, 5);
    assert_eq!(c.probe.failure_threshold, 2);
    assert_eq!(c.probe.retry_delay_seconds, 10);
    assert!(c.restart.enabled);
    assert_eq!(c.restart.max_restarts_per_window, 3);
    assert_eq!(c.restart.window_minutes, 10);
    assert_eq!(c.restart.wait_after_restart_seconds, 20);
    assert_eq!(c.alert.feishu_webhook, "");
    assert!(!c.alert.enabled);
    assert_eq!(c.token_scan.interval_minutes, 5);
    assert_eq!(c.server.host, "0.0.0.0");
    assert_eq!(c.server.port, 8000);
    assert_eq!(c.agent.site, "");
    assert_eq!(c.agent.api_token, "");
    assert_eq!(c.operations.backup_dir, "~/openclaw-agent-backups");
    assert_eq!(c.operations.max_backups, 10);
}

#[test]
fn default_sections_agree_with_the_whole() {
    assert_eq!(ProbeConfig::default().timeout_seconds, 5);
    assert_eq!(RestartConfig::default().window_minutes, 10);
    assert!(!AlertConfig::default().enabled);
    assert_eq!(TokenScanConfig::default().interval_minutes, 5);
    assert_eq!(ServerConfig::default().port, 8000);
    assert_eq!(OperationsConfig::default().max_backups, 10);
    assert_eq!(AgentConfig::default().name, AppConfig::default().agent.name);
}

fn config_with(name: &str) -> AppConfig {
    let mut c = AppConfig::default();
    c.instances.push(instance(name, true, None));
    c
}

#[test]
fn updated_configuration_is_read_back() {
    let mut m = ConfigManager::new(ConfigFile::Unreadable);
    assert!(m.get().instances.is_empty());
    assert!(!m.is_stale(None));
    m.update(config_with("a"), Some(at(5)));
    assert_eq!(m.get().instances[0].name, "a");
    assert!(!m.is_stale(Some(at(5))));
    assert!(m.is_stale(Some(at(6))));
    assert!(m.is_stale(None));
}

#[test]
fn changed_file_is_loaded_again() {
    let mut m = ConfigManager::new(ConfigFile::Valid { config: config_with("a"), mtime: Some(at(1)) });
    assert_eq!(m.get().instances[0].name, "a");
    m.reload(
        Some(at(1)),
        ConfigFile::Valid { config: config_with("b"), mtime: Some(at(2)) },
    );
    assert_eq!(m.get().instances[0].name, "a");
    m.reload(
        Some(at(2)),
        ConfigFile::Valid { config: config_with("b"), mtime: Some(at(2)) },
    );
    assert_eq!(m.get().instances[0].name, "b");
    assert!(!m.is_stale(Some(at(2))));
    m.reload(Some(at(3)), ConfigFile::Invalid { mtime: Some(at(3)) });
    assert!(m.get().instances.is_empty());
    assert!(!m.is_stale(Some(at(3))));
}

// Access

#[test]
fn access_is_open_without_a_token() {
    assert!(verify_agent_token("", None, None));
    assert!(verify_agent_token("  \t", Some("x"), None));
}

#[test]
fn access_needs_the_token() {
    assert!(verify_agent_token(" key ", Some("key "), None));
    assert!(verify_agent_token("key", None, Some("Bearer  key")));
    assert!(verify_agent_token("key", None, Some("bEaReR key")));
    assert!(!verify_agent_token("key", None, None));
    assert!(!verify_agent_token("key", None, Some("Basic key")));
    assert!(!verify_agent_token("key", None, Some("Bearerkey")));
    assert!(!verify_agent_token("key", Some("other"), Some("Bearer key")));
    assert!(!verify_agent_token("key", Some("KEY"), None));
    assert_eq!(show(&unauthorized_report()), "{\"detail\":\"Invalid agent token\"}");
}

// Probes

#[test]
fn health_is_asked_of_the_port() {
    assert_eq!(health_url(18789), "http://127.0.0.1:18789/health");
}

#[test]
fn probes_are_recorded() {
    let r = probe_record(&answered(204, 5));
    assert_eq!(r.status_code, Some(204));
    assert!(r.success);
    assert_eq!(r.error, None);
    let r = probe_record(&answered(500, 5));
    assert_eq!(r.status_code, Some(500));
    assert!(!r.success);
    assert_eq!(r.error, None);
    let r = probe_record(&ProbeOutcome::Failed { error: "refused".to_string() });
    assert_eq!(r.status_code, None);
    assert_eq!(r.error, Some("refused".to_string()));
    let r = probe_record(&ProbeOutcome::TimedOut);
    assert!(!r.success);
    assert_eq!(r.error, Some("timeout".to_string()));
}

#[test]
fn statuses_that_are_healthy() {
    for (status, healthy) in [(199, false), (200, true), (299, true), (300, false), (404, false)] {
        let mut s = InstanceState::default();
        let (ok, _) = probe_instance(&mut s, &answered(status, 1), "a", at(1));
        assert_eq!(ok, healthy, "{}", status);
    }
}

#[test]
fn first_answer_brings_an_instance_up_silently() {
    let mut s = InstanceState::default();
    let (ok, event) = probe_instance(&mut s, &answered(200, 1234), "a", at(9));
    assert!(ok);
    assert!(event.is_none());
    assert_eq!(s.online, Some(true));
    assert_eq!(s.last_check, Some(at(9)));
    assert_eq!(s.last_response_time, Some(1234));
    assert_eq!(s.last_status_code, Some(200));
    assert_eq!(s.uptime_since, Some(at(9)));
    assert_eq!(s.consecutive_failures, 0);
    let (_, event) = probe_instance(&mut s, &answered(200, 1), "a", at(20));
    assert!(event.is_none());
    assert_eq!(s.uptime_since, Some(at(9)));
}

#[test]
fn failures_are_counted_until_the_threshold() {
    let config = ProbeConfig::default();
    let mut s = InstanceState::default();
    probe_instance(&mut s, &answered(200, 1), "a", at(1));
    let (ok, _) = probe_instance(&mut s, &ProbeOutcome::TimedOut, "a", at(2));
    assert!(!ok);
    assert_eq!(s.online, Some(true));
    assert_eq!(s.consecutive_failures, 1);
    assert_eq!(s.last_response_time, None);
    assert_eq!(s.last_status_code, None);
    assert!(matches!(probe_next(false, false, &config), ProbeNext::RetryAfter(10)));
    probe_instance(&mut s, &answered(503, 7), "a", at(3));
    assert_eq!(s.consecutive_failures, 2);
    assert_eq!(s.last_status_code, Some(503));
    assert!(matches!(probe_next(false, true, &config), ProbeNext::Settle));
    let event = settle_down(&mut s, 2, "a").unwrap();
    assert_eq!(event.event_type, "down");
    assert_eq!(event.message, "实例 a 确认宕机（连续 2 次探测失败）");
    assert_eq!(event.instance_name, Some("a".to_string()));
    assert_eq!(s.online, Some(false));
    assert_eq!(s.uptime_since, None);
    assert!(settle_down(&mut s, 2, "a").is_none());
}

#[test]
fn few_failures_settle_nothing() {
    let mut s = InstanceState::default();
    probe_instance(&mut s, &ProbeOutcome::TimedOut, "a", at(2));
    assert!(settle_down(&mut s, 2, "a").is_none());
    assert_eq!(s.online, None);
}

#[test]
fn a_failed_probe_is_tried_once_more() {
    let mut config = ProbeConfig::default();
    for threshold in [0, 1, 2, 5] {
        config.failure_threshold = threshold;
        assert!(matches!(probe_next(true, false, &config), ProbeNext::Healthy));
        assert!(matches!(probe_next(true, true, &config), ProbeNext::Healthy));
        assert!(matches!(probe_next(false, false, &config), ProbeNext::RetryAfter(10)));
        assert!(matches!(probe_next(false, true, &config), ProbeNext::Settle));
    }
}

#[test]
fn second_try_keeps_an_instance_up_at_the_lowest_threshold() {
    let mut config = ProbeConfig::default();
    config.failure_threshold = 1;
    let mut s = InstanceState::default();
    let (ok, _) = probe_instance(&mut s, &ProbeOutcome::TimedOut, "a", at(1));
    assert!(matches!(probe_next(ok, false, &config), ProbeNext::RetryAfter(10)));
    let (ok, _) = probe_instance(&mut s, &answered(200, 1), "a", at(11));
    assert!(matches!(probe_next(ok, true, &config), ProbeNext::Healthy));
    assert_eq!(s.online, Some(true));
    assert_eq!(s.consecutive_failures, 0);
}

#[test]
fn events_of_going_down_and_up_alternate() {
    let mut s = InstanceState::default();
    let mut log = Vec::new();
    for up in [true, false, false, false, true, true, false, false, true] {
        let outcome = if up { answered(200, 1) } else { ProbeOutcome::TimedOut };
        let (ok, event) = probe_instance(&mut s, &outcome, "a", at(1));
        if let Some(e) = event {
            log.push(e.event_type);
        }
        if !ok {
            if let Some(e) = settle_down(&mut s, 2, "a") {
                log.push(e.event_type);
            }
        }
    }
    assert_eq!(log, vec!["down", "recovery", "down", "recovery"]);
}

#[test]
fn recovery_is_told() {
    let mut s = InstanceState::default();
    s.online = Some(false);
    s.consecutive_failures = 4;
    let (ok, event) = probe_instance(&mut s, &answered(200, 1), "甲", at(7));
    assert!(ok);
    let e = event.unwrap();
    assert_eq!(e.event_type, "recovery");
    assert_eq!(e.message, "实例 甲 恢复在线");
    assert_eq!(s.consecutive_failures, 0);
    assert_eq!(s.uptime_since, Some(at(7)));
}

#[test]
fn desired_state_is_running_unless_told() {
    assert_eq!(desired_state(&Json::Null), "running");
    assert_eq!(desired_state(&parsed("{}")), "running");
    assert_eq!(desired_state(&meant("stopped")), "stopped");
    assert!(is_meant_to_run(&Json::Null));
    assert!(!is_meant_to_run(&meant("paused")));
}

#[test]
fn probes_are_planned() {
    assert!(matches!(plan_probe(&instance("a", false, None), &Json::Null), ProbePlan::Skip));
    assert!(matches!(plan_probe(&instance("a", true, None), &meant("stopped")), ProbePlan::NoteStopped));
    assert!(matches!(plan_probe(&instance("a", true, None), &meant("running")), ProbePlan::Probe));
}

#[test]
fn stopped_instances_have_no_failures() {
    let mut s = InstanceState::default();
    probe_instance(&mut s, &answered(200, 1), "a", at(1));
    probe_instance(&mut s, &ProbeOutcome::TimedOut, "a", at(2));
    note_stopped(&mut s);
    assert_eq!(s.online, Some(false));
    assert_eq!(s.uptime_since, None);
    assert_eq!(s.consecutive_failures, 0);
    assert_eq!(s.last_check, Some(at(2)));
}

#[test]
fn states_are_found_by_name() {
    let mut states: KeyedStore<InstanceState> = KeyedStore::new();
    assert_eq!(state_of(&states, "a").online, None);
    let mut s = InstanceState::default();
    s.online = Some(true);
    states.insert("a", s);
    assert_eq!(state_of(&states, "a").online, Some(true));
    assert_eq!(state_of(&states, "b").online, None);
}

// Restarts

#[test]
fn restarts_are_limited() {
    let config = RestartConfig::default();
    for recent in 0..6 {
        assert_eq!(should_restart(&config, &meant("running"), recent), recent < 3);
    }
    assert!(!should_restart(&config, &meant("stopped"), 0));
    let mut off = RestartConfig::default();
    off.enabled = false;
    assert!(!should_restart(&off, &meant("running"), 0));
    let e = restart_limit_event(&config, "a");
    assert_eq!(e.event_type, "restart_limit");
    assert_eq!(e.message, "实例 a 在 10 分钟内已重启 3 次，停止自动重启");
}

#[test]
fn gateway_commands() {
    assert_eq!(
        build_gateway_command("restart", &instance("a", true, Some(-2))),
        vec!["openclaw", "gateway", "restart", "--profile", "-2"]
    );
    assert_eq!(
        build_gateway_command("stop", &instance("a", true, None)),
        vec!["openclaw", "gateway", "stop"]
    );
}

fn exited(code: Option<i32>, stdout: &str, stderr: &str) -> GatewayCommand {
    GatewayCommand::Exited { code, stdout: stdout.to_string(), stderr: stderr.to_string() }
}

#[test]
fn health_is_awaited_after_success() {
    let config = RestartConfig::default();
    assert_eq!(seconds_before_health(&exited(Some(0), "", ""), None, &config), Some(20));
    assert_eq!(seconds_before_health(&exited(Some(0), "", ""), Some(5), &config), Some(5));
    assert_eq!(seconds_before_health(&exited(Some(1), "", ""), None, &config), None);
    assert_eq!(seconds_before_health(&exited(None, "", ""), None, &config), None);
    assert_eq!(seconds_before_health(&GatewayCommand::NotFound, None, &config), None);
}

#[test]
fn success_is_what_was_observed() {
    let ok = run_gateway_action(GatewayAction::Restart, exited(Some(0), " done \n", ""), true);
    assert!(ok.succeeded());
    assert!(ok.healthy());
    assert_eq!(
        show(&ok.to_json("running")),
        "{\"success\":true,\"exit_code\":0,\"stdout\":\"done\",\"stderr\":null,\
         \"message\":\"done\",\"health_after\":true,\"desired_state\":\"running\"}"
    );
    let sick = run_gateway_action(GatewayAction::Start, exited(Some(0), "", "warn"), false);
    assert!(!sick.succeeded());
    assert!(!sick.healthy());
    let gone = run_gateway_action(GatewayAction::Stop, exited(Some(0), "", ""), false);
    assert!(gone.succeeded());
    let there = run_gateway_action(GatewayAction::Stop, exited(Some(0), "", ""), true);
    assert!(!there.succeeded());
}

#[test]
fn failed_commands_are_reported() {
    let bad = run_gateway_action(GatewayAction::Restart, exited(None, "out", "err"), true);
    assert!(!bad.succeeded());
    assert_eq!(
        show(&bad.to_json("running")),
        "{\"success\":false,\"exit_code\":-1,\"stdout\":\"out\",\"stderr\":\"err\",\
         \"message\":\"err\",\"health_after\":null,\"desired_state\":\"running\"}"
    );
    let none = run_gateway_action(GatewayAction::Start, GatewayCommand::NotFound, true);
    assert_eq!(
        show(&none.response("a", "running")),
        "{\"status\":\"error\",\"instance_name\":\"a\",\"success\":false,\
         \"error\":\"openclaw 命令未找到\",\"desired_state\":\"running\"}"
    );
    let fault = run_gateway_action(
        GatewayAction::Start,
        GatewayCommand::NotRun { error: "denied".to_string() },
        true,
    );
    assert!(matches!(fault, GatewayResult::NotRun { .. }));
    assert_eq!(lifecycle_record(GatewayAction::Start, &fault).message, "denied");
}

#[test]
fn actions_are_recorded() {
    let ok = run_gateway_action(GatewayAction::Restart, exited(Some(0), "o", ""), true);
    let l = lifecycle_record(GatewayAction::Restart, &ok);
    assert_eq!((l.action.as_str(), l.status.as_str(), l.message.as_str()), ("restart", "success", "o"));
    let r = restart_record(GatewayAction::Restart, &ok, "auto_restart").unwrap();
    assert_eq!(r.trigger_reason, "auto_restart");
    assert!(r.success);
    assert_eq!(r.exit_code, 0);
    assert_eq!(r.stderr_output, None);
    assert_eq!(r.health_after, Some(true));
    assert!(restart_record(GatewayAction::Start, &ok, "x").is_none());
    let none = run_gateway_action(GatewayAction::Restart, GatewayCommand::NotFound, true);
    assert!(restart_record(GatewayAction::Restart, &none, "x").is_none());
    assert_eq!(lifecycle_record(GatewayAction::Restart, &none).status, "failed");
}

#[test]
fn states_follow_successful_actions() {
    let ok = run_gateway_action(GatewayAction::Start, exited(Some(0), "", ""), true);
    let mut s = InstanceState::default();
    s.consecutive_failures = 3;
    note_action(&mut s, GatewayAction::Start, &ok, at(4));
    assert_eq!(s.online, Some(true));
    assert_eq!(s.uptime_since, Some(at(4)));
    assert_eq!(s.consecutive_failures, 0);
    let stopped = run_gateway_action(GatewayAction::Stop, exited(Some(0), "", ""), false);
    s.last_status_code = Some(200);
    note_action(&mut s, GatewayAction::Stop, &stopped, at(6));
    assert_eq!(s.online, Some(false));
    assert_eq!(s.uptime_since, None);
    assert_eq!(s.last_check, Some(at(6)));
    assert_eq!(s.last_status_code, None);
    let failed = run_gateway_action(GatewayAction::Start, exited(Some(1), "", ""), false);
    note_action(&mut s, GatewayAction::Start, &failed, at(9));
    assert_eq!(s.last_check, Some(at(6)));
}

#[test]
fn automatic_restarts_are_told() {
    let ok = run_gateway_action(GatewayAction::Restart, exited(Some(0), "", ""), true);
    let e = auto_restart_event(&ok, "a");
    assert_eq!(e.event_type, "restart_success");
    assert_eq!(e.message, "实例 a 重启成功并已恢复在线");
    assert_eq!(e.details, None);
    let bad = run_gateway_action(GatewayAction::Restart, exited(Some(2), "o", "e"), false);
    let e = auto_restart_event(&bad, "a");
    assert_eq!(e.event_type, "restart_failed");
    assert_eq!(e.message, "实例 a 重启失败");
    assert_eq!(e.details, Some("e".to_string()));
    let quiet = run_gateway_action(GatewayAction::Restart, exited(Some(2), "o", ""), false);
    assert_eq!(auto_restart_event(&quiet, "a").details, None);
    let none = run_gateway_action(GatewayAction::Restart, GatewayCommand::NotFound, false);
    assert_eq!(auto_restart_event(&none, "a").details, Some("openclaw 命令未找到".to_string()));
}

#[test]
fn manual_actions() {
    let r = manual_request(GatewayAction::Stop);
    assert_eq!(r.desired_state, "stopped");
    assert_eq!(r.trigger_reason, "manual_stop");
    assert_eq!(r.message, "Manual stop requested");
    assert_eq!(r.wait_seconds, Some(5));
    let r = manual_request(GatewayAction::Restart);
    assert_eq!(r.desired_state, "running");
    assert_eq!(r.trigger_reason, "manual_restart");
    assert_eq!(r.wait_seconds, None);
    assert_eq!(manual_request(GatewayAction::Start).message, "Manual start requested");

    let ok = run_gateway_action(GatewayAction::Restart, exited(Some(0), "o", ""), true);
    let e = manual_event(GatewayAction::Restart, &ok, "a");
    assert_eq!(e.event_type, "restart_success");
    assert_eq!(e.message, "手动重启实例 a，健康检查: 通过");
    assert_eq!(e.details, None);
    let bad = run_gateway_action(GatewayAction::Restart, exited(Some(3), "o", "e"), true);
    let e = manual_event(GatewayAction::Restart, &bad, "a");
    assert_eq!(e.event_type, "restart_failed");
    assert_eq!(e.message, "手动重启实例 a，健康检查: 未通过");
    assert_eq!(e.details, Some("e".to_string()));
    let e = manual_event(GatewayAction::Start, &ok, "a");
    assert_eq!(e.event_type, "start_success");
    assert_eq!(e.message, "手动启动实例 a");
    assert_eq!(e.details, Some("o".to_string()));
    let none = run_gateway_action(GatewayAction::Stop, GatewayCommand::NotFound, true);
    let e = manual_event(GatewayAction::Stop, &none, "a");
    assert_eq!(e.event_type, "stop_failed");
    assert_eq!(e.message, "手动停止实例 a");
    assert_eq!(e.details, Some("openclaw 命令未找到".to_string()));
}

// The loop

fn down(failures: u32) -> InstanceState {
    let mut s = InstanceState::default();
    s.online = Some(false);
    s.consecutive_failures = failures;
    s
}

#[test]
fn only_downed_instances_are_restarted() {
    let config = AppConfig::default();
    let i = instance("a", true, None);
    assert!(auto_restart(&i, &meant("running"), &down(2), false, 0, &config));
    assert!(!auto_restart(&i, &meant("running"), &down(1), false, 0, &config));
    assert!(!auto_restart(&i, &meant("running"), &down(2), true, 0, &config));
    assert!(!auto_restart(&i, &meant("stopped"), &down(2), false, 0, &config));
    assert!(!auto_restart(&i, &meant("running"), &down(2), false, 3, &config));
    assert!(!auto_restart(&i, &meant("running"), &InstanceState::default(), false, 0, &config));
    assert!(!auto_restart(&instance("a", false, None), &meant("running"), &down(2), false, 0, &config));
    let mut up = down(5);
    up.online = Some(true);
    assert!(!auto_restart(&i, &meant("running"), &up, false, 0, &config));
}

#[test]
fn restarts_are_counted_only_where_needed() {
    let c = AppConfig::default();
    let i = instance("a", true, None);
    let step = loop_step(&i, &meant("running"), &down(2), false, &c.probe, &c.restart);
    assert!(matches!(step, LoopStep::CountRestarts));
    let step = loop_step(&i, &meant("running"), &down(2), true, &c.probe, &c.restart);
    assert!(matches!(step, LoopStep::Leave));
    assert_eq!(scan_interval_seconds(5), 300);
    assert_eq!(collect_interval_seconds(), 60);
}
