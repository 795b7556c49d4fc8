use openclaw_probe::collector::{
    collect_instance_info, config_not_found_info, config_unparsable_info, instance_report,
    read_instance_file, read_jobs_file, read_soul_file, resolve_soul_file, soul_candidates,
    soul_requests, CacheSignature, InfoCache, InstanceFile, SoulFile,
};
use openclaw_probe::config::InstanceConfig;
use openclaw_probe::cron::{
    cron_jobs_file, derive_cron_health, latest_run, normalize_job, read_cron_jobs, run_log_file,
    run_log_files, schedule_label, truncate_chars,
};
use openclaw_probe::json::{parse_json, Json, JsonNumber};

fn show(v: &Json) -> String {
    match v {
        Json::Null => "null".to_string(),
        Json::Bool(b) => b.to_string(),
        Json::Number(JsonNumber::Unsigned(n)) => n.to_string(),
        Json::Number(JsonNumber::Negative(n)) => n.to_string(),
        Json::Number(JsonNumber::Decimal(t)) => t.clone(),
        Json::Str(s) => format!("{:?}", s),
        Json::Array(items) => {
            let parts: Vec<String> = items.iter().map(show).collect();
            format!("[{}]", parts.join(","))
        }
        Json::Object(entries) => {
            let parts: Vec<String> =
                entries.iter().map(|(k, v)| format!("{:?}:{}", k, show(v))).collect();
            format!("{{{}}}", parts.join(","))
        }
    }
}

fn parsed(text: &str) -> Json {
    parse_json(text).unwrap()
}

fn instance() -> InstanceConfig {
    InstanceConfig {
        name: "i".to_string(),
        port: 7,
        profile: Some(2),
        openclaw_home: "/h".to_string(),
        enabled: true,
    }
}

// Jobs

#[test]
fn paths_of_jobs_and_logs() {
    assert_eq!(cron_jobs_file("/h"), "/h/cron/jobs.json");
    assert_eq!(run_log_file("/h", "j1"), "/h/cron/runs/j1.jsonl");
}

#[test]
fn latest_run_is_the_last_line() {
    assert_eq!(show(&latest_run(Some("{\"a\":1}\n{\"a\":2}\n  \n"))), "{\"a\":2}");
    assert_eq!(show(&latest_run(Some("{\"a\":1}\nbroken"))), "null");
    assert_eq!(show(&latest_run(Some(" \n"))), "null");
    assert_eq!(show(&latest_run(None)), "null");
}

#[test]
fn text_is_cut_by_characters() {
    assert_eq!(truncate_chars("日本語", 2), "日本");
    assert_eq!(truncate_chars("ab", 5), "ab");
}

#[test]
fn schedules_in_words() {
    let label = |s: &str| schedule_label(&parsed(s));
    assert_eq!(label("{\"kind\": \"cron\", \"expr\": \"0 8 * * *\", \"tz\": \"UTC\"}"), "cron: 0 8 * * * (UTC)");
    assert_eq!(label("{\"kind\": \"cron\"}"), "cron: ");
    assert_eq!(label("{\"kind\": \"at\", \"at\": \"noon\"}"), "at: noon");
    assert_eq!(label("{\"kind\": \"every\"}"), "every");
    assert_eq!(label("{}"), "");
}

#[test]
fn health_of_jobs() {
    let health = |on: bool, s: &str| derive_cron_health(on, &parsed(s)).as_str();
    assert_eq!(health(false, "{\"lastStatus\": \"ok\"}"), "disabled");
    assert_eq!(health(true, "{\"lastStatus\": \"ok\", \"consecutiveErrors\": 9}"), "healthy");
    assert_eq!(health(true, "{\"lastRunStatus\": \"ok\"}"), "healthy");
    assert_eq!(health(true, "{\"lastStatus\": 1, \"lastRunStatus\": \"ok\"}"), "idle");
    assert_eq!(health(true, "{\"lastStatus\": \"error\", \"consecutiveErrors\": 3}"), "failing");
    assert_eq!(health(true, "{\"lastStatus\": \"error\", \"consecutiveErrors\": 2}"), "warning");
    assert_eq!(health(true, "{}"), "idle");
}

#[test]
fn jobs_are_reported() {
    let job = parsed(
        "{\"id\": \"j\", \"agentId\": \"a\", \"schedule\": {\"kind\": \"at\", \"at\": \"x\"}, \
          \"state\": {\"lastStatus\": \"error\", \"nextRunAtMs\": 61000}, \
          \"payload\": {\"kind\": \"k\", \"timeoutSeconds\": 5}}",
    );
    let run = parsed("{\"runAtMs\": 1000, \"summary\": \"done\", \"deliveryStatus\": \"sent\"}");
    let r = normalize_job(&job, &run, "/h", 1_000);
    assert_eq!(r.agent_id, Some("a".to_string()));
    assert!(r.enabled);
    assert_eq!(
        show(&r.report),
        "{\"id\":\"j\",\"agent_id\":\"a\",\"name\":\"j\",\"enabled\":true,\"delete_after_run\":false,\
         \"created_at_ms\":null,\"updated_at_ms\":null,\"schedule\":{\"at\":\"x\",\"kind\":\"at\"},\
         \"session_target\":null,\"wake_mode\":null,\"delivery\":{},\"payload\":{\"kind\":\"k\",\
         \"message\":null,\"text\":null,\"timeout_seconds\":5,\"model\":null},\
         \"state\":{\"lastStatus\":\"error\",\"nextRunAtMs\":61000},\
         \"latest_run\":{\"deliveryStatus\":\"sent\",\"runAtMs\":1000,\"summary\":\"done\"},\
         \"run_log_path\":\"/h/cron/runs/j.jsonl\",\"schedule_label\":\"at: x\",\
         \"next_run_at_ms\":61000,\"next_run_at\":\"1970-01-01 08:01:01\",\"next_run_in\":\"1m\",\
         \"last_run_at_ms\":1000,\"last_run_at\":\"1970-01-01 08:00:01\",\"last_run_ago\":\"0s\",\
         \"status_label\":\"error\",\"delivery_status_label\":\"sent\",\"health_status\":\"warning\",\
         \"has_error\":true,\"summary_preview\":\"done\"}"
    );
}

#[test]
fn jobs_without_an_identifier() {
    let r = normalize_job(&parsed("{\"enabled\": false}"), &Json::Null, "/h", 0);
    assert_eq!(r.agent_id, None);
    assert!(!r.enabled);
    assert_eq!(show(r.report.get("run_log_path").unwrap()), "null");
    assert_eq!(r.report.str_at("status_label"), Some("unknown"));
    assert_eq!(r.report.str_at("health_status"), Some("disabled"));
    assert_eq!(show(r.report.get("summary_preview").unwrap()), "null");
}

#[test]
fn summaries_are_cut() {
    let run = parsed(&format!("{{\"summary\": \"{}\"}}", "é".repeat(241)));
    let r = normalize_job(&parsed("{}"), &run, "/h", 0);
    assert_eq!(r.report.str_at("summary_preview").unwrap().chars().count(), 240);
    let run = parsed("{\"summary\": \"\"}");
    let r = normalize_job(&parsed("{}"), &run, "/h", 0);
    assert_eq!(show(r.report.get("summary_preview").unwrap()), "null");
}

#[test]
fn jobs_are_read_with_their_logs() {
    let file = read_jobs_file(Some("{\"jobs\": [{\"id\": \"x\"}, 3, {\"id\": \"\"}]}")).unwrap();
    let logs = run_log_files(Some(&file), "/h");
    let wanted: Vec<String> = logs.iter().flatten().cloned().collect();
    assert_eq!(wanted, vec!["/h/cron/runs/x.jsonl"]);
    let contents: Vec<Option<String>> =
        logs.iter().map(|l| l.as_ref().map(|_| "{\"runAtMs\": 5}".to_string())).collect();
    let jobs = read_cron_jobs(Some(&file), &contents, "/h", 0);
    assert_eq!(jobs.len(), 2);
    assert_eq!(show(jobs[0].report.get("latest_run").unwrap()), "{\"runAtMs\":5}");
    assert_eq!(show(jobs[1].report.get("latest_run").unwrap()), "null");
    assert!(read_jobs_file(Some("oops")).is_none());
    assert!(read_jobs_file(None).is_none());
    assert!(read_cron_jobs(None, &Vec::new(), "/h", 0).is_empty());
    assert!(read_cron_jobs(Some(&parsed("{\"jobs\": 1}")), &Vec::new(), "/h", 0).is_empty());
}

// Souls

#[test]
fn soul_files_are_looked_for() {
    let c = soul_candidates(Some("~/w"), Some("/home/me"));
    assert_eq!(c, vec!["/home/me/w/SOUL.md", "/home/me/w/soul.md"]);
    assert!(soul_candidates(None, Some("/home/me")).is_empty());
    assert_eq!(resolve_soul_file(&c, &vec![true, true]), Some("/home/me/w/SOUL.md".to_string()));
    assert_eq!(resolve_soul_file(&c, &vec![false, true]), Some("/home/me/w/soul.md".to_string()));
    assert_eq!(resolve_soul_file(&c, &vec![false, false]), None);
}

#[test]
fn soul_files_are_reported() {
    assert_eq!(
        show(&read_soul_file(&SoulFile::Missing)),
        "{\"exists\":false,\"path\":null,\"title\":null,\"content\":null,\"preview\":null,\"updated_at\":null}"
    );
    let read = SoulFile::Read {
        path: "/w/SOUL.md".to_string(),
        content: "\n # T \n\n1\n2\n3\n4\n5\n6\n7\n8\n".to_string(),
        updated_at: Json::Null,
    };
    let r = read_soul_file(&read);
    assert_eq!(r.str_at("title"), Some("# T"));
    assert_eq!(r.str_at("preview"), Some("# T\n1\n2\n3\n4\n5\n6\n7"));
    assert_eq!(r.bool_at("exists"), Some(true));
    let bad = SoulFile::Unreadable { path: "/w/SOUL.md".to_string(), error: "denied".to_string() };
    assert_eq!(
        show(&read_soul_file(&bad)),
        "{\"exists\":false,\"path\":\"/w/SOUL.md\",\"title\":\"SOUL.md\",\"content\":null,\
         \"preview\":null,\"updated_at\":null,\"error\":\"denied\"}"
    );
}

// Instances

fn data() -> Json {
    parsed(
        "{\"agents\": {\"defaults\": {\"workspace\": \"/dw\", \"model\": {\"primary\": \"dm\"}}, \
           \"list\": [{\"id\": \"a\", \"name\": \"A\", \"default\": true, \"model\": {\"primary\": \"m1\"}}, \
                      7, {\"id\": \"b\", \"workspace\": \"/bw\", \"params\": {\"model\": {\"primary\": \"m2\"}}}, {}]}, \
          \"channels\": {\"c1\": {\"enabled\": false, \"accounts\": {\"x\": 1, \"y\": 2}, \"tools\": {}}, \
                         \"c2\": {\"tools\": {\"t\": 1}}, \"c3\": 5}, \
          \"bindings\": [{\"agentId\": \"a\", \"match\": {\"channel\": \"c1\", \"accountId\": \"x\"}}, \
                         {\"agentId\": \"a\", \"match\": {\"channel\": \"c1\"}}, \
                         {\"agentId\": \"zz\", \"match\": {\"channel\": \"c2\"}}, \
                         {\"agentId\": \"a\"}, {\"match\": {\"channel\": \"c1\"}}, 4]}",
    )
}

fn souls() -> Vec<SoulFile> {
    vec![SoulFile::Missing, SoulFile::Missing, SoulFile::Missing]
}

#[test]
fn souls_are_requested_for_each_agent() {
    let r = soul_requests(&data(), None);
    let ids: Vec<&str> = r.iter().map(|s| s.agent_id.as_str()).collect();
    assert_eq!(ids, vec!["a", "b", ""]);
    assert_eq!(r[0].candidates[0], "/dw/SOUL.md");
    assert_eq!(r[1].candidates[1], "/bw/soul.md");
}

#[test]
fn instances_are_reported() {
    let jobs_file = parsed("{\"jobs\": [{\"id\": \"j1\", \"agentId\": \"a\"}, {\"id\": \"j2\", \"agentId\": \"a\", \"enabled\": false}, {\"id\": \"j3\"}]}");
    let logs = vec![None, None, None];
    let jobs = read_cron_jobs(Some(&jobs_file), &logs, "/h", 0);
    let info = collect_instance_info(&instance(), &data(), &souls(), &jobs);
    assert_eq!(info.str_at("name"), Some("i"));
    assert_eq!(info.i64_at("port"), Some(7));
    assert_eq!(info.i64_at("profile"), Some(2));
    assert_eq!(info.bool_at("config_found"), Some(true));
    assert_eq!(info.str_at("default_model"), Some("dm"));
    let agents = info.array_at("agents").unwrap();
    assert_eq!(agents.len(), 3);
    assert_eq!(agents[0].str_at("model"), Some("m1"));
    assert_eq!(agents[0].bool_at("is_default"), Some(true));
    assert_eq!(agents[0].str_at("workspace"), Some("/dw"));
    assert_eq!(show(agents[0].get("channels").unwrap()), "[\"c1\"]");
    assert_eq!(
        show(agents[0].get("bindings").unwrap()),
        "[{\"channel\":\"c1\",\"account_id\":\"x\"},{\"channel\":\"c1\",\"account_id\":null}]"
    );
    assert_eq!(agents[0].i64_at("cron_count"), Some(2));
    assert_eq!(agents[0].i64_at("enabled_cron_count"), Some(1));
    assert_eq!(agents[1].str_at("model"), Some("m2"));
    assert_eq!(agents[1].str_at("name"), Some("b"));
    assert_eq!(agents[1].str_at("workspace"), Some("/bw"));
    assert_eq!(agents[2].str_at("id"), Some("unknown"));
    assert_eq!(agents[2].str_at("model"), Some("dm"));
    let channels = info.array_at("channels").unwrap();
    assert_eq!(
        show(&channels[0]),
        "{\"name\":\"c1\",\"enabled\":false,\"account_count\":2,\"tool_count\":0,\"has_accounts\":true,\
         \"has_tools\":false,\"agent_ids\":[\"a\"],\"binding_count\":2}"
    );
    assert_eq!(
        show(&channels[1]),
        "{\"name\":\"c2\",\"enabled\":true,\"account_count\":0,\"tool_count\":1,\"has_accounts\":false,\
         \"has_tools\":true,\"agent_ids\":[\"zz\"],\"binding_count\":1}"
    );
    assert_eq!(channels.len(), 2);
    assert_eq!(show(info.get("enabled_channel_names").unwrap()), "[\"c2\"]");
    assert_eq!(info.i64_at("enabled_channel_count"), Some(1));
    assert_eq!(info.i64_at("cron_count"), Some(3));
    assert_eq!(info.i64_at("enabled_cron_count"), Some(2));
}

#[test]
fn counts_agree_with_lists() {
    let info = collect_instance_info(&instance(), &data(), &souls(), &Vec::new());
    for (list, count) in [("agents", "agent_count"), ("channels", "channel_count"), ("crons", "cron_count")] {
        assert_eq!(info.array_at(list).unwrap().len() as i64, info.i64_at(count).unwrap());
    }
}

#[test]
fn bindings_go_to_the_last_agent_of_a_name() {
    let data = parsed(
        "{\"agents\": {\"list\": [{\"id\": \"a\"}, {\"id\": \"a\"}]}, \
          \"bindings\": [{\"agentId\": \"a\", \"match\": {\"channel\": \"c\"}}]}",
    );
    let souls = vec![SoulFile::Missing, SoulFile::Missing];
    let info = collect_instance_info(&instance(), &data, &souls, &Vec::new());
    let agents = info.array_at("agents").unwrap();
    assert_eq!(show(agents[0].get("bindings").unwrap()), "[]");
    assert_eq!(show(agents[1].get("channels").unwrap()), "[\"c\"]");
    assert_eq!(info.str_at("default_model"), Some("unknown"));
}

#[test]
fn missing_and_broken_configurations() {
    let i = instance();
    let nothing: Vec<SoulFile> = Vec::new();
    let r = instance_report(&i, &InstanceFile::NotFound, &nothing, None, &Vec::new(), "/h", 0);
    assert_eq!(show(&r), "{\"name\":\"i\",\"port\":7,\"profile\":2,\"config_found\":false}");
    assert_eq!(show(&r), show(&config_not_found_info(&i)));
    let broken = InstanceFile::Text("{".to_string());
    let r = instance_report(&i, &broken, &nothing, None, &Vec::new(), "/h", 0);
    assert_eq!(
        show(&r),
        "{\"name\":\"i\",\"port\":7,\"profile\":2,\"config_found\":false,\"error\":\"Failed to parse config\"}"
    );
    assert_eq!(show(&r), show(&config_unparsable_info(&i)));
    assert!(read_instance_file(&InstanceFile::Unreadable).is_none());
    let whole = InstanceFile::Text("{}".to_string());
    let r = instance_report(&i, &whole, &nothing, Some("{\"jobs\": [{}]}"), &vec![None], "/h", 0);
    assert_eq!(r.bool_at("config_found"), Some(true));
    assert_eq!(r.i64_at("cron_count"), Some(1));
}

fn signature(cron: Option<u64>) -> CacheSignature {
    CacheSignature {
        config_mtime: Some(1),
        cron_mtime: cron,
        soul_mtimes: vec![("a".to_string(), Some(3))],
    }
}

#[test]
fn reports_are_kept_until_files_change() {
    let mut cache = InfoCache::new();
    assert!(cache.lookup("i", &signature(None)).is_none());
    cache.remember("i", signature(None), Json::Bool(true));
    assert_eq!(show(&cache.lookup("i", &signature(None)).unwrap()), "true");
    assert!(cache.lookup("i", &signature(Some(2))).is_none());
    assert!(cache.lookup("j", &signature(None)).is_none());
    assert!(signature(None).same(&signature(None)));
    let mut other = signature(None);
    other.soul_mtimes.push(("b".to_string(), None));
    assert!(!other.same(&signature(None)));
    cache.remember("i", signature(Some(2)), Json::Null);
    assert!(cache.lookup("i", &signature(None)).is_none());
}
