use openclaw_probe::clock::Moment;
use openclaw_probe::json::{parse_json, Json, JsonNumber};
use openclaw_probe::system_metrics::{
    command_text, disk_usage, extract_swap, get_system_metrics, kilobytes_to_bytes, load_words,
    memory_fits, metrics_are_fresh, parse_boot_time, parse_df, parse_sysctl_int, parse_vm_stat,
    report_metrics, swap_scale, DiskUsage, Findings, MetricsCache, Platform, SwapUsage, VmStat,
};

fn show(v: &Json) -> String {
    match v {
        Json::Null => "null".to_string(),
        Json::Bool(b) => b.to_string(),
        Json::Number(JsonNumber::Unsigned(n)) => n.to_string(),
        Json::Number(JsonNumber::Negative(n)) => n.to_string(),
        Json::Number(JsonNumber::Decimal(t)) => t.clone(),
        Json::Str(s) => format!("{:?}", s),
        Json::Array(items) => {
            let parts: Vec<String> = items.iter().map(show).collect();
            format!("[{}]", parts.join(","))
        }
        Json::Object(entries) => {
            let parts: Vec<String> =
                entries.iter().map(|(k, v)| format!("{:?}:{}", k, show(v))).collect();
            format!("{{{}}}", parts.join(","))
        }
    }
}

fn parsed(text: &str) -> Json {
    parse_json(text).unwrap()
}

#[test]
fn metrics_are_kept_for_half_a_minute() {
    assert!(metrics_are_fresh(29, false));
    assert!(!metrics_are_fresh(30, false));
    assert!(!metrics_are_fresh(0, true));
}

#[test]
fn metrics_are_given_back_while_fresh() {
    let at = |secs: u64| Moment { secs, nanos: 0 };
    let mut cache = MetricsCache::new();
    assert!(cache.lookup(at(5), false).is_none());
    cache.keep(&parsed("{\"collected_at\": 7}"), at(10));
    assert_eq!(show(&cache.lookup(at(39), false).unwrap()), "{\"collected_at\":7}");
    assert!(cache.lookup(at(40), false).is_none());
    assert!(cache.lookup(at(11), true).is_none());
    cache.keep(&Json::Bool(true), at(50));
    assert_eq!(show(&cache.lookup(at(50), false).unwrap()), "true");
}

#[test]
fn commands_tell_by_either_stream() {
    assert_eq!(command_text(" a \n", "b"), Some("a".to_string()));
    assert_eq!(command_text(" \n", " b "), Some("b".to_string()));
    assert_eq!(command_text("", " "), None);
}

#[test]
fn single_numbers_are_read() {
    assert_eq!(parse_sysctl_int(Some(" 17179869184\n")), Some(17_179_869_184));
    assert_eq!(parse_sysctl_int(Some("x")), None);
    assert_eq!(parse_sysctl_int(None), None);
}

const VM: &str = "Mach Virtual Memory Statistics: (page size of 16384 bytes)\n\
Pages free:                               10.\n\
Pages active:                             20.\n\
Pages wired down:                      1,000.\n\
\"Translation faults\":                     5.\n\
Pages free:                               12.\n\
File-backed pages:                        30.\n\
Pages odd:                                x.\n";

#[test]
fn memory_statistics_are_read() {
    let v = parse_vm_stat(VM).unwrap();
    assert_eq!(v.page_size, 16_384);
    assert_eq!(v.free_bytes, 12 * 16_384);
    assert_eq!(v.active_bytes, 20 * 16_384);
    assert_eq!(v.wired_bytes, 1_000 * 16_384);
    assert_eq!(v.file_backed_bytes, 30 * 16_384);
    assert_eq!(v.purgeable_bytes, 0);
    let v = parse_vm_stat("title\nPages free: 2.\n").unwrap();
    assert_eq!(v.page_size, 4_096);
    assert_eq!(v.free_bytes, 8_192);
    assert!(parse_vm_stat("t\nPages free: 9223372036854775807.\n").is_none());
}

#[test]
fn swap_amounts_are_read() {
    let line = "vm.swapusage: total = 2048.00M  used = 1.50G  free = 5B  (encrypted)";
    let a = extract_swap(line, "total").unwrap();
    assert_eq!((a.number.as_str(), a.unit), ("2048.00", 'M'));
    let a = extract_swap(line, "used").unwrap();
    assert_eq!((a.number.as_str(), a.unit), ("1.50", 'G'));
    assert!(extract_swap(line, "none").is_none());
    assert!(extract_swap("total = 12", "total").is_none());
    assert_eq!(swap_scale('K'), 1_024);
    assert_eq!(swap_scale('M'), 1_048_576);
    assert_eq!(swap_scale('G'), 1_073_741_824);
    assert_eq!(swap_scale('T'), 1_099_511_627_776);
    assert_eq!(swap_scale('B'), 1);
}

#[test]
fn boot_time_is_read() {
    let text = "{ sec = 1700000000, usec = 5 } Tue";
    assert_eq!(parse_boot_time(text), Some("1700000000".to_string()));
    assert_eq!(parse_boot_time("nothing"), None);
    assert_eq!(parse_boot_time("sec = 12"), None);
}

#[test]
fn disks_are_read() {
    let text = "Filesystem 1024-blocks Used Available\n/dev/disk1 100 40 60 40% /\n";
    assert_eq!(parse_df(text), Some((100, 60)));
    assert_eq!(parse_df("one line"), None);
    assert_eq!(parse_df("h\n/dev 1 2\n"), None);
    assert_eq!(parse_df("h\n/dev 1 x 3\n"), None);
    let u = disk_usage(Some((100, 60)));
    assert_eq!((u.total, u.used, u.free), (102_400, 40_960, 61_440));
    let u = disk_usage(Some((10, 60)));
    assert_eq!(u.used, 0);
    let u = disk_usage(None);
    assert_eq!((u.total, u.used, u.free), (0, 0, 0));
    assert_eq!(kilobytes_to_bytes(-3), -3_072);
}

#[test]
fn load_is_taken_apart() {
    assert_eq!(load_words("{ 1.23 4.56 7.89 }"), vec!["1.23", "4.56", "7.89"]);
    assert_eq!(load_words("{}"), Vec::<String>::new());
}

fn vm(free: i64, cached: i64) -> VmStat {
    VmStat {
        page_size: 1,
        free_bytes: free,
        active_bytes: 1,
        inactive_bytes: 2,
        speculative_bytes: 3,
        wired_bytes: 4,
        compressed_bytes: 5,
        purgeable_bytes: 6,
        file_backed_bytes: cached,
        anonymous_bytes: 7,
    }
}

fn findings(total: Option<i64>, vm: Option<VmStat>, swap: Option<SwapUsage>) -> Findings {
    Findings {
        collected_at: Moment { secs: 1, nanos: 0 },
        platform: Platform {
            release: "r".to_string(),
            version: "v".to_string(),
            mac_ver: "14".to_string(),
            machine: "arm64".to_string(),
        },
        logical_cores: 8,
        load_1m: parsed("1.5"),
        load_5m: parsed("2.5"),
        load_15m: parsed("3.5"),
        total_memory: total,
        vm,
        swap,
        root: DiskUsage { total: 9, used: 4, free: 5 },
        home: DiskUsage { total: 8, used: 3, free: 5 },
        uptime_seconds: Json::Null,
        pid: 77,
        rss_bytes: Some(2_048),
    }
}

#[test]
fn memory_in_use() {
    let used = |total: i64, free: i64, cached: i64| {
        let r = report_metrics("h", &findings(Some(total), Some(vm(free, cached)), None));
        r.get("memory").unwrap().i64_at("used_bytes").unwrap()
    };
    assert_eq!(used(100, 30, 20), 50);
    assert_eq!(used(100, 90, 20), 0);
    assert!(memory_fits(Some(100), Some(vm(1, 1))));
    assert!(!memory_fits(Some(i64::MAX), Some(vm(-1, 0))));
    assert!(memory_fits(None, Some(vm(-1, 0))));
}

#[test]
fn metrics_are_reported() {
    let swap = SwapUsage { total: Some(1), used: Some(2), free: None, raw: "x".to_string() };
    let r = report_metrics("h", &findings(Some(100), Some(vm(30, 20)), Some(swap)));
    assert_eq!(
        show(&r),
        "{\"collected_at\":1.000000000,\"hostname\":\"h\",\"platform\":{\"system\":\"Darwin\",\
         \"release\":\"r\",\"version\":\"v\",\"mac_ver\":\"14\",\"machine\":\"arm64\"},\
         \"cpu\":{\"logical_cores\":8,\"loadavg_1m\":1.5,\"loadavg_5m\":2.5,\"loadavg_15m\":3.5},\
         \"memory\":{\"total_bytes\":100,\"used_bytes\":50,\"raw_used_bytes\":70,\"free_bytes\":30,\
         \"cached_files_bytes\":20,\"app_memory_bytes\":7,\"active_bytes\":1,\"inactive_bytes\":2,\
         \"speculative_bytes\":3,\"wired_bytes\":4,\"compressed_bytes\":5,\"purgeable_bytes\":6,\
         \"file_backed_bytes\":20},\"swap\":{\"total_bytes\":1,\"used_bytes\":2,\"free_bytes\":null,\
         \"raw\":\"x\"},\"activity_monitor\":{\"memory\":{\"physical_memory_bytes\":100,\
         \"memory_used_bytes\":50,\"cached_files_bytes\":20,\"app_memory_bytes\":7,\
         \"wired_memory_bytes\":4,\"compressed_bytes\":5,\"swap_used_bytes\":2}},\
         \"disk\":{\"root_total_bytes\":9,\"root_used_bytes\":4,\"root_free_bytes\":5,\
         \"home_total_bytes\":8,\"home_used_bytes\":3,\"home_free_bytes\":5},\
         \"uptime_seconds\":null,\"agent_process\":{\"pid\":77,\"rss_bytes\":2048}}"
    );
}

#[test]
fn metrics_of_an_unknown_machine() {
    let r = get_system_metrics(&findings(None, None, None));
    assert_eq!(show(r.get("swap").unwrap()), "{}");
    assert_eq!(show(r.get_in("memory", "used_bytes").unwrap()), "null");
    assert_eq!(show(r.get_in("memory", "active_bytes").unwrap()), "null");
    assert!(r.str_at("hostname").is_some());
}
