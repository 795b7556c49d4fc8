use openclaw_probe::clock::{
    backup_id_at, format_ts_ms, format_uptime, humanize_delta_ms, new_backup_id, new_restore_dir_name,
    new_task_id, now_iso, seconds_between, Moment,
};
use openclaw_probe::json::{parse_json, Fields, Json, JsonNumber};
use openclaw_probe::numbers::{fixed_decimal, json_fixed, json_fixed_signed, json_moment};
use openclaw_probe::order::{find_oldest, sort_newest_first};
use openclaw_probe::paths::{
    expand_home, extension, file_name, join_path, parent, shellexpand_home,
};
use openclaw_probe::seqs::{find_last, has_text, push_distinct};
use openclaw_probe::store::KeyedStore;
use openclaw_probe::text::{
    cat5, contains, decimal, decimal_i64, is_before, join, parse_i64, parse_u64, split_fields,
    split_lines, starts_with, strip_prefix, trim, trim_of, trim_start_word, CharClass,
};
use openclaw_probe::versions::{is_later_version, normalize_version, version_key};

fn owned(items: &[&str]) -> Vec<String> {
    items.iter().map(|s| s.to_string()).collect()
}

#[test]
fn text_is_trimmed() {
    assert_eq!(trim(" \t a b \u{3000}\n"), "a b");
    assert_eq!(trim("   "), "");
    assert_eq!(trim_of("\"Pages\"", CharClass::Just('"')), "Pages");
    assert_eq!(trim_start_word("openclawopenclaw1", "openclaw"), "1");
}

#[test]
fn text_is_searched_and_split() {
    assert!(contains("openai/gpt-4o", "/gpt"));
    assert!(!contains("abc", "abd"));
    assert!(contains("abc", ""));
    assert_eq!(strip_prefix("~/x", "~/"), Some("x"));
    assert_eq!(strip_prefix("/x", "~/"), None);
    assert!(starts_with(".openclaw-1", ".openclaw-"));
    assert_eq!(split_fields("  a  b c ", CharClass::White), owned(&["a", "b", "c"]));
    assert_eq!(split_lines("a\r\nb\n\nc"), owned(&["a", "b", "", "c"]));
    assert_eq!(split_lines("a\n"), owned(&["a"]));
    assert_eq!(split_lines(""), Vec::<String>::new());
}

#[test]
fn text_is_joined() {
    assert_eq!(join(&owned(&["a", "b", "c"]), ", "), "a, b, c");
    assert_eq!(join(&Vec::new(), ", "), "");
    assert_eq!(cat5("a", "b", "c", "d", "e"), "abcde");
}

#[test]
fn numbers_are_read() {
    assert_eq!(parse_u64("18446744073709551615"), Some(u64::MAX));
    assert_eq!(parse_u64("18446744073709551616"), None);
    assert_eq!(parse_u64("+7"), Some(7));
    assert_eq!(parse_u64("-7"), None);
    assert_eq!(parse_u64(""), None);
    assert_eq!(parse_i64("-9223372036854775808"), Some(i64::MIN));
    assert_eq!(parse_i64("9223372036854775808"), None);
    assert_eq!(parse_i64("1 2"), None);
}

#[test]
fn written_numbers_are_read_back() {
    for n in [0u64, 9, 10, 1234567890, u64::MAX] {
        assert_eq!(parse_u64(&decimal(n)), Some(n));
    }
    for n in [0i64, -1, 42, i64::MIN, i64::MAX] {
        assert_eq!(parse_i64(&decimal_i64(n)), Some(n));
    }
    assert_eq!(decimal(1070), "1070");
    assert_eq!(decimal_i64(-305), "-305");
}

#[test]
fn text_has_a_total_order() {
    let words = ["", "a", "ab", "b", "é", "中"];
    for i in 0..words.len() {
        for j in 0..words.len() {
            assert_eq!(is_before(words[i], words[j]), i < j);
        }
    }
}

#[test]
fn decimals_with_fixed_digits() {
    assert_eq!(fixed_decimal(12345, 2), "123.45");
    assert_eq!(fixed_decimal(5, 2), "0.05");
    assert_eq!(fixed_decimal(0, 1), "0.0");
    assert_eq!(show(&json_fixed(1250, 3)), "1.250");
    assert_eq!(show(&json_fixed_signed(-150, 2)), "-1.50");
    assert_eq!(show(&json_moment(Moment { secs: 7, nanos: 5 })), "7.000000005");
}

#[test]
fn decimals_point_only_parts_digits() {
    let text = fixed_decimal(9_876_543, 4);
    assert_eq!(text, "987.6543");
    assert_eq!(text.replace('.', ""), "9876543");
}

#[test]
fn paths_are_joined_and_taken_apart() {
    assert_eq!(join_path("/a", "b"), "/a/b");
    assert_eq!(join_path("/a/", "b"), "/a/b");
    assert_eq!(join_path("/a", "/b"), "/b");
    assert_eq!(join_path("", "b"), "b");
    assert_eq!(file_name("/a/b"), Some("b".to_string()));
    assert_eq!(file_name("/a/b/"), Some("b".to_string()));
    assert_eq!(file_name("/"), None);
    assert_eq!(file_name("/a/.."), None);
    assert_eq!(parent("/a/b"), Some("/a".to_string()));
    assert_eq!(parent("/a"), Some("/".to_string()));
    assert_eq!(parent("/"), None);
    assert_eq!(extension("/a/b.json"), Some("json".to_string()));
    assert_eq!(extension("/a/b.tar.gz"), Some("gz".to_string()));
    assert_eq!(extension("/a/.json"), None);
    assert_eq!(extension("/a/b"), None);
}

#[test]
fn paths_agree_with_std() {
    for path in ["/a/b.c", "a", "a/", "/", "", "..", "a/..", "/a/./b", "x.", ".x", "a//b", "/a/b/."] {
        let p = std::path::Path::new(path);
        let name = p.file_name().map(|s| s.to_string_lossy().to_string());
        let ext = p.extension().map(|s| s.to_string_lossy().to_string());
        assert_eq!(file_name(path), name, "{}", path);
        assert_eq!(extension(path), ext, "{}", path);
        assert_eq!(
            join_path(path, "q"),
            p.join("q").to_string_lossy().to_string(),
            "{}",
            path
        );
    }
}

#[test]
fn home_is_filled_in() {
    assert_eq!(expand_home("~/x/y", Some("/home/me")), "/home/me/x/y");
    assert_eq!(expand_home("~/x", None), "~/x");
    assert_eq!(expand_home("~x", Some("/h")), "~x");
    assert_eq!(expand_home("/x", Some("/h")), "/x");
    assert_eq!(expand_home("~//x", Some("/h")), "/x");
    assert_eq!(shellexpand_home("~/x", Some("/h/")), "/h//x");
    assert_eq!(shellexpand_home("~/x", None), "~/x");
}

#[test]
fn names_are_kept_once() {
    let mut v = Vec::new();
    for s in ["a", "b", "a", "c", "b"] {
        push_distinct(&mut v, s);
    }
    assert_eq!(v, owned(&["a", "b", "c"]));
    assert!(has_text(&v, "c"));
    assert!(!has_text(&v, "d"));
}

#[test]
fn last_place_is_found() {
    let v = owned(&["a", "b", "a"]);
    assert_eq!(find_last(&v, "a"), Some(2));
    assert_eq!(find_last(&v, "z"), None);
}

#[test]
fn newest_come_first_and_ties_keep_order() {
    let times = owned(&["2024-01-02", "2024-01-03", "2024-01-02", "2023-12-31"]);
    assert_eq!(sort_newest_first(&times), vec![1, 0, 2, 3]);
    assert_eq!(find_oldest(&times), 3);
}

#[test]
fn store_gives_back_what_was_put_in() {
    let mut store: KeyedStore<u32> = KeyedStore::new();
    assert!(store.get("a").is_none());
    store.insert("a", 1);
    store.insert("b", 2);
    store.insert("a", 3);
    assert_eq!(store.get("a"), Some(&3));
    assert_eq!(store.get("b"), Some(&2));
    assert!(store.get("c").is_none());
}

#[test]
fn versions_are_normalized() {
    assert_eq!(normalize_version(" vv2024.1.2 "), "2024.1.2");
    assert_eq!(normalize_version("openclaw 1.0"), "1.0");
    assert_eq!(normalize_version("vopenclawopenclaw1"), "1");
    assert_eq!(normalize_version("openclawv1"), "v1");
    assert_eq!(normalize_version("1.0-beta"), "1.0-beta");
    assert_eq!(normalize_version(""), "");
}

#[test]
fn versions_are_ordered_by_their_numbers() {
    assert_eq!(version_key("v2026.2.10-beta.3"), vec![2026, 2, 10, 3]);
    assert_eq!(version_key("99999999999999999999.1"), vec![1]);
    assert!(is_later_version("1.10", "1.9"));
    assert!(is_later_version("1.0.1", "1.0"));
    assert!(!is_later_version("1.0", "v1.0"));
    assert!(!is_later_version("1.0", "2.0"));
    assert!(!is_later_version("", "0"));
}

fn show(v: &Json) -> String {
    match v {
        Json::Null => "null".to_string(),
        Json::Bool(b) => b.to_string(),
        Json::Number(JsonNumber::Unsigned(n)) => n.to_string(),
        Json::Number(JsonNumber::Negative(n)) => n.to_string(),
        Json::Number(JsonNumber::Decimal(t)) => t.clone(),
        Json::Str(s) => format!("{:?}", s),
        Json::Array(items) => {
            let parts: Vec<String> = items.iter().map(show).collect();
            format!("[{}]", parts.join(","))
        }
        Json::Object(entries) => {
            let parts: Vec<String> =
                entries.iter().map(|(k, v)| format!("{:?}:{}", k, show(v))).collect();
            format!("{{{}}}", parts.join(","))
        }
    }
}

fn parsed(text: &str) -> Json {
    parse_json(text).unwrap()
}

#[test]
fn json_text_is_parsed() {
    let v = parsed("{\"b\": [1, -2, 1.5, true, null], \"a\": \"x\"}");
    assert_eq!(v.str_at("a"), Some("x"));
    let items = v.array_at("b").unwrap();
    assert_eq!(items.len(), 5);
    assert_eq!(items[0].as_i64(), Some(1));
    assert_eq!(items[1].as_i64(), Some(-2));
    assert_eq!(items[2].as_i64(), None);
    assert_eq!(show(&items[2]), "1.5");
    assert_eq!(items[3].as_bool(), Some(true));
    assert!(matches!(items[4], Json::Null));
    assert!(parse_json("{").is_none());
    assert!(parse_json("").is_none());
    assert!(parse_json("1 2").is_none());
}

#[test]
fn json_numbers_beyond_i64_are_no_i64() {
    assert_eq!(parsed("9223372036854775807").as_i64(), Some(i64::MAX));
    assert_eq!(parsed("9223372036854775808").as_i64(), None);
    assert_eq!(parsed("-9223372036854775808").as_i64(), Some(i64::MIN));
}

#[test]
fn json_lookups() {
    let v = parsed("{\"o\": {\"k\": 3, \"t\": false}}");
    assert_eq!(show(v.get_in("o", "k").unwrap()), "3");
    assert_eq!(v.get("o").unwrap().bool_at("t"), Some(false));
    assert_eq!(v.get("o").unwrap().i64_at("k"), Some(3));
    assert!(v.get("x").is_none());
    assert!(v.get("o").unwrap().get("k").unwrap().get("z").is_none());
    assert!(v.is_object());
    assert!(!parsed("[]").is_object());
}

#[test]
fn json_entry_is_read_back() {
    let mut f = Fields::new();
    f.put("a", Json::Bool(true));
    let mut v = f.object();
    v.set("b", Json::Str("x".to_string()));
    assert_eq!(v.str_at("b"), Some("x"));
    v.set("a", Json::Null);
    assert_eq!(show(&v), "{\"a\":null,\"b\":\"x\"}");
    assert_eq!(v.str_at("b"), Some("x"));
    let mut n = Json::Null;
    n.set("a", Json::Bool(true));
    assert_eq!(show(&n), "null");
}

#[test]
fn json_copies_are_equal() {
    let v = parsed("{\"a\": [{\"b\": [1.25, \"y\"]}]}");
    assert_eq!(show(&v.copy()), show(&v));
}

#[test]
fn times_are_written_in_the_eighth_zone() {
    assert_eq!(show(&format_ts_ms(Some(1_700_000_000_999))), "\"2023-11-15 06:13:20\"");
    assert_eq!(show(&format_ts_ms(Some(1))), "\"1970-01-01 08:00:00\"");
    assert_eq!(show(&format_ts_ms(Some(0))), "null");
    assert_eq!(show(&format_ts_ms(Some(-5))), "null");
    assert_eq!(show(&format_ts_ms(None)), "null");
    assert_eq!(show(&format_ts_ms(Some(i64::MAX))), "null");
}

#[test]
fn spans_are_told_in_words() {
    let now = 1_000_000_000_000i64;
    let told = |ms: i64| show(&humanize_delta_ms(Some(ms), now));
    assert_eq!(told(now), "\"0s\"");
    assert_eq!(told(now + 59_999), "\"59s\"");
    assert_eq!(told(now - 60_000), "\"1m\"");
    assert_eq!(told(now + 3_599_999), "\"59m\"");
    assert_eq!(told(now - 3_600_000), "\"1h\"");
    assert_eq!(told(now + 86_399_999), "\"23h\"");
    assert_eq!(told(now + 86_400_000 * 3), "\"3d\"");
    assert_eq!(show(&humanize_delta_ms(Some(0), now)), "null");
    assert_eq!(show(&humanize_delta_ms(None, now)), "null");
}

#[test]
fn uptime_is_told_in_words() {
    let at = |secs: u64| Moment { secs, nanos: 0 };
    let told = |n: u64| show(&format_uptime(Some(at(100)), at(100 + n)));
    assert_eq!(told(59), "\"59s\"");
    assert_eq!(told(61), "\"1m 1s\"");
    assert_eq!(told(3_600 + 120), "\"1h 2m\"");
    assert_eq!(told(86_400 * 2 + 3_600 * 5), "\"2d 5h\"");
    assert_eq!(show(&format_uptime(Some(at(100)), at(50))), "\"0s\"");
    assert_eq!(show(&format_uptime(None, at(50))), "null");
}

#[test]
fn whole_seconds_between_moments() {
    let a = Moment { secs: 10, nanos: 900_000_000 };
    let b = Moment { secs: 12, nanos: 100_000_000 };
    assert_eq!(seconds_between(a, b), 1);
    assert_eq!(seconds_between(b, a), 0);
}

#[test]
fn current_time_has_microseconds() {
    let now = now_iso();
    assert_eq!(now.len(), 26);
    assert_eq!(&now[10..11], "T");
    assert_eq!(&now[19..20], ".");
    for (i, c) in now.chars().enumerate() {
        match i {
            4 | 7 => assert_eq!(c, '-'),
            10 => assert_eq!(c, 'T'),
            13 | 16 => assert_eq!(c, ':'),
            19 => assert_eq!(c, '.'),
            _ => assert!(c.is_ascii_digit()),
        }
    }
    assert!(now.as_str() > "2020");
}

#[test]
fn identifiers_have_their_form() {
    let id = new_task_id();
    assert_eq!(id.len(), 12);
    assert_eq!(&id[8..9], "-");
    assert_ne!(id, new_task_id());
    let dir = new_restore_dir_name();
    assert!(dir.starts_with("openclaw-restore-"));
    assert_eq!(dir.len(), 17 + 36);
    let backup = new_backup_id();
    assert!(backup.starts_with("backup-20"));
    assert_eq!(backup.len(), 7 + 15);
    assert_eq!(&backup[15..16], "-");
    assert!(backup[7..15].chars().all(|c| c.is_ascii_digit()));
    assert!(backup[16..22].chars().all(|c| c.is_ascii_digit()));
    assert_eq!(backup_id_at("20240501-123000"), "backup-20240501-123000");
}
