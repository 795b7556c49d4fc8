use openclaw_probe::json::{parse_json, Json, JsonNumber};
use openclaw_probe::token_scanner::{
    entry_usage, estimate_cost, find_pricing, is_session_file, line_usage, model_pricing_json,
    model_pricing_table, needs_scan, normalize_model, read_pricing_table, scan_session_text,
    whole_lines, PricedModel,
};
use openclaw_probe::tokens::{
    build_agent_heatmap_payload, build_agent_names, build_token_summary_payload,
    build_trend_payload, default_days, default_range, AgentModelRow, AgentRow, Counts, DayRow,
    HeatRow, HeatmapQuery, ModelRow, TokenSummary, TrendQuery,
};

fn show(v: &Json) -> String {
    match v {
        Json::Null => "null".to_string(),
        Json::Bool(b) => b.to_string(),
        Json::Number(JsonNumber::Unsigned(n)) => n.to_string(),
        Json::Number(JsonNumber::Negative(n)) => n.to_string(),
        Json::Number(JsonNumber::Decimal(t)) => t.clone(),
        Json::Str(s) => format!("{:?}", s),
        Json::Array(items) => {
            let parts: Vec<String> = items.iter().map(show).collect();
            format!("[{}]", parts.join(","))
        }
        Json::Object(entries) => {
            let parts: Vec<String> =
                entries.iter().map(|(k, v)| format!("{:?}:{}", k, show(v))).collect();
            format!("{{{}}}", parts.join(","))
        }
    }
}

fn parsed(text: &str) -> Json {
    parse_json(text).unwrap()
}

fn table() -> Vec<PricedModel> {
    model_pricing_table(None)
}

#[test]
fn prices_that_are_known() {
    let names: Vec<String> = table().iter().map(|m| m.name.clone()).collect();
    assert_eq!(
        names,
        vec![
            "openai/gpt-5.4",
            "openai/gpt-5.3-codex",
            "openai-codex/gpt-5.3-codex",
            "openai/gpt-4o",
            "openai/gpt-4o-mini",
            "google/gemini-2.5-pro",
        ]
    );
    let p = find_pricing(&table(), "google/gemini-2.5-pro").unwrap();
    assert_eq!((p.input, p.output, p.cache_read, p.cache_write), (1_250, 10_000, 315, 1_250));
}

#[test]
fn prices_are_reported_in_dollars() {
    let json = model_pricing_json(&table());
    assert_eq!(
        show(json.get("openai/gpt-4o-mini").unwrap()),
        "{\"input\":0.150,\"output\":0.600,\"cache_read\":0.075,\"cache_write\":0.150}"
    );
    assert_eq!(json.as_object().unwrap().len(), 6);
}

#[test]
fn listed_prices_come_first() {
    let list = "{\"x/m\": {\"input\": 15000, \"output\": 75000, \"cache_read\": 1500, \"cache_write\": 18750}, \
                \"bad\": {\"input\": 1}, \"neg\": {\"input\": -1, \"output\": 1, \"cache_read\": 1, \"cache_write\": 1}, \
                \"openai/gpt-4o\": {\"input\": 1, \"output\": 2, \"cache_read\": 3, \"cache_write\": 4}}";
    let prices = read_pricing_table(Some(list));
    assert_eq!(prices.len(), 7);
    assert_eq!(estimate_cost(&prices, Some("x/m"), 1_000, 100, 10, 4), 15_000 + 7_500 + 15 + 75);
    assert_eq!(find_pricing(&prices, "openai/gpt-4o").unwrap().output, 2);
    assert_eq!(read_pricing_table(Some("not json")).len(), 6);
    assert_eq!(read_pricing_table(Some("[]")).len(), 6);
    assert_eq!(read_pricing_table(None).len(), 6);
}

#[test]
fn reported_prices_are_charged() {
    let list = "{\"openai/gpt-4o\": {\"input\": 1000, \"output\": 2000, \"cache_read\": 3000, \"cache_write\": 4000}, \
                \"openai/gpt-4o\": {\"input\": 9, \"output\": 9, \"cache_read\": 9, \"cache_write\": 9}}";
    let prices = read_pricing_table(Some(list));
    assert_eq!(prices.iter().filter(|m| m.name == "openai/gpt-4o").count(), 1);
    let p = find_pricing(&prices, "openai/gpt-4o").unwrap();
    assert_eq!(estimate_cost(&prices, Some("openai/gpt-4o"), 1_000, 0, 0, 0), p.input as i128);
    let json = model_pricing_json(&prices);
    assert_eq!(json.as_object().unwrap().len(), 6);
    assert_eq!(
        show(json.get("openai/gpt-4o").unwrap().get("input").unwrap()),
        format!("{}.{:03}", p.input / 1_000, p.input % 1_000)
    );
}

#[test]
fn models_are_priced_by_name_or_likeness() {
    let t = table();
    assert_eq!(find_pricing(&t, "openai/gpt-4o-mini").unwrap().input, 150);
    assert_eq!(find_pricing(&t, "openai/gpt-4o").unwrap().input, 2_500);
    assert_eq!(find_pricing(&t, "openai/gpt-4o-2024").unwrap().input, 2_500);
    assert_eq!(find_pricing(&t, "gemini-2.5-pro").unwrap().input, 1_250);
    assert!(find_pricing(&t, "nobody/nothing").is_none());
}

#[test]
fn a_model_has_one_price() {
    let a = find_pricing(&table(), "openai/gpt-5.3-codex");
    let b = find_pricing(&table(), "openai/gpt-5.3-codex");
    assert_eq!(a, b);
    assert_eq!(a.unwrap().output, 10_000);
}

#[test]
fn costs_in_millionths() {
    let t = table();
    assert_eq!(estimate_cost(&t, Some("openai/gpt-4o"), 1_000, 2_000, 300, 40), 22_975);
    assert_eq!(estimate_cost(&t, Some("openai/gpt-4o-mini"), 0, 0, 20, 0), 2);
    assert_eq!(estimate_cost(&t, Some("openai/gpt-4o-mini"), 0, 0, 6, 0), 0);
    assert_eq!(estimate_cost(&t, Some("openai/gpt-4o-mini"), 0, 0, -20, 0), -2);
    assert_eq!(estimate_cost(&t, Some(""), 5, 5, 5, 5), 0);
    assert_eq!(estimate_cost(&t, None, 5, 5, 5, 5), 0);
    assert_eq!(estimate_cost(&t, Some("nobody/nothing"), 5, 5, 5, 5), 0);
}

#[test]
fn models_are_named_with_their_provider() {
    let n = |p: Option<&str>, m: Option<&str>| normalize_model(p, m);
    assert_eq!(n(Some("openai"), Some("gpt")), Some("openai/gpt".to_string()));
    assert_eq!(n(Some("openai"), Some("x/gpt")), Some("x/gpt".to_string()));
    assert_eq!(n(Some(""), Some("gpt")), Some("gpt".to_string()));
    assert_eq!(n(None, Some("gpt")), Some("gpt".to_string()));
    assert_eq!(n(Some("openai"), Some("")), None);
    assert_eq!(n(Some("openai"), None), None);
}

#[test]
fn named_models_keep_their_name() {
    let once = normalize_model(Some("p"), Some("m")).unwrap();
    assert_eq!(normalize_model(Some("p"), Some(&once)), Some(once.clone()));
    assert_eq!(normalize_model(None, Some(&once)), Some(once));
}

#[test]
fn usage_is_read_from_entries() {
    let u = entry_usage(&parsed(
        "{\"timestamp\": \"T\", \"message\": {\"provider\": \"p\", \"model\": \"m\", \
          \"usage\": {\"input\": 1, \"output_tokens\": 2, \"cacheRead\": 3, \"cache_creation_input_tokens\": 4}}}",
    ))
    .unwrap();
    assert_eq!(u.timestamp, "T");
    assert_eq!(u.model, Some("p/m".to_string()));
    assert_eq!((u.input_tokens, u.output_tokens), (1, 2));
    assert_eq!((u.cache_read_tokens, u.cache_write_tokens), (3, 4));
}

#[test]
fn usage_keys_have_an_order_and_zeros_are_passed_over() {
    let u = entry_usage(&parsed(
        "{\"responseUsage\": {\"inputTokens\": 0, \"input_tokens\": 5, \"input\": 9, \"outputTokens\": \"x\"}, \
          \"message\": {\"usage\": {\"input\": 77}}, \"responseModel\": \"m\", \"responseProvider\": \"q\"}",
    ))
    .unwrap();
    assert_eq!(u.timestamp, "");
    assert_eq!(u.input_tokens, 5);
    assert_eq!(u.output_tokens, 0);
    assert_eq!(u.model, Some("q/m".to_string()));
}

#[test]
fn entries_without_usage_tell_nothing() {
    assert!(entry_usage(&parsed("{}")).is_none());
    assert!(entry_usage(&parsed("{\"responseUsage\": 3, \"message\": {\"usage\": {}}}")).is_none());
    assert!(entry_usage(&parsed("[1]")).is_none());
    let u = entry_usage(&parsed("{\"responseUsage\": {}}")).unwrap();
    assert_eq!(u.model, None);
    assert_eq!(u.input_tokens, 0);
}

#[test]
fn lines_that_are_no_json_are_passed_over() {
    assert!(line_usage("   ").is_none());
    assert!(line_usage("{\"responseUsage\": ").is_none());
    assert_eq!(line_usage("  {\"responseUsage\": {\"input\": 8}}  ").unwrap().input_tokens, 8);
}

#[test]
fn session_text_is_scanned_from_an_offset() {
    let text = "{\"responseUsage\": {\"input\": 1}}\n\nnot json\n{\"responseUsage\": {\"input\": 2}}\n{\"é\": 1}\n";
    let (usages, offset) = scan_session_text(text, 100);
    assert_eq!(usages.len(), 2);
    assert_eq!(usages[1].input_tokens, 2);
    assert_eq!(offset, 100 + text.len() as i64);
    let (usages, offset) = scan_session_text("", 7);
    assert!(usages.is_empty());
    assert_eq!(offset, 7);
}

#[test]
fn scanning_in_parts_finds_the_same() {
    let first = "{\"responseUsage\": {\"input\": 1}}\n{\"x\": 1}\n";
    let second = "{\"responseUsage\": {\"input\": 3}}\n";
    let (a, o1) = scan_session_text(first, 0);
    let (b, o2) = scan_session_text(second, o1);
    let (all, o) = scan_session_text(&format!("{}{}", first, second), 0);
    assert_eq!(o2, o);
    assert_eq!(a.len() + b.len(), all.len());
    assert_eq!(all[1].input_tokens, b[0].input_tokens);
}

#[test]
fn broken_off_lines_are_left_out() {
    assert_eq!(whole_lines("a\nbé\nc"), "a\nbé\n");
    assert_eq!(whole_lines("a\n"), "a\n");
    assert_eq!(whole_lines("abc"), "");
    assert_eq!(whole_lines(""), "");
}

#[test]
fn files_that_are_scanned() {
    assert!(is_session_file("/a/s.jsonl"));
    assert!(!is_session_file("/a/s.json"));
    assert!(!is_session_file("/a/.jsonl"));
    assert!(needs_scan(10, 9));
    assert!(!needs_scan(10, 10));
    assert!(!needs_scan(3, 10));
}

fn counts(input: i64, output: i64, cache_read: i64, cache_write: i64) -> Counts {
    Counts { input, output, cache_read, cache_write }
}

fn text(s: &str) -> Option<String> {
    Some(s.to_string())
}

#[test]
fn agents_are_named() {
    let infos = vec![
        parsed("{\"name\": \"i\", \"agents\": [{\"id\": \"a\", \"name\": \"A\"}, {\"id\": \"b\"}, {\"id\": \"\"}, {\"id\": \"a\", \"name\": \"B\"}]}"),
        parsed("{\"name\": \"\", \"agents\": [{\"id\": \"c\"}]}"),
        parsed("{\"name\": \"j\"}"),
    ];
    let names = build_agent_names(&infos);
    assert_eq!(names.len(), 3);
    assert_eq!(names[1].name, "b");
}

#[test]
fn last_name_is_shown() {
    let infos = vec![parsed(
        "{\"name\": \"i\", \"agents\": [{\"id\": \"a\", \"name\": \"A\"}, {\"id\": \"a\", \"name\": \"B\"}]}",
    )];
    let names = build_agent_names(&infos);
    let rows = vec![
        HeatRow { instance_name: "i".to_string(), agent_id: text("a"), hour: 3, total_tokens: 9, event_count: 2, active_days: 1 },
        HeatRow { instance_name: "i".to_string(), agent_id: text("z"), hour: 4, total_tokens: 1, event_count: 1, active_days: 1 },
        HeatRow { instance_name: "i".to_string(), agent_id: None, hour: 5, total_tokens: 0, event_count: 1, active_days: 1 },
    ];
    let heat = build_agent_heatmap_payload("7d", &rows, &names);
    assert_eq!(heat.str_at("range"), Some("7d"));
    assert_eq!(heat.str_at("timezone"), Some("Asia/Shanghai"));
    let hours = heat.array_at("hours").unwrap();
    assert_eq!(hours.len(), 24);
    assert_eq!(hours[23].as_i64(), Some(23));
    let shown = heat.array_at("rows").unwrap();
    assert_eq!(
        show(&shown[0]),
        "{\"instance_name\":\"i\",\"agent_id\":\"a\",\"hour\":3,\"total_tokens\":9,\
         \"event_count\":2,\"active_days\":1,\"agent_name\":\"B\"}"
    );
    assert_eq!(shown[1].str_at("agent_name"), Some("z"));
    assert_eq!(shown[2].str_at("agent_name"), Some(""));
}

fn summary() -> TokenSummary {
    TokenSummary {
        totals: counts(1, 2, 3, 4),
        by_model: vec![
            ModelRow { model: text("openai/gpt-4o"), counts: counts(1_000_000, 0, 0, 0) },
            ModelRow { model: None, counts: counts(5, 0, 0, 0) },
            ModelRow { model: text("openai/gpt-4o-mini"), counts: counts(333, 0, 0, 0) },
        ],
        by_agent: vec![AgentRow { instance_name: "i".to_string(), agent_id: text("a"), counts: counts(9, 8, 7, 6) }],
        by_agent_model: vec![
            AgentModelRow {
                instance_name: "i".to_string(),
                agent_id: text("a"),
                model: text("openai/gpt-4o"),
                counts: counts(100, 0, 0, 0),
            },
            AgentModelRow {
                instance_name: "i".to_string(),
                agent_id: text("b"),
                model: text("openai/gpt-4o"),
                counts: counts(100, 0, 0, 0),
            },
            AgentModelRow {
                instance_name: "i".to_string(),
                agent_id: text("a"),
                model: text("google/gemini-2.5-pro"),
                counts: counts(0, 10, 0, 0),
            },
        ],
        today_total: 42,
    }
}

#[test]
fn usage_is_summed_up() {
    let s = summary();
    let names = Vec::new();
    let json = build_token_summary_payload(&table(), Some(&s), &names);
    assert_eq!(
        show(json.get("totals").unwrap()),
        "{\"total_input\":1,\"total_output\":2,\"total_cache_read\":3,\"total_cache_write\":4}"
    );
    let models = json.array_at("by_model").unwrap();
    assert_eq!(show(models[0].get("estimated_cost").unwrap()), "2.500000");
    assert_eq!(show(models[1].get("estimated_cost").unwrap()), "0.000000");
    assert_eq!(show(models[2].get("estimated_cost").unwrap()), "0.000050");
    assert_eq!(
        show(&json.array_at("by_agent").unwrap()[0]),
        "{\"instance_name\":\"i\",\"agent_id\":\"a\",\"input_tokens\":9,\"output_tokens\":8,\
         \"cache_read_tokens\":7,\"cache_write_tokens\":6,\"agent_name\":\"a\",\
         \"estimated_cost\":0.000350}"
    );
    assert_eq!(show(json.get("today_total").unwrap()), "42");
    assert_eq!(show(json.get("total_estimated_cost").unwrap()), "2.5001");
    assert!(json.get("by_agent_model").is_none());
    assert_eq!(show(&build_token_summary_payload(&table(), None, &names)), "null");
}

#[test]
fn agent_costs_add_up() {
    let mut s = summary();
    let cost = |s: &TokenSummary| {
        let json = build_token_summary_payload(&table(), Some(s), &Vec::new());
        show(json.array_at("by_agent").unwrap()[0].get("estimated_cost").unwrap())
    };
    assert_eq!(cost(&s), "0.000350");
    s.by_agent_model.push(AgentModelRow {
        instance_name: "i".to_string(),
        agent_id: text("a"),
        model: text("openai/gpt-5.4"),
        counts: counts(1_000, 0, 0, 0),
    });
    assert_eq!(cost(&s), "0.002350");
    s.by_agent_model.push(AgentModelRow {
        instance_name: "j".to_string(),
        agent_id: text("a"),
        model: text("openai/gpt-5.4"),
        counts: counts(1_000, 0, 0, 0),
    });
    assert_eq!(cost(&s), "0.002350");
}

#[test]
fn days_have_no_cost() {
    let rows = vec![DayRow { date: "2024-05-01".to_string(), counts: counts(1, 2, 3, 4) }];
    assert_eq!(
        show(&build_trend_payload(&rows, 7)),
        "{\"trend\":[{\"date\":\"2024-05-01\",\"input_tokens\":1,\"output_tokens\":2,\
         \"cache_read_tokens\":3,\"cache_write_tokens\":4,\"estimated_cost\":0.000000}],\"days\":7}"
    );
}

#[test]
fn queries_are_kept_in_bounds() {
    assert_eq!(TrendQuery { days: 0 }.shown_days(), 1);
    assert_eq!(TrendQuery { days: 91 }.shown_days(), 90);
    assert_eq!(TrendQuery { days: 30 }.shown_days(), 30);
    assert_eq!(default_days(), 7);
    let range = |s: &str| HeatmapQuery { range_key: s.to_string() }.shown_range().to_string();
    assert_eq!(range("14d"), "14d");
    assert_eq!(range("7d"), "7d");
    assert_eq!(range("30d"), "today");
    assert_eq!(default_range(), "today");
}
