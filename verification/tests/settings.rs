use token_monitor::json::Json;
use token_monitor::proxy::{init, ProxyConfig, ProxyState, UpstreamFormat};
use token_monitor::settings::{
    active_profile, apply_profile, check_close_action, check_port, check_upstream,
    choice_step, close_action_reply, close_choice, close_requested_step, crash_entry,
    delete_profile, endpoint, exception_name, first_api_key, overlay_active_profile,
    parse_usize, port_from_config, port_reply, profile_id, save_model_json, save_port_json,
    save_profile, saved_max_concurrency, saved_str, server_info, settings_info, stats_query,
    upstream_reply, uuid_simple, CloseStep, Profile, StatsQuery,
};

fn obj(pairs: Vec<(&str, Json)>) -> Json {
    let mut o = Json::object();
    for (k, v) in pairs {
        o.set(k, v);
    }
    o
}

fn profile(id: &str, key: &str, model: &str, url: &str, max: usize) -> Profile {
    Profile {
        id: id.to_string(),
        name: format!("p-{id}"),
        upstream_url: url.to_string(),
        api_key: key.to_string(),
        model_override: model.to_string(),
        max_concurrency: max,
    }
}

fn base_config() -> ProxyConfig {
    ProxyConfig {
        api_key: "saved".to_string(),
        model_override: "m0".to_string(),
        port: 8188,
        upstream_url: "https://saved".to_string(),
        max_concurrency: 20,
        upstream_format: UpstreamFormat::Responses,
    }
}

#[test]
fn save_profile_updates_in_place_or_appends() {
    let mut ps = vec![profile("a", "k", "", "", 1), profile("b", "", "", "", 2)];
    assert!(save_profile(&mut ps, "b", profile("b", "kb", "", "", 9)));
    assert_eq!(ps.len(), 2);
    assert_eq!(ps[1].api_key, "kb");
    assert_eq!(ps[1].max_concurrency, 9);
    assert!(!save_profile(&mut ps, "b", profile("c", "", "", "", 3)));
    assert_eq!(ps.len(), 3);
    assert_eq!(ps[2].id, "c");
}

#[test]
fn deleting_the_active_profile_activates_the_first_left() {
    let mut ps = vec![profile("a", "", "", "", 1), profile("b", "", "", "", 2), profile("a", "", "", "", 3)];
    let active = delete_profile(&mut ps, "a", "a");
    assert_eq!(ps.len(), 1);
    assert_eq!(ps[0].id, "b");
    assert_eq!(active, "b");
    let active = delete_profile(&mut ps, "x", "b");
    assert!(ps.is_empty());
    assert_eq!(active, "x");
    let mut one = vec![profile("z", "", "", "", 1)];
    assert_eq!(delete_profile(&mut one, "z", "z"), "");
}

#[test]
fn missing_profile_is_reported() {
    let ps = vec![profile("a", "", "", "", 1)];
    assert_eq!(active_profile(&ps, "a"), Ok(0));
    assert_eq!(active_profile(&ps, "q"), Err("配置文件不存在：q".to_string()));
}

#[test]
fn startup_overlay_takes_non_empty_profile_fields() {
    let ps = vec![profile("p", "", "m1", "https://p", 7)];
    let mut cfg = base_config();
    assert!(overlay_active_profile(&mut cfg, &ps, "p"));
    assert_eq!(cfg.api_key, "saved");
    assert_eq!(cfg.model_override, "m1");
    assert_eq!(cfg.upstream_url, "https://p");
    assert_eq!(cfg.max_concurrency, 7);
    let mut cfg = base_config();
    assert!(!overlay_active_profile(&mut cfg, &ps, ""));
    assert!(!overlay_active_profile(&mut cfg, &ps, "other"));
    assert_eq!(cfg.max_concurrency, 20);
}

#[test]
fn applying_a_profile_updates_the_live_config() {
    let mut state = ProxyState::new();
    init(&mut state, base_config());
    apply_profile(&mut state, &profile("p", "", "m9", "https://u9", 4));
    let c = token_monitor::proxy::cfg(&state);
    assert_eq!(c.api_key, "saved");
    assert_eq!(c.model_override, "m9");
    assert_eq!(c.upstream_url, "https://u9");
    assert_eq!(c.max_concurrency, 4);
    apply_profile(&mut state, &profile("p", "k2", "", "", 1));
    assert_eq!(token_monitor::proxy::cfg(&state).api_key, "k2");
    let info = settings_info(&state, "p".to_string());
    assert!(info.has_api_key);
    assert_eq!(info.port, 8188);
    assert_eq!(info.active_profile_id, "p");
    assert_eq!(info.max_concurrency, 1);
}

#[test]
fn saved_values_are_read_with_defaults() {
    let v = obj(vec![
        ("port", Json::number(9000)),
        ("close_action", Json::string("  quit ")),
    ]);
    assert_eq!(port_from_config(&v), 9000);
    assert_eq!(port_from_config(&obj(vec![("port", Json::number(70000))])), 8188);
    assert_eq!(port_from_config(&obj(vec![("port", Json::number(0))])), 8188);
    assert_eq!(port_from_config(&Json::object()), 8188);
    assert_eq!(saved_str(&v, "close_action"), "quit");
    assert_eq!(saved_str(&v, "missing"), "");
    assert_eq!(parse_usize("+12"), Some(12));
    assert_eq!(parse_usize("-1"), None);
    assert_eq!(parse_usize(""), None);
    assert_eq!(saved_max_concurrency("8"), 8);
    assert_eq!(saved_max_concurrency("eight"), 20);
}

#[test]
fn first_non_blank_key_wins() {
    let files = vec![
        obj(vec![("api_key", Json::string("  "))]),
        Json::object(),
        obj(vec![("api_key", Json::string(" sk-2 "))]),
        obj(vec![("api_key", Json::string("sk-3"))]),
    ];
    assert_eq!(first_api_key(&files), "sk-2");
    assert_eq!(first_api_key(&vec![]), "");
}

#[test]
fn close_button_settings() {
    assert_eq!(close_action_reply("").to_text(), "{\"action\":\"ask\"}");
    assert_eq!(close_action_reply("quit").to_text(), "{\"action\":\"quit\"}");
    assert_eq!(check_close_action("minimize").ok().unwrap().to_text(), "{\"action\":\"minimize\"}");
    assert_eq!(
        check_close_action("explode").err().unwrap(),
        "无效值：explode，可选 quit / minimize / ask"
    );
    assert!(close_requested_step("quit") == CloseStep::Quit);
    assert!(close_requested_step("minimize") == CloseStep::Hide);
    assert!(close_requested_step("") == CloseStep::Ask);
    let c = close_choice(&obj(vec![("remember", Json::boolean(true))]));
    assert_eq!(c.choice, "minimize");
    assert!(c.remember);
    assert!(choice_step("quit") == Some(CloseStep::Quit));
    assert!(choice_step("other").is_none());
}

#[test]
fn port_and_upstream_checks() {
    assert_eq!(check_port(0), Err("端口范围 1-65535".to_string()));
    assert_eq!(check_port(1), Ok(()));
    assert_eq!(endpoint(8188), "http://127.0.0.1:8188/v1");
    assert_eq!(port_reply(80).to_text(), "{\"endpoint\":\"http://127.0.0.1:80/v1\",\"port\":80}");
    assert_eq!(check_upstream("  https://x/v1 "), Ok("https://x/v1".to_string()));
    assert_eq!(check_upstream("   "), Ok(String::new()));
    assert_eq!(
        check_upstream("ftp://x"),
        Err("地址必须以 http:// 或 https:// 开头".to_string())
    );
    assert_eq!(upstream_reply("", "https://d").to_text(), "{\"upstream_url\":\"https://d\"}");
}

#[test]
fn saving_port_and_model_keeps_other_fields() {
    let mut v = obj(vec![("x", Json::boolean(true))]);
    save_port_json(&mut v, 9001, "live");
    assert_eq!(v.to_text(), "{\"api_key\":\"live\",\"port\":9001,\"x\":true}");
    save_port_json(&mut v, 9002, "other");
    assert_eq!(v.to_text(), "{\"api_key\":\"live\",\"port\":9002,\"x\":true}");
    let u = save_model_json(&mut v, "  ", " m ");
    assert_eq!(u.api_key, None);
    assert_eq!(u.model_override, "m");
    assert_eq!(v.to_text(), "{\"api_key\":\"live\",\"model_override\":\"m\",\"port\":9002,\"x\":true}");
    let u = save_model_json(&mut v, " k ", "");
    assert_eq!(u.api_key, Some("k".to_string()));
    assert_eq!(
        token_monitor::settings::model_reply(&u).to_text(),
        "{\"has_api_key\":true,\"model_override\":\"\"}"
    );
}

#[test]
fn server_info_lists_endpoints() {
    let cfg = base_config();
    assert_eq!(
        server_info(&cfg).to_text(),
        "{\"endpoint\":\"http://127.0.0.1:8188/v1\",\"endpoints\":[\"/v1/chat/completions\",\"/v1/responses\",\"/v1/messages\"],\"model_override\":\"m0\",\"port\":8188}"
    );
}

#[test]
fn stats_windows() {
    let q = stats_query(5, None, None, 10, 30, 2);
    assert!(matches!(q, StatsQuery::Recent { minutes: 5 }));
    assert!(matches!(stats_query(0, None, None, 10, 30, 2), StatsQuery::Recent { minutes: 630 }));
    assert!(matches!(stats_query(0, None, None, 0, 0, 2), StatsQuery::Recent { minutes: 1 }));
    assert!(matches!(stats_query(-1, None, None, 10, 30, 2), StatsQuery::Recent { minutes: 3510 }));
    assert!(matches!(stats_query(7, None, Some(5), 10, 30, 2), StatsQuery::Recent { minutes: 10 }));
    assert!(matches!(
        stats_query(5, Some(0), Some(600_000), 0, 0, 0),
        StatsQuery::Range { start_ms: 0, end_ms: 600_000, minutes: 10 }
    ));
    assert!(matches!(
        stats_query(5, Some(600_000), Some(0), 0, 0, 0),
        StatsQuery::Range { minutes: 1, .. }
    ));
}

#[test]
fn profile_ids_are_hex_time() {
    assert_eq!(profile_id(0x65a1b2c3, 0x1234_0abc), "65a1b2c3-0abc");
    assert_eq!(profile_id(255, 5), "ff-0005");
    let id = uuid_simple();
    assert!(id.contains('-'));
    let p = Profile::default();
    assert_eq!(p.name, "默认");
    assert_eq!(p.max_concurrency, 20);
}

#[test]
fn crash_entries_name_the_exception() {
    assert_eq!(exception_name(0xC0000005), "ACCESS_VIOLATION");
    assert_eq!(exception_name(1), "UNKNOWN");
    assert_eq!(
        crash_entry("20240101_000000", 0xC00000FD),
        "\n=== SEH CRASH [20240101_000000] ===\nExceptionCode: 0xC00000FD (STACK_OVERFLOW)\nThe application encountered a fatal error and must close.\n"
    );
    assert!(crash_entry("t", 3).contains("0x00000003 (UNKNOWN)"));
}
