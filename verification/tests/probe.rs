use token_monitor::json::Json;
use token_monitor::probe::{
    answered, classify, clamp_interval, config, get_probe_settings, load_from_json,
    parse_settings, precheck, probe_payload, save_to_json, set_config, set_probe_settings,
    settings_json, unreachable_result, ProbeConfig, ProbeStore, DEFAULT_INTERVAL_SECS,
    MAX_INTERVAL_SECS, MIN_INTERVAL_SECS,
};
use token_monitor::proxy::UpstreamFormat;

fn obj(pairs: Vec<(&str, Json)>) -> Json {
    let mut o = Json::object();
    for (k, v) in pairs {
        o.set(k, v);
    }
    o
}

fn member<'a>(v: &'a Json, k: &str) -> &'a Json {
    v.get(k).unwrap()
}

#[test]
fn default_config_enabled_with_15s() {
    let cfg = ProbeConfig::default();
    assert!(cfg.enabled);
    assert_eq!(cfg.interval_secs, DEFAULT_INTERVAL_SECS);
}

#[test]
fn json_roundtrip_keeps_values() {
    let mut store = ProbeStore::new();
    let cfg = ProbeConfig { enabled: false, interval_secs: 42 };
    let mut v = obj(vec![("api_key", Json::string("sk-x"))]);
    save_to_json(&mut v, &cfg);
    assert_eq!(member(&v, "api_key").as_str(), Some("sk-x"));
    assert_eq!(member(member(&v, "probe"), "enabled").as_bool(), Some(false));
    assert_eq!(member(member(&v, "probe"), "interval_secs").as_u64(), Some(42));

    let back = load_from_json(&mut store, &v);
    assert!(!back.enabled);
    assert_eq!(back.interval_secs, 42);
    assert_eq!(member(&settings_json(&back), "interval_secs").as_u64(), Some(42));
}

#[test]
fn load_from_json_tolerates_missing_fields() {
    let mut store = ProbeStore::new();

    let c = load_from_json(&mut store, &Json::object());
    assert!(c.enabled);
    assert_eq!(c.interval_secs, DEFAULT_INTERVAL_SECS);

    let c = load_from_json(&mut store, &obj(vec![("probe", Json::object())]));
    assert!(c.enabled);
    assert_eq!(c.interval_secs, DEFAULT_INTERVAL_SECS);

    let c = load_from_json(
        &mut store,
        &obj(vec![("probe", obj(vec![("enabled", Json::boolean(false))]))]),
    );
    assert!(!c.enabled);
    assert_eq!(c.interval_secs, DEFAULT_INTERVAL_SECS);

    let c = load_from_json(
        &mut store,
        &obj(vec![(
            "probe",
            obj(vec![
                ("enabled", Json::string("yes")),
                ("interval_secs", Json::number_i64(-1)),
            ]),
        )]),
    );
    assert!(c.enabled);
    assert_eq!(c.interval_secs, DEFAULT_INTERVAL_SECS);
}

#[test]
fn probe_interval_is_clamped() {
    assert_eq!(clamp_interval(0), MIN_INTERVAL_SECS);
    assert_eq!(clamp_interval(99999), MAX_INTERVAL_SECS);
    assert_eq!(clamp_interval(1), 1);
    assert_eq!(clamp_interval(15), 15);
    assert_eq!(clamp_interval(1800), 1800);

    let mut store = ProbeStore::new();
    let c = load_from_json(
        &mut store,
        &obj(vec![("probe", obj(vec![("interval_secs", Json::number(0))]))]),
    );
    assert_eq!(c.interval_secs, 1);
    let c = load_from_json(
        &mut store,
        &obj(vec![("probe", obj(vec![("interval_secs", Json::number(99999))]))]),
    );
    assert_eq!(c.interval_secs, 1800);

    set_config(&mut store, ProbeConfig { enabled: false, interval_secs: 99999 });
    assert_eq!(config(&store).interval_secs, MAX_INTERVAL_SECS);
}

#[test]
fn set_config_updates_global() {
    let mut store = ProbeStore::new();
    set_config(&mut store, ProbeConfig { enabled: false, interval_secs: 30 });
    let c = config(&store);
    assert!(!c.enabled);
    assert_eq!(c.interval_secs, 30);

    let s = settings_json(&config(&store));
    assert_eq!(member(&s, "enabled").as_bool(), Some(false));
    assert_eq!(member(&s, "interval_secs").as_u64(), Some(30));
}

#[test]
fn classify_maps_status_code() {
    assert_eq!(classify(200), (true, "连接成功（HTTP 200）".to_string()));
    assert_eq!(classify(204), (true, "连接成功（HTTP 204）".to_string()));
    assert_eq!(classify(401), (false, "服务返回 HTTP 401".to_string()));
    assert_eq!(classify(500), (false, "服务返回 HTTP 500".to_string()));
    assert_eq!(classify(0), (false, "服务返回 HTTP 0".to_string()));
}

#[test]
fn precheck_short_circuits_without_request() {
    let v = precheck(false, "", "").expect("未开启应直接返回结果");
    assert_eq!(member(&v, "success").as_bool(), Some(false));
    assert_eq!(member(&v, "status_code").as_u64(), Some(0));
    assert_eq!(member(&v, "latency_ms").as_u64(), Some(0));
    assert_eq!(member(&v, "message").as_str(), Some("探针未开启"));

    let v = precheck(true, "   ", "sk-x").expect("空地址应直接返回结果");
    assert_eq!(member(&v, "message").as_str(), Some("上游地址未配置"));

    let v = precheck(true, "https://api.example.com", "  ").expect("空 Key 应直接返回结果");
    assert_eq!(member(&v, "message").as_str(), Some("API Key 未配置"));

    assert!(precheck(true, "https://api.example.com", "sk-x").is_none());
}

#[test]
fn set_probe_settings_parses_and_clamps() {
    let base = ProbeConfig { enabled: true, interval_secs: 60 };
    let c = parse_settings(&obj(vec![("enabled", Json::boolean(false))]), &base);
    assert!(!c.enabled);
    assert_eq!(c.interval_secs, 60);

    let c = parse_settings(&obj(vec![("interval_secs", Json::number(0))]), &base);
    assert_eq!(c.interval_secs, 1);
    let c = parse_settings(&obj(vec![("interval_secs", Json::number(99999))]), &base);
    assert_eq!(c.interval_secs, 1800);
}

#[test]
fn settings_round_through_the_store() {
    let mut store = ProbeStore::new();
    assert_eq!(get_probe_settings(&store).to_text(), "{\"enabled\":true,\"interval_secs\":15}");
    let c = set_probe_settings(&store, &obj(vec![("interval_secs", Json::number(5000))]));
    assert_eq!(c, ProbeConfig { enabled: true, interval_secs: 1800 });
    set_config(&mut store, c);
    assert_eq!(config(&store), ProbeConfig { enabled: true, interval_secs: 1800 });
}

#[test]
fn probe_results_carry_status_and_latency() {
    assert_eq!(
        answered(200, 12).to_text(),
        "{\"latency_ms\":12,\"message\":\"连接成功（HTTP 200）\",\"status_code\":200,\"success\":true}"
    );
    assert_eq!(
        unreachable_result("timeout", 7).to_text(),
        "{\"latency_ms\":7,\"message\":\"连接失败：timeout\",\"status_code\":0,\"success\":false}"
    );
}

#[test]
fn probe_payload_fits_each_format() {
    let r = probe_payload(UpstreamFormat::Responses, "m").to_text();
    assert!(r.contains("\"model\":\"m\""));
    assert!(r.contains("\"input\""));
    let c = probe_payload(UpstreamFormat::ChatCompletions, "m").to_text();
    assert!(c.contains("\"messages\""));
    let a = probe_payload(UpstreamFormat::Anthropic, "m").to_text();
    assert!(a.contains("\"max_tokens\""));
}
