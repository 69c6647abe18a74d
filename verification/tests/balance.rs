use token_monitor::balance::{
    balance_json_error, balance_precheck, balance_status_error, clamp_interval, config,
    get_balance_settings, is_official_upstream, load_from_json, normalize, parse_balance,
    parse_currency, save_to_json, set_balance_settings, set_config, summarize, BalanceConfig,
    BalanceStep, BalanceStore, DEFAULT_INTERVAL_SECS,
};
use token_monitor::json::Json;

fn obj(pairs: Vec<(&str, Json)>) -> Json {
    let mut o = Json::object();
    for (k, v) in pairs {
        o.set(k, v);
    }
    o
}

fn member<'a>(v: &'a Json, k: &str) -> &'a Json {
    v.get(k).unwrap()
}

fn info(currency: &str, total: &str, granted: &str, topped: &str) -> Json {
    obj(vec![
        ("currency", Json::string(currency)),
        ("total_balance", Json::string(total)),
        ("granted_balance", Json::string(granted)),
        ("topped_up_balance", Json::string(topped)),
    ])
}

fn load(v: &Json) -> BalanceConfig {
    let mut store = BalanceStore::new();
    load_from_json(&mut store, v)
}

#[test]
fn official_upstream_detection() {
    assert!(is_official_upstream("https://api.deepseek.com/v1/responses"));
    assert!(is_official_upstream("https://api.deepseek.com"));
    assert!(is_official_upstream("https://API.DeepSeek.com/v1"));
    assert!(is_official_upstream("api.deepseek.com/v1"));
    assert!(is_official_upstream("https://api.deepseek.com:443/v1"));
    assert!(!is_official_upstream("https://666sub2.i7a.top/v1/responses"));
    assert!(!is_official_upstream(""));
    assert!(!is_official_upstream("   "));
    assert!(!is_official_upstream("not a url"));
    assert!(!is_official_upstream("https://api.deepseek.com.evil.com/v1"));
    assert!(!is_official_upstream("https://foo.bar/api.deepseek.com"));
}

#[test]
fn parse_single_currency() {
    let body = obj(vec![
        ("is_available", Json::boolean(true)),
        ("balance_infos", Json::array(vec![info("CNY", "110.00", "10.00", "100.00")])),
    ]);
    let out = parse_balance(&body, "CNY");
    assert_eq!(member(&out, "supported").as_bool(), Some(true));
    assert_eq!(member(&out, "available").as_bool(), Some(true));
    assert_eq!(member(&out, "currency").as_str(), Some("CNY"));
    assert_eq!(member(&out, "total").as_str(), Some("110.00"));
    assert_eq!(member(&out, "granted").as_str(), Some("10.00"));
    assert_eq!(member(&out, "topped_up").as_str(), Some("100.00"));
    assert!(member(&out, "reason").is_null());
}

#[test]
fn parse_multi_currency_picks_target() {
    let body = obj(vec![
        ("is_available", Json::boolean(true)),
        (
            "balance_infos",
            Json::array(vec![
                info("USD", "20.00", "2.00", "18.00"),
                info("CNY", "110.00", "10.00", "100.00"),
            ]),
        ),
    ]);
    let cny = parse_balance(&body, "CNY");
    assert_eq!(member(&cny, "available").as_bool(), Some(true));
    assert_eq!(member(&cny, "currency").as_str(), Some("CNY"));
    assert_eq!(member(&cny, "total").as_str(), Some("110.00"));
    assert_eq!(member(&cny, "topped_up").as_str(), Some("100.00"));

    let usd = parse_balance(&body, "USD");
    assert_eq!(member(&usd, "available").as_bool(), Some(true));
    assert_eq!(member(&usd, "currency").as_str(), Some("USD"));
    assert_eq!(member(&usd, "total").as_str(), Some("20.00"));
    assert_eq!(member(&usd, "granted").as_str(), Some("2.00"));
    assert_eq!(member(&usd, "topped_up").as_str(), Some("18.00"));
}

#[test]
fn parse_missing_target_currency() {
    let body = obj(vec![
        ("is_available", Json::boolean(true)),
        ("balance_infos", Json::array(vec![info("USD", "20.00", "2.00", "18.00")])),
    ]);
    let out = parse_balance(&body, "CNY");
    assert_eq!(member(&out, "supported").as_bool(), Some(true));
    assert_eq!(member(&out, "available").as_bool(), Some(false));
    assert_eq!(member(&out, "currency").as_str(), Some("CNY"));
    assert_eq!(member(&out, "reason").as_str(), Some("账号无该币种余额"));
    assert!(out.get("total").is_none());

    let empty = parse_balance(&Json::object(), "CNY");
    assert_eq!(member(&empty, "available").as_bool(), Some(false));
    assert_eq!(member(&empty, "reason").as_str(), Some("账号无该币种余额"));
}

#[test]
fn parse_unavailable_account() {
    let body = obj(vec![
        ("is_available", Json::boolean(false)),
        ("balance_infos", Json::array(vec![info("CNY", "0.00", "0.00", "0.00")])),
    ]);
    let out = parse_balance(&body, "CNY");
    assert_eq!(member(&out, "supported").as_bool(), Some(true));
    assert_eq!(member(&out, "available").as_bool(), Some(false));
    assert_eq!(member(&out, "total").as_str(), Some("0.00"));
}

#[test]
fn config_json_roundtrip() {
    let cfg = BalanceConfig { enabled: true, currency: "USD".to_string(), interval_secs: 30 };
    let mut v = Json::object();
    save_to_json(&mut v, &cfg);
    let b = member(&v, "balance");
    assert_eq!(member(b, "enabled").as_bool(), Some(true));
    assert_eq!(member(b, "currency").as_str(), Some("USD"));
    assert_eq!(member(b, "interval_secs").as_u64(), Some(30));

    let back = load(&v);
    assert_eq!(back.enabled, cfg.enabled);
    assert_eq!(back.currency, cfg.currency);
    assert_eq!(back.interval_secs, cfg.interval_secs);
}

#[test]
fn load_tolerates_missing_and_invalid_fields() {
    let d = load(&Json::object());
    assert!(!d.enabled);
    assert_eq!(d.currency, "CNY");
    assert_eq!(d.interval_secs, DEFAULT_INTERVAL_SECS);
    let p = load(&obj(vec![("balance", obj(vec![("enabled", Json::boolean(true))]))]));
    assert!(p.enabled);
    assert_eq!(p.currency, "CNY");
    assert_eq!(p.interval_secs, DEFAULT_INTERVAL_SECS);
    assert_eq!(
        load(&obj(vec![("balance", obj(vec![("currency", Json::string("usd"))]))])).currency,
        "USD"
    );
    assert_eq!(
        load(&obj(vec![("balance", obj(vec![("currency", Json::string("JPY"))]))])).currency,
        "CNY"
    );
}

#[test]
fn balance_interval_is_clamped() {
    let at = |n: u64| load(&obj(vec![("balance", obj(vec![("interval_secs", Json::number(n))]))]));
    assert_eq!(at(0).interval_secs, 1);
    assert_eq!(at(99999).interval_secs, 1800);
    assert_eq!(at(60).interval_secs, 60);
}

#[test]
fn currency_is_normalized() {
    assert_eq!(parse_currency(" usd "), Some("USD".to_string()));
    assert_eq!(parse_currency("Cny"), Some("CNY".to_string()));
    assert_eq!(parse_currency("eur"), None);
    assert_eq!(clamp_interval(0), 1);
    let n = normalize(BalanceConfig { enabled: true, currency: "usd".to_string(), interval_secs: 0 });
    assert_eq!(n.currency, "USD");
    assert_eq!(n.interval_secs, 1);
    let again = normalize(BalanceConfig { enabled: n.enabled, currency: n.currency.clone(), interval_secs: n.interval_secs });
    assert_eq!(again.currency, n.currency);
    assert_eq!(again.interval_secs, n.interval_secs);
}

#[test]
fn settings_update_keeps_missing_fields_and_refuses_bad_currency() {
    let current = BalanceConfig { enabled: false, currency: "CNY".to_string(), interval_secs: 60 };
    let c = set_balance_settings(&current, &obj(vec![("enabled", Json::boolean(true))])).ok().unwrap();
    assert!(c.enabled);
    assert_eq!(c.currency, "CNY");
    assert_eq!(c.interval_secs, 60);
    let c = set_balance_settings(&current, &obj(vec![("currency", Json::string("usd"))])).ok().unwrap();
    assert_eq!(c.currency, "USD");
    let e = set_balance_settings(&current, &obj(vec![("currency", Json::string(" jpy "))])).err().unwrap();
    assert_eq!(e, "币种仅支持 CNY 或 USD，收到：jpy");

    let mut store = BalanceStore::new();
    set_config(&mut store, c);
    assert_eq!(config(&store).currency, "USD");
    assert_eq!(
        get_balance_settings(&store).to_text(),
        "{\"currency\":\"USD\",\"enabled\":false,\"interval_secs\":60}"
    );
}

#[test]
fn precheck_orders_its_refusals() {
    let mut cfg = BalanceConfig { enabled: false, currency: "CNY".to_string(), interval_secs: 60 };
    match balance_precheck(&cfg, "https://api.deepseek.com", "sk") {
        BalanceStep::Reply(j) => assert_eq!(j.to_text(), "{\"reason\":\"余额查询未开启\",\"supported\":false}"),
        _ => panic!("disabled must answer at once"),
    }
    cfg.enabled = true;
    match balance_precheck(&cfg, "https://relay.example.com", "sk") {
        BalanceStep::Reply(j) => assert_eq!(member(&j, "reason").as_str(), Some("当前上游非 DeepSeek 官方，余额查询不可用")),
        _ => panic!("relay must answer at once"),
    }
    match balance_precheck(&cfg, "https://api.deepseek.com", "  ") {
        BalanceStep::Refuse(m) => assert_eq!(m, "API Key 未配置，无法查询余额"),
        _ => panic!("no key must be refused"),
    }
    match balance_precheck(&cfg, "https://api.deepseek.com", " sk-1 ") {
        BalanceStep::Query(k) => assert_eq!(k, "sk-1"),
        _ => panic!("configured must query"),
    }
}

#[test]
fn error_messages_carry_an_excerpt() {
    assert_eq!(balance_status_error(200, "x"), None);
    assert_eq!(balance_status_error(503, " busy "), Some("余额查询失败（HTTP 503）：busy".to_string()));
    let long: String = std::iter::repeat('a').take(250).collect();
    let s = summarize(&long);
    assert_eq!(s.chars().count(), 201);
    assert!(s.ends_with('…'));
    assert_eq!(balance_json_error("bad", " t "), "余额接口返回不是有效 JSON：bad（t）");
}
