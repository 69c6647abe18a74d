use token_monitor::codeg::{
    apply_snapshot, api_status_error, api_target, codeg_precheck, conversation_titles,
    is_error, is_running, is_stopped, load_from_json, new_summary, plan_recovery,
    record_restart, save_to_json, session_action, session_counts, session_name, update_config,
    waiting_label, ActivityMap, CodegConfig, CodegConnection, CodegConversationTitle,
    CodegSessionSummary, CodegSnapshot, CodegStore, LiveContentBlock, LiveMessageInfo,
    RecoveryClock,
};
use token_monitor::json::Json;

#[test]
fn status_classification_is_stable() {
    assert!(is_running("prompting"));
    assert!(is_running("connecting"));
    assert!(!is_running("connected"));
    assert!(is_stopped("disconnected"));
    assert!(!is_stopped("error"));
    assert!(is_error("error"));
    assert!(!is_error("disconnected"));
}

#[test]
fn recovery_is_rate_limited_to_minute_interval() {
    let mut clock = RecoveryClock::new();
    assert!(clock.should_run_recovery());
    assert!(!clock.should_run_recovery());
}

#[test]
fn recovery_runs_again_after_a_minute() {
    let mut clock = RecoveryClock::new();
    assert!(clock.should_run_recovery_at(1_000));
    assert!(!clock.should_run_recovery_at(60_999));
    assert!(clock.should_run_recovery_at(61_000));
    assert_eq!(clock.last, Some(61_000));
}

fn obj(pairs: Vec<(&str, Json)>) -> Json {
    let mut o = Json::object();
    for (k, v) in pairs {
        o.set(k, v);
    }
    o
}

#[test]
fn default_config_points_at_local_server() {
    let c = CodegConfig::default();
    assert!(!c.enabled);
    assert_eq!(c.server_url, "http://127.0.0.1:3080");
    assert_eq!(c.token, "");
    assert!(c.auto_recovery);
    assert_eq!(c.inactivity_timeout_secs, 120);
    assert!(!c.configured());
}

#[test]
fn load_reads_fields_trims_and_clamps() {
    let mut store = CodegStore::new();
    let v = obj(vec![(
        "codeg",
        obj(vec![
            ("enabled", Json::boolean(true)),
            ("server_url", Json::string("  http://host:1/  ")),
            ("token", Json::string("tok")),
            ("auto_recovery", Json::boolean(false)),
            ("inactivity_timeout_secs", Json::number(3)),
        ]),
    )]);
    let c = load_from_json(&mut store, &v);
    assert!(c.enabled);
    assert_eq!(c.server_url, "http://host:1/");
    assert_eq!(c.token, "tok");
    assert!(!c.auto_recovery);
    assert_eq!(c.inactivity_timeout_secs, 10);
    assert_eq!(store.cfg.server_url, "http://host:1/");

    let blank = obj(vec![("codeg", obj(vec![("server_url", Json::string("   "))]))]);
    let c = load_from_json(&mut store, &blank);
    assert_eq!(c.server_url, "http://127.0.0.1:3080");
    assert!(c.auto_recovery);
    assert_eq!(c.inactivity_timeout_secs, 120);
}

#[test]
fn save_then_load_keeps_settings() {
    let mut store = CodegStore::new();
    let cfg = CodegConfig {
        enabled: true,
        server_url: " http://x:9 ".to_string(),
        token: "t".to_string(),
        auto_recovery: false,
        inactivity_timeout_secs: 300,
    };
    let mut v = obj(vec![("api_key", Json::string("sk"))]);
    save_to_json(&mut v, &cfg);
    assert_eq!(
        v.to_text(),
        "{\"api_key\":\"sk\",\"codeg\":{\"auto_recovery\":false,\"enabled\":true,\"inactivity_timeout_secs\":300,\"server_url\":\"http://x:9\",\"token\":\"t\"}}"
    );
    let back = load_from_json(&mut store, &v);
    assert!(back.enabled);
    assert_eq!(back.server_url, "http://x:9");
    assert_eq!(back.inactivity_timeout_secs, 300);
    let same = update_config(&mut store, back);
    assert_eq!(same.token, "t");
}

#[test]
fn api_target_checks_and_joins() {
    let mut cfg = CodegConfig::default();
    cfg.token = "  abc ".to_string();
    cfg.server_url = "http://h:1//".to_string();
    let t = api_target(&cfg, "health").ok().unwrap();
    assert_eq!(t.url, "http://h:1/api/health");
    assert_eq!(t.token, "abc");
    cfg.token = " ".to_string();
    assert_eq!(api_target(&cfg, "health").err().unwrap(), "Codeg 服务器 Token 未配置");
    cfg.server_url = "".to_string();
    assert_eq!(api_target(&cfg, "health").err().unwrap(), "Codeg 服务器地址未配置");
}

#[test]
fn api_status_errors_name_the_status() {
    assert_eq!(api_status_error(200, "x"), None);
    assert_eq!(
        api_status_error(401, " no "),
        Some("Codeg Token 无效或未授权（HTTP 401）：no".to_string())
    );
    assert_eq!(
        api_status_error(500, "boom"),
        Some("Codeg 接口错误（HTTP 500）：boom".to_string())
    );
}

#[test]
fn session_actions_plan_their_calls() {
    let stop = session_action("stop", "c1", None).ok().unwrap();
    assert_eq!(stop.len(), 1);
    assert_eq!(stop[0].command, "acp_cancel");
    assert_eq!(stop[0].body.to_text(), "{\"connectionId\":\"c1\"}");

    let restart = session_action("restart", "c1", None).ok().unwrap();
    assert_eq!(restart.len(), 2);
    assert_eq!(restart[0].command, "acp_cancel");
    assert_eq!(restart[1].command, "acp_prompt");
    assert_eq!(
        restart[1].body.to_text(),
        "{\"blocks\":[{\"text\":\"继续\",\"type\":\"text\"}],\"connectionId\":\"c1\"}"
    );

    let resume = session_action("resume", "c2", Some("go")).ok().unwrap();
    assert_eq!(
        resume[1].body.to_text(),
        "{\"blocks\":[{\"text\":\"go\",\"type\":\"text\"}],\"connectionId\":\"c2\"}"
    );

    let disc = session_action("disconnect", "c3", None).ok().unwrap();
    assert_eq!(disc[0].command, "acp_disconnect");

    assert_eq!(
        session_action("explode", "c1", None).err().unwrap(),
        "不支持的 Codeg 会话操作：explode"
    );
}

fn conn(id: &str, status: &str) -> CodegConnection {
    CodegConnection {
        id: id.to_string(),
        agent_type: "codex".to_string(),
        status: status.to_string(),
    }
}

#[test]
fn snapshot_fills_the_summary() {
    let mut s = new_summary(&conn("c1", "connected"));
    let mut snap = CodegSnapshot::empty();
    snap.status = Some("prompting".to_string());
    snap.pending_permission = true;
    snap.live_message = Some(LiveMessageInfo {
        content: vec![
            LiveContentBlock::Text(" hello".to_string()),
            LiveContentBlock::Other,
            LiveContentBlock::Thinking("world ".to_string()),
        ],
    });
    assert_eq!(waiting_label(&snap), Some("permission".to_string()));
    apply_snapshot(&mut s, &snap);
    assert_eq!(s.status, "prompting");
    assert_eq!(s.latest_reply, "hello\nworld");
    assert_eq!(s.waiting_for, Some("permission".to_string()));
}

fn title_row(id: Option<i32>, ext: Option<&str>, title: Option<&str>, name: Option<&str>) -> CodegConversationTitle {
    CodegConversationTitle {
        id,
        external_id: ext.map(|s| s.to_string()),
        title: title.map(|s| s.to_string()),
        name: name.map(|s| s.to_string()),
        session_name: None,
    }
}

#[test]
fn titles_are_keyed_by_external_id_or_id() {
    let rows = vec![
        title_row(Some(1), Some("e1"), Some("First"), None),
        title_row(Some(2), None, None, Some("Second")),
        title_row(Some(3), Some(""), Some("  "), Some("ignored")),
        title_row(Some(-4), Some(""), Some("Neg"), None),
        title_row(None, Some("e1"), Some("Newer"), None),
    ];
    let m = conversation_titles(&rows);
    assert_eq!(m.get("e1"), Some(&"Newer".to_string()));
    assert_eq!(m.get("2"), Some(&"Second".to_string()));
    assert_eq!(m.get("3"), None);
    assert_eq!(m.get("-4"), Some(&"Neg".to_string()));
    let eid = "e1".to_string();
    assert_eq!(session_name(&m, Some(&eid), "codex"), "Newer");
    let other = "zz".to_string();
    assert_eq!(session_name(&m, Some(&other), "codex"), "codex");
    assert_eq!(session_name(&m, None, "codex"), "codex");
}

fn running_summary(id: &str) -> CodegSessionSummary {
    new_summary(&conn(id, "prompting"))
}

#[test]
fn silent_running_session_is_restarted_after_threshold() {
    let mut activity = ActivityMap::new();
    let snap = CodegSnapshot::empty();
    let mut reason = None;
    for _ in 0..2 {
        let mut s = running_summary("c1");
        reason = plan_recovery(&mut s, &snap, &mut activity, true, 10, 123);
        assert_eq!(s.last_activity_at, Some(123));
    }
    assert_eq!(
        reason,
        Some("活跃会话 10 秒无输出，触发自动停止并重启".to_string())
    );
    let mut s = running_summary("c1");
    let r = plan_recovery(&mut s, &snap, &mut activity, true, 120, 5);
    assert_eq!(r, None);
    assert_eq!(s.idle_secs, 15);
}

#[test]
fn activity_resets_the_idle_count() {
    let mut activity = ActivityMap::new();
    let quiet = CodegSnapshot::empty();
    let mut busy = CodegSnapshot::empty();
    busy.usage_used = Some(7);
    let mut s = running_summary("c1");
    plan_recovery(&mut s, &quiet, &mut activity, true, 10, 1);
    let mut s = running_summary("c1");
    assert_eq!(plan_recovery(&mut s, &busy, &mut activity, true, 10, 2), None);
    assert_eq!(s.idle_secs, 0);
    assert_eq!(s.last_activity_at, None);
    let mut s = running_summary("c1");
    plan_recovery(&mut s, &quiet, &mut activity, true, 10, 3);
    assert_eq!(s.idle_secs, 5);
}

#[test]
fn failed_and_stopped_sessions_are_restarted() {
    let mut activity = ActivityMap::new();
    let snap = CodegSnapshot::empty();
    let mut s = new_summary(&conn("e", "error"));
    assert_eq!(
        plan_recovery(&mut s, &snap, &mut activity, true, 120, 0),
        Some("Codeg 会话进入错误状态（error）".to_string())
    );
    let mut s = new_summary(&conn("d", "disconnected"));
    assert_eq!(
        plan_recovery(&mut s, &snap, &mut activity, true, 120, 0),
        Some("Codeg 会话已停止（disconnected），尝试重启".to_string())
    );
    let mut s = new_summary(&conn("e", "error"));
    assert_eq!(plan_recovery(&mut s, &snap, &mut activity, false, 120, 0), None);
    let mut s = new_summary(&conn("e", "error"));
    s.waiting_for = Some("question".to_string());
    assert_eq!(plan_recovery(&mut s, &snap, &mut activity, true, 120, 0), None);
}

#[test]
fn restart_outcome_is_recorded() {
    let mut activity = ActivityMap::new();
    let mut events = Vec::new();
    let mut s = running_summary("c9");
    record_restart(&mut s, &mut activity, "why".to_string(), Ok(()), &mut events);
    assert_eq!(s.automatic_restart_count, 1);
    assert_eq!(s.last_restart_reason, Some("why".to_string()));
    record_restart(&mut s, &mut activity, "why".to_string(), Err("down".to_string()), &mut events);
    assert_eq!(s.automatic_restart_count, 1);
    assert_eq!(events, vec!["[c9] why".to_string(), "[c9] 自动恢复失败：down".to_string()]);
}

#[test]
fn counts_and_active_name() {
    let mut a = new_summary(&conn("a", "disconnected"));
    a.session_name = "A".to_string();
    let mut b = new_summary(&conn("b", "connected"));
    b.waiting_for = Some("question".to_string());
    let c = new_summary(&conn("c", "prompting"));
    let d = new_summary(&conn("d", "error"));
    let counts = session_counts(&vec![a, b, c, d]);
    assert_eq!(counts.session_count, 4);
    assert_eq!(counts.running_count, 1);
    assert_eq!(counts.stopped_count, 1);
    assert_eq!(counts.error_count, 1);
    assert_eq!(counts.waiting_input_count, 1);
    assert_eq!(counts.active_session_name, Some("codex".to_string()));

    let mut w = new_summary(&conn("w", "connected"));
    w.waiting_for = Some("plan_approval".to_string());
    w.session_name = "Waiting".to_string();
    let counts = session_counts(&vec![w]);
    assert_eq!(counts.active_session_name, Some("Waiting".to_string()));

    let counts = session_counts(&vec![]);
    assert_eq!(counts.active_session_name, Some("(无活跃会话)".to_string()));
}

#[test]
fn precheck_reports_off_then_unconfigured() {
    let mut cfg = CodegConfig::default();
    assert_eq!(codeg_precheck(&cfg).err().unwrap(), "Codeg 行显示已关闭");
    cfg.enabled = true;
    assert_eq!(codeg_precheck(&cfg).err().unwrap(), "Codeg 服务器地址或 Token 未配置");
    cfg.token = "t".to_string();
    assert!(codeg_precheck(&cfg).is_ok());
}
