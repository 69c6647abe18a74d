use token_monitor::proxy::{
    channel_config, complete_pair, enter_gate, global_gate_max, init, init_scheduler,
    is_listening, last_server_error, legacy_gate, next_lease_step, note_upstream_feedback,
    note_upstream_feedback_at, record_restart,
    restart_needed, remove_channel_config, resolve_channel, scheduler,
    set_channel_config, update_runtime, ChannelConfig, ChannelSlotGuard, Lease, LeaseStep,
    ProxyConfig, ProxyState, UpstreamFormat,
};
use token_monitor::route::no_enabled_channel_refusal;
use token_monitor::scheduler::Scheduler;
use token_monitor::sse::{find_sse_boundary, line_ending_len};
use token_monitor::stats::{Gate, SlotGuard};

fn mk_config(api_key: &str, upstream_url: &str) -> ChannelConfig {
    ChannelConfig {
        api_key: api_key.to_string(),
        upstream_url: upstream_url.to_string(),
        upstream_format: UpstreamFormat::Responses,
        model_override: String::new(),
    }
}

fn in_flight(sched: &Scheduler, profile_id: &str) -> usize {
    sched
        .snapshot()
        .iter()
        .find(|c| c.profile_id == profile_id)
        .map(|c| c.current_concurrency)
        .unwrap_or(0)
}

#[test]
fn registered_channel_is_selectable_and_resolvable() {
    let mut state = ProxyState::new();
    {
        let sched = init_scheduler(&mut state);
        sched.upsert_channel("ch1", false, 20, 0, 0, 100);
        sched.upsert_channel("ch2", true, 30, 0, 0, 100);
    }
    set_channel_config(
        &mut state,
        "ch2",
        ChannelConfig {
            api_key: "sk-ch2".to_string(),
            upstream_url: "https://ch2.example.com/v1/responses".to_string(),
            upstream_format: UpstreamFormat::Anthropic,
            model_override: "m-ch2".to_string(),
        },
    );

    let picked = init_scheduler(&mut state).select_channel();
    assert_eq!(picked.as_deref(), Some("ch2"), "启用渠道未被选中，请求会直接 429");

    let ch = resolve_channel(&state, "ch2");
    assert_eq!(ch.api_key, "sk-ch2");
    assert_eq!(ch.upstream_url, "https://ch2.example.com/v1/responses");
    assert_eq!(ch.upstream_format, UpstreamFormat::Anthropic);
    assert_eq!(ch.model_override, "m-ch2");

    assert!(channel_config(&state, "no-such-channel").is_none());

    {
        let sched = init_scheduler(&mut state);
        sched.remove_channel("ch1");
        sched.remove_channel("ch2");
    }
    remove_channel_config(&mut state, "ch1");
    remove_channel_config(&mut state, "ch2");
}

#[test]
fn all_disabled_is_distinguishable_from_all_busy() {
    let mut s = Scheduler::new();
    s.upsert_channel("a", false, 10, 0, 0, 100);
    s.upsert_channel("b", false, 10, 0, 0, 100);

    assert_eq!(s.select_channel(), None);
    assert!(
        !s.has_enabled_channel(),
        "全禁用必须能被识别，否则会被误判为「已满」并让请求白等 2 分钟"
    );

    s.upsert_channel("b", true, 10, 0, 0, 100);
    assert!(s.has_enabled_channel());
    assert_eq!(s.select_channel().as_deref(), Some("b"));
}

#[test]
fn sse_boundary_handles_all_line_endings() {
    let cases: &[(&[u8], usize, usize)] = &[
        (b"data: {}\n\nnext", 8, 2),
        (b"data: {}\r\n\r\nnext", 8, 4),
        (b"data: {}\r\rnext", 8, 2),
        (b"data: {}\r\n\nnext", 8, 3),
        (b"data: {}\n\r\nnext", 8, 3),
    ];
    for (input, want_start, want_len) in cases {
        assert_eq!(
            find_sse_boundary(input),
            Some((*want_start, *want_len)),
            "帧边界解析错误：{:?}",
            String::from_utf8_lossy(input)
        );
    }

    assert_eq!(find_sse_boundary(b"data: {}\n"), None, "单个行结束符不是空行");
    assert_eq!(find_sse_boundary(b"data: {}"), None);
}

#[test]
fn line_endings_are_measured() {
    assert_eq!(line_ending_len(b"\r\nx"), Some(2));
    assert_eq!(line_ending_len(b"\nx"), Some(1));
    assert_eq!(line_ending_len(b"\rx"), Some(1));
    assert_eq!(line_ending_len(b"x\n"), None);
}

#[test]
fn disarmed_lease_still_releases_channel_slot() {
    let mut state = ProxyState::new();
    let mut gate = Gate::new();
    let sched = init_scheduler(&mut state);
    sched.upsert_channel("d-ch", true, 4, 0, 0, 100);
    assert!(sched.acquire_slot("d-ch"));

    let mut lease = Lease::new(
        "d-ch".to_string(),
        mk_config("sk-d", "https://d.example.com"),
        Some(SlotGuard::new(5)),
        ChannelSlotGuard::new("d-ch".to_string()),
    );
    assert_eq!(
        lease.disarm_global(),
        5,
        "disarm_global 应摘除并交还全局槽位 rowid，否则 Drop 会与 update_last_tokens 重复递减"
    );

    lease.finish(&mut gate, sched);
    assert_eq!(
        in_flight(sched, "d-ch"),
        0,
        "流式任务结束后渠道槽位未归还，渠道会被逐步占死"
    );

    sched.remove_channel("d-ch");
}

#[test]
fn taken_guard_stays_armed_until_explicitly_released() {
    let mut gate = Gate::new();
    let mut sched = Scheduler::new();
    assert_eq!(enter_gate(&mut gate, u64::MAX, true), Some(true));
    let rowid = 1;
    let held = gate.active_count();

    let mut lease = Lease::new(
        "armed".to_string(),
        mk_config("sk", "https://x.example.com"),
        Some(SlotGuard::new(rowid)),
        ChannelSlotGuard::none(),
    );

    let guard = lease.take_global_guard().expect("应取出守卫");
    assert_eq!(gate.active_count(), held, "取出守卫不应立即释放槽位");

    let idx = guard.disarm();
    assert_eq!(idx, rowid, "disarm 应归还原始 rowid");
    gate.finish(idx);
    assert_eq!(gate.active_count(), held - 1, "正常收尾应归还一次");

    assert_eq!(lease.finish(&mut gate, &mut sched), None);
    assert_eq!(
        gate.active_count(),
        held - 1,
        "重复释放导致 ACTIVE 下溢：并发上限会被虚高放行"
    );
}

#[test]
fn dropped_lease_completes_its_request_row() {
    let mut gate = Gate::new();
    let mut sched = Scheduler::new();
    sched.upsert_channel("f9-ch", true, 4, 0, 0, 100);
    let before = gate.active_count();
    assert_eq!(enter_gate(&mut gate, 10, true), Some(true));
    assert_eq!(gate.active_count(), before + 1, "the lease holds one request in flight");
    assert!(sched.acquire_slot("f9-ch"));
    let lease = Lease::new(
        "f9-ch".to_string(),
        mk_config("sk-9", "https://f9.example.com"),
        Some(SlotGuard::new(9)),
        ChannelSlotGuard::new("f9-ch".to_string()),
    );
    // Finishing the lease names its row for completion and gives the slot back.
    assert_eq!(lease.finish(&mut gate, &mut sched), Some(9));
    assert_eq!(gate.active_count(), before);
    assert_eq!(in_flight(&sched, "f9-ch"), 0);
}

#[test]
fn channel_configs_are_isolated_per_profile() {
    let mut state = ProxyState::new();
    set_channel_config(&mut state, "iso-a", mk_config("sk-a", "https://a.example.com"));
    set_channel_config(&mut state, "iso-b", mk_config("sk-b", "https://b.example.com"));

    assert_eq!(resolve_channel(&state, "iso-a").api_key, "sk-a");
    assert_eq!(resolve_channel(&state, "iso-b").upstream_url, "https://b.example.com");

    remove_channel_config(&mut state, "iso-a");
    assert!(channel_config(&state, "iso-a").is_none());
    assert_eq!(
        channel_config(&state, "iso-b").map(|c| c.api_key),
        Some("sk-b".to_string())
    );

    remove_channel_config(&mut state, "iso-b");
}

#[test]
fn lease_steps_tell_disabled_from_busy() {
    let mut sched = Scheduler::new();
    sched.upsert_channel("probe-off", false, 10, 0, 0, 100);
    assert!(matches!(next_lease_step(&sched), LeaseStep::AllDisabled));
    sched.upsert_channel("pin-a", true, 1, 0, 0, 100);
    assert!(sched.acquire_slot("pin-a"));
    assert!(matches!(next_lease_step(&sched), LeaseStep::Wait));
    sched.upsert_channel("pin-b", true, 5, 0, 0, 100);
    match next_lease_step(&sched) {
        LeaseStep::Try(id) => assert_eq!(id, "pin-b"),
        _ => panic!("an available channel must be tried"),
    }
}

#[test]
fn full_channel_gives_the_global_slot_back() {
    let mut sched = Scheduler::new();
    let mut gate = Gate::new();
    sched.upsert_channel("one", true, 1, 0, 0, 100);
    assert_eq!(enter_gate(&mut gate, 5, true), Some(true));
    let first = complete_pair(&mut sched, &mut gate, "one", SlotGuard::new(1));
    assert!(first.is_some());
    assert_eq!(enter_gate(&mut gate, 5, true), Some(true));
    assert_eq!(gate.active_count(), 2);
    let second = complete_pair(&mut sched, &mut gate, "one", SlotGuard::new(2));
    assert!(second.is_none());
    assert_eq!(gate.active_count(), 1);
    assert_eq!(enter_gate(&mut gate, 1, true), None);
}

#[test]
fn runtime_update_replaces_only_given_fields() {
    let mut state = ProxyState::new();
    init(
        &mut state,
        ProxyConfig {
            api_key: "old".to_string(),
            model_override: "m".to_string(),
            port: 8188,
            upstream_url: "https://u".to_string(),
            max_concurrency: 20,
            upstream_format: UpstreamFormat::Responses,
        },
    );
    update_runtime(&mut state, None, Some("m2".to_string()), None, Some(3));
    let c = token_monitor::proxy::cfg(&state);
    assert_eq!(c.api_key, "old");
    assert_eq!(c.model_override, "m2");
    assert_eq!(c.upstream_url, "https://u");
    assert_eq!(c.max_concurrency, 3);
    assert_eq!(c.port, 8188);
}

/// One lease as the server takes it: the step the scheduler allows, a global
/// slot, then the channel slot.
fn take_lease(state: &mut ProxyState, gate: &mut Gate, rowid: i64) -> Option<Lease> {
    let (target, max) = match next_lease_step(scheduler(state)?) {
        LeaseStep::Try(id) => (id, global_gate_max(scheduler(state)?)),
        _ => return None,
    };
    assert_eq!(enter_gate(gate, max, true), Some(true));
    let global = complete_pair(init_scheduler(state), gate, &target, SlotGuard::new(rowid))?;
    let channel = resolve_channel(state, &target);
    Some(Lease::new(target.clone(), channel, Some(global), ChannelSlotGuard::new(target)))
}

#[test]
fn zero_global_max_must_not_deadlock_slot_acquisition() {
    let mut gate = Gate::new();
    assert!(enter_gate(&mut gate, 0, true).is_none(), "a limit of 0 admits nothing");
    let mut state = ProxyState::new();
    init(
        &mut state,
        ProxyConfig {
            api_key: String::new(),
            model_override: String::new(),
            port: 0,
            upstream_url: String::new(),
            max_concurrency: 0,
            upstream_format: UpstreamFormat::Responses,
        },
    );
    let max = legacy_gate(token_monitor::proxy::cfg(&state).max_concurrency);
    assert_eq!(
        enter_gate(&mut gate, max, true),
        Some(true),
        "a configured max_concurrency of 0 means no gate, not zero capacity"
    );
}

#[test]
fn probe_lease_occupies_channel_slot() {
    let mut state = ProxyState::new();
    let mut gate = Gate::new();
    init_scheduler(&mut state).upsert_channel("probe-ch", true, 8, 0, 0, 100);
    set_channel_config(&mut state, "probe-ch", mk_config("sk-probe", "https://probe.example.com/v1/responses"));
    let lease = take_lease(&mut state, &mut gate, 3).expect("a lease is available");
    let leased_id = lease.profile_id.clone();
    assert_eq!(in_flight(scheduler(&state).unwrap(), &leased_id), 1, "the lease holds a channel slot");
    assert_eq!(lease.channel.api_key, "sk-probe", "the lease carries its channel's credentials");
    lease.finish(&mut gate, init_scheduler(&mut state));
    assert_eq!(in_flight(scheduler(&state).unwrap(), &leased_id), 0, "the channel slot is given back");
}

#[test]
fn probe_lease_falls_back_to_an_available_channel() {
    let mut state = ProxyState::new();
    let mut gate = Gate::new();
    {
        let sched = init_scheduler(&mut state);
        sched.upsert_channel("pin-a", true, 1, 0, 0, 100);
        sched.upsert_channel("pin-b", true, 5, 0, 0, 100);
        assert!(sched.acquire_slot("pin-a"), "pin-a is full");
    }
    set_channel_config(&mut state, "pin-b", mk_config("sk-b", "https://b.example.com"));
    let lease = take_lease(&mut state, &mut gate, 4).expect("another channel is available");
    assert_eq!(lease.profile_id, "pin-b", "the lease must not wait on the full channel");
    lease.finish(&mut gate, init_scheduler(&mut state));
}

#[test]
fn probe_lease_reports_disabled_channels_immediately() {
    let mut state = ProxyState::new();
    init_scheduler(&mut state).upsert_channel("probe-off", false, 10, 0, 0, 100);
    assert!(matches!(next_lease_step(scheduler(&state).unwrap()), LeaseStep::AllDisabled));
    let refusal = no_enabled_channel_refusal();
    assert_eq!(refusal.status, 503);
    assert!(refusal.body.to_text().contains("禁用"), "the reason names the disabled channels");
}

fn state_with_port(port: u16) -> ProxyState {
    let mut state = ProxyState::new();
    init(
        &mut state,
        ProxyConfig {
            api_key: String::new(),
            model_override: String::new(),
            port,
            upstream_url: String::new(),
            max_concurrency: 20,
            upstream_format: UpstreamFormat::Responses,
        },
    );
    state
}

#[test]
fn server_failure_is_recorded_and_cleared_on_success() {
    let mut state = state_with_port(0);
    record_restart(&mut state, 40001, Err("端口 40001 监听失败：address in use".to_string()));
    assert!(last_server_error(&state).is_some_and(|m| m.contains("监听失败")));
    assert!(!is_listening(&state), "a failed bind must not report the proxy as listening");
    record_restart(&mut state, 40002, Ok(()));
    assert!(last_server_error(&state).is_none(), "a success clears the old error");
    assert!(is_listening(&state));
    assert_eq!(token_monitor::proxy::cfg(&state).port, 40002);
}

#[test]
fn failed_port_rebind_keeps_existing_server_alive() {
    let mut state = state_with_port(0);
    record_restart(&mut state, 40003, Ok(()));
    assert!(is_listening(&state));
    record_restart(&mut state, 40004, Err("端口 40004 监听失败：address in use".to_string()));
    assert!(is_listening(&state), "the running server is kept when the new port cannot be bound");
    assert_eq!(token_monitor::proxy::cfg(&state).port, 40003, "the port in use stays recorded");
}

#[test]
fn switching_port_moves_listener_to_new_port() {
    let mut state = state_with_port(0);
    assert!(restart_needed(&state, 40005));
    record_restart(&mut state, 40005, Ok(()));
    assert!(!restart_needed(&state, 40005), "nothing to do on the port already in use");
    assert!(restart_needed(&state, 40006));
    record_restart(&mut state, 40006, Ok(()));
    assert_eq!(token_monitor::proxy::cfg(&state).port, 40006);
    assert!(is_listening(&state));
}

fn effective_limit(sched: &Scheduler, profile_id: &str) -> usize {
    sched.snapshot().iter().find(|c| c.profile_id == profile_id).map(|c| c.effective_limit).unwrap()
}

#[test]
fn upstream_429_releases_channel_slot() {
    let mut state = ProxyState::new();
    let mut gate = Gate::new();
    init_scheduler(&mut state).upsert_channel("err-ch", true, 4, 0, 0, 100);
    set_channel_config(&mut state, "err-ch", mk_config("sk-err", "http://127.0.0.1:9/v1/responses"));
    let lease = take_lease(&mut state, &mut gate, 5).expect("a lease is available");
    // The upstream answers 429: the reply passes it on and the lease ends.
    note_upstream_feedback(&mut state, &lease.profile_id, 429);
    assert_eq!(token_monitor::route::upstream_error_reply(429, "{}").status, 429);
    lease.finish(&mut gate, init_scheduler(&mut state));
    assert_eq!(in_flight(scheduler(&state).unwrap(), "err-ch"), 0, "the channel slot is given back");
    assert_eq!(effective_limit(scheduler(&state).unwrap(), "err-ch"), 3, "a 429 tightens the limit 4 to 3");
}

#[test]
fn upstream_feedback_adapts_the_limit_in_force() {
    let mut state = ProxyState::new();
    init_scheduler(&mut state).upsert_channel("ad", true, 4, 0, 0, 100);
    note_upstream_feedback_at(&mut state, "ad", 429, 1_000_000);
    assert_eq!(effective_limit(scheduler(&state).unwrap(), "ad"), 3);
    // Other statuses change nothing.
    note_upstream_feedback_at(&mut state, "ad", 500, 2_000_000);
    note_upstream_feedback_at(&mut state, "ad", 400, 2_000_000);
    assert_eq!(effective_limit(scheduler(&state).unwrap(), "ad"), 3);
    // A success within the cooldown after the 429 changes nothing.
    note_upstream_feedback_at(&mut state, "ad", 200, 1_004_999);
    assert_eq!(effective_limit(scheduler(&state).unwrap(), "ad"), 3);
    // Past the cooldown the limit grows back by one, up to the configured 4.
    note_upstream_feedback_at(&mut state, "ad", 200, 1_005_000);
    assert_eq!(effective_limit(scheduler(&state).unwrap(), "ad"), 4);
    note_upstream_feedback_at(&mut state, "ad", 204, 1_020_000);
    assert_eq!(effective_limit(scheduler(&state).unwrap(), "ad"), 4);
    // Before the scheduler is started nothing happens.
    let mut fresh = ProxyState::new();
    note_upstream_feedback_at(&mut fresh, "ad", 429, 0);
    assert!(scheduler(&fresh).is_none());
}
