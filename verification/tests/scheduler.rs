use token_monitor::scheduler::{RpmWindow, Scheduler, TpmWindow};

#[test]
fn test_rpm_window() {
    let mut w = RpmWindow::new();
    w.record();
    w.record();
    assert_eq!(w.count(), 2);
}

#[test]
fn test_tpm_window() {
    let mut w = TpmWindow::new();
    w.record(100);
    w.record(200);
    assert_eq!(w.count(), 300);
}

#[test]
fn test_acquire_release_slot() {
    let mut s = Scheduler::new();
    s.upsert_channel("ch1", true, 2, 0, 0, 100);
    assert!(s.acquire_slot("ch1"));
    assert!(s.acquire_slot("ch1"));
    assert!(!s.acquire_slot("ch1"));
    s.release_slot("ch1");
    assert!(s.acquire_slot("ch1"));
}

#[test]
fn test_select_channel_respects_limits() {
    let mut s = Scheduler::new();
    s.upsert_channel("ch1", true, 1, 0, 0, 100);
    s.upsert_channel("ch2", true, 1, 0, 0, 100);
    assert!(s.acquire_slot("ch1"));
    let selected = s.select_channel();
    assert_eq!(selected.as_deref(), Some("ch2"));
}

#[test]
fn test_select_channel_all_disabled() {
    let mut s = Scheduler::new();
    s.upsert_channel("ch1", false, 1, 0, 0, 100);
    assert_eq!(s.select_channel(), None);
    assert!(!s.has_enabled_channel());
    assert_eq!(s.total_concurrency(), 0);
}

#[test]
fn test_upsert_channel_creates_then_updates() {
    let mut s = Scheduler::new();
    s.upsert_channel("ch1", true, 5, 10, 1000, 100);
    assert_eq!(s.snapshot().len(), 1);
    assert_eq!(s.total_concurrency(), 5);

    s.upsert_channel("ch1", false, 30, 60, 9000, 200);
    let snap = s.snapshot();
    assert_eq!(snap.len(), 1, "upsert 不应产生重复渠道");
    assert_eq!(snap[0].max_concurrency, 30);
    assert_eq!(snap[0].max_rpm, 60);
    assert_eq!(snap[0].max_tpm, 9000);
    assert_eq!(snap[0].weight, 200);
    assert!(!snap[0].enabled);
    assert_eq!(s.total_concurrency(), 0);
}

#[test]
fn test_remove_channel() {
    let mut s = Scheduler::new();
    s.upsert_channel("ch1", true, 5, 0, 0, 100);
    s.upsert_channel("ch2", true, 5, 0, 0, 100);
    assert_eq!(s.total_concurrency(), 10);

    s.remove_channel("ch1");
    assert_eq!(s.snapshot().len(), 1);
    assert_eq!(s.total_concurrency(), 5);
    assert_eq!(s.select_channel().as_deref(), Some("ch2"));
}

#[test]
fn test_record_request() {
    let mut s = Scheduler::new();
    s.upsert_channel("ch1", true, 10, 0, 0, 100);
    s.record_request("ch1", 500);
    let snap = s.snapshot();
    assert_eq!(snap[0].current_rpm, 1);
    assert_eq!(snap[0].current_tpm, 500);
}

#[test]
fn limits_block_selection_until_released() {
    let mut s = Scheduler::new();
    s.upsert_channel("only", true, 1, 0, 0, 100);
    assert!(s.acquire_slot("only"));
    assert_eq!(s.select_channel(), None);
    assert!(s.has_enabled_channel());
    s.release_slot("only");
    assert_eq!(s.select_channel().as_deref(), Some("only"));
}

#[test]
fn rpm_limit_blocks_selection_after_recorded_requests() {
    let mut s = Scheduler::new();
    s.upsert_channel("r", true, 10, 2, 0, 100);
    s.record_request("r", 1);
    assert_eq!(s.select_channel().as_deref(), Some("r"));
    s.record_request("r", 1);
    assert_eq!(s.select_channel(), None);
}

#[test]
fn tpm_limit_blocks_selection_at_token_budget() {
    let mut s = Scheduler::new();
    s.upsert_channel("t", true, 10, 0, 1000, 100);
    s.record_request("t", 999);
    assert_eq!(s.select_channel().as_deref(), Some("t"));
    s.record_request("t", 1);
    assert_eq!(s.select_channel(), None);
}

#[test]
fn first_enabled_skips_disabled_channels() {
    let mut s = Scheduler::new();
    s.upsert_channel("off", false, 1, 0, 0, 100);
    s.upsert_channel("on", true, 1, 0, 0, 100);
    assert_eq!(s.first_enabled_id().as_deref(), Some("on"));
}

#[test]
fn release_on_empty_channel_stays_at_zero() {
    let mut s = Scheduler::new();
    s.upsert_channel("z", true, 3, 0, 0, 100);
    s.release_slot("z");
    assert_eq!(s.snapshot()[0].current_concurrency, 0);
    assert!(s.acquire_slot("z"));
    assert_eq!(s.snapshot()[0].current_concurrency, 1);
}

#[test]
fn unknown_channel_cannot_be_acquired() {
    let mut s = Scheduler::new();
    assert!(!s.acquire_slot("missing"));
}

#[test]
fn rate_limits_tighten_slots_and_gate() {
    let mut s = Scheduler::new();
    s.upsert_channel("a", true, 2, 0, 0, 100);
    assert_eq!(s.total_concurrency(), 2);
    s.record_rate_limit_at("a", 10);
    assert_eq!(s.snapshot()[0].effective_limit, 1);
    assert_eq!(s.snapshot()[0].max_concurrency, 2);
    assert_eq!(s.total_concurrency(), 1, "the global gate follows the limits in force");
    assert!(s.acquire_slot("a"));
    assert!(!s.acquire_slot("a"), "the tightened limit holds");
    assert_eq!(s.select_channel(), None);
    // Never below 1.
    s.record_rate_limit_at("a", 20);
    assert_eq!(s.snapshot()[0].effective_limit, 1);
    // Reconfiguring puts the configured limit in force again.
    s.upsert_channel("a", true, 6, 0, 0, 100);
    assert_eq!(s.snapshot()[0].effective_limit, 6);
    s.record_rate_limit_at("a", 30);
    assert_eq!(s.snapshot()[0].effective_limit, 4);
    // Unknown channels are ignored.
    s.record_rate_limit_at("zz", 40);
    s.record_success_at("zz", 40);
    assert_eq!(s.snapshot().len(), 1);
}

#[test]
fn successes_probe_back_once_per_cooldown() {
    let mut s = Scheduler::new();
    s.upsert_channel("b", true, 10, 0, 0, 100);
    s.record_rate_limit_at("b", 100_000);
    assert_eq!(s.snapshot()[0].effective_limit, 7);
    s.record_success_at("b", 104_999);
    assert_eq!(s.snapshot()[0].effective_limit, 7);
    s.record_success_at("b", 105_000);
    assert_eq!(s.snapshot()[0].effective_limit, 8);
    s.record_success_at("b", 105_001);
    assert_eq!(s.snapshot()[0].effective_limit, 8, "one step per cooldown");
    s.record_success_at("b", 110_001);
    s.record_success_at("b", 115_001);
    s.record_success_at("b", 120_001);
    assert_eq!(s.snapshot()[0].effective_limit, 10, "never past the configured limit");
    s.record_success("b");
    s.record_rate_limit("b");
    assert_eq!(s.snapshot()[0].effective_limit, 7);
}
