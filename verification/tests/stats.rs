use token_monitor::stats::{
    active, buckets_from_rows, buckets_range_from_rows, dedupe_range, floor_minute, Gate,
    GateEntry, SlotGuard, TokenCounts, DEDUPE_MIN_AGE_MS, SEVEN_DAYS_MS,
};

#[test]
fn dedupe_range_excludes_recent_rows() {
    let now = 1_700_000_000_000i64;
    let (floor, ceil) = dedupe_range(now).expect("应存在可清理区间");
    assert_eq!(floor, now - SEVEN_DAYS_MS);
    assert_eq!(ceil, now - DEDUPE_MIN_AGE_MS);
    assert!(ceil > floor, "上界必须高于下界，否则会删到当前流量");
}

#[test]
fn token_total_adds_all_counts() {
    let t = TokenCounts { input: 100, output: 50, cached: 30 };
    assert_eq!(t.total(), 180);
    assert_eq!(TokenCounts::zero().total(), 0);
}

#[test]
fn gate_counts_entries_and_refuses_when_full() {
    let mut g = Gate::new();
    assert!(matches!(g.try_enter(2, true), GateEntry::Entered));
    assert!(matches!(g.try_enter(2, false), GateEntry::Untracked));
    assert!(matches!(g.try_enter(2, true), GateEntry::Entered));
    assert!(matches!(g.try_enter(2, true), GateEntry::Full));
    assert_eq!(active(&g), 2);
    g.finish(0);
    assert_eq!(active(&g), 2);
    g.finish(7);
    assert_eq!(active(&g), 1);
}

#[test]
fn armed_guard_releases_once_on_drop_path() {
    let mut g = Gate::new();
    assert!(matches!(g.try_enter(5, true), GateEntry::Entered));
    let guard = SlotGuard::new(3);
    guard.release_on_drop(&mut g);
    assert_eq!(g.active_count(), 0);
    let untracked = SlotGuard::new(0);
    untracked.release_on_drop(&mut g);
    assert_eq!(g.active_count(), 0);
    assert_eq!(SlotGuard::new(4).idx(), 4);
    assert_eq!(SlotGuard::new(4).disarm(), 4);
}

#[test]
fn floor_minute_rounds_down() {
    assert_eq!(floor_minute(125_000), 120_000);
    assert_eq!(floor_minute(120_000), 120_000);
    assert_eq!(floor_minute(-1), -60_000);
}

#[test]
fn buckets_fill_known_minutes_and_zero_the_rest() {
    let now = 1_700_000_030_000i64;
    let m = floor_minute(now);
    let tokens = vec![(m, 10, 20, 5), (m - 60_000, 1, 2, 0)];
    let rpm = vec![(m, 3)];
    let out = buckets_from_rows(now, 3, &tokens, &rpm);
    assert_eq!(out.len(), 3);
    assert_eq!(out[2].rpm, 3);
    assert_eq!(out[2].input_tokens, 10);
    assert_eq!(out[2].output_tokens, 20);
    assert_eq!(out[2].cached_tokens, 5);
    assert_eq!(out[1].input_tokens, 1);
    assert_eq!(out[1].rpm, 0);
    assert_eq!(out[0].input_tokens, 0);

    let range = buckets_range_from_rows(m - 120_000, m + 60_000, &tokens, &rpm);
    assert_eq!(range.len(), 3);
    assert_eq!(range[2].rpm, 3);
    assert!(buckets_range_from_rows(m, m, &tokens, &rpm).is_empty());
}

/// Whether a row written at `at_ms` lies in the window that the startup
/// dedupe cleans at `now`.
fn in_dedupe_window(now: i64, at_ms: i64) -> bool {
    match dedupe_range(now) {
        Some((floor, ceil)) => floor <= at_ms && at_ms < ceil,
        None => false,
    }
}

/// The library decides the window of rows the startup dedupe may touch; the
/// deletion of duplicates inside it is SQL run by the program around the
/// library. This checks the window: old duplicates fall in it, rows written
/// just now do not.
#[test]
fn dedupe_spares_recent_rows_but_cleans_old_duplicates() {
    let now = 1_700_000_000_000i64;
    let old_ms = now - DEDUPE_MIN_AGE_MS - 60_000;
    assert!(in_dedupe_window(now, old_ms), "old duplicate rows are cleaned");
    let recent_ms = now - 1_000;
    assert!(!in_dedupe_window(now, recent_ms), "rows written just now are kept as they are");
}

/// As above, the window only: rows past retention fall outside it.
#[test]
fn dedupe_ignores_rows_beyond_retention() {
    let now = 1_700_000_000_000i64;
    let ancient = now - SEVEN_DAYS_MS - 60_000;
    assert!(!in_dedupe_window(now, ancient), "rows past retention are left to the retention delete");
}
