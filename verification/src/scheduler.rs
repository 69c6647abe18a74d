//! Channel scheduler: picks a channel under its concurrency / RPM / TPM limits,
//! weighted by each channel's weight.
//!
//! - RPM: request timestamps of the last 60 seconds
//! - TPM: token usage of the last 60 seconds
//! - Selection: drop channels that are disabled or at a limit, then pick among
//!   the rest at random, proportionally to their weights.
//!
//! Time is a number of milliseconds; the functions that read the clock or the
//! random source take it once and hand it to a function that is exact for
//! every value of it.
use std::collections::VecDeque;
use vstd::prelude::*;

use crate::text::str_eq;

verus! {

/// Length of the sliding windows, in milliseconds.
pub const WINDOW_MS: u64 = 60000;

// ──────── window model ────────

/// A timestamp `t` has left the window at time `now` when `t < now - 60 s`.
pub open spec fn expired(t: u64, now: u64) -> bool {
    t < now - WINDOW_MS
}

/// Number of leading entries that have left the window (the prefix that a
/// pruning pass drops).
pub open spec fn stale_prefix(s: Seq<u64>, now: u64) -> nat
    decreases s.len(),
{
    if s.len() > 0 && expired(s[0], now) {
        1 + stale_prefix(s.drop_first(), now)
    } else {
        0
    }
}

/// Same as `stale_prefix`, for (timestamp, tokens) entries.
pub open spec fn stale_prefix_tokens(s: Seq<(u64, u64)>, now: u64) -> nat
    decreases s.len(),
{
    if s.len() > 0 && expired(s[0].0, now) {
        1 + stale_prefix_tokens(s.drop_first(), now)
    } else {
        0
    }
}

/// Sum of the token counts of a sequence of entries.
pub open spec fn token_sum(s: Seq<(u64, u64)>) -> nat
    decreases s.len(),
{
    if s.len() == 0 {
        0
    } else {
        (s[0].1 as nat) + token_sum(s.drop_first())
    }
}

/// Requests counted in the window at time `now`.
pub open spec fn rpm_count(s: Seq<u64>, now: u64) -> nat {
    (s.len() - stale_prefix(s, now)) as nat
}

/// Tokens counted in the window at time `now`.
pub open spec fn tpm_count(s: Seq<(u64, u64)>, now: u64) -> nat {
    token_sum(s.skip(stale_prefix_tokens(s, now) as int))
}

/// A number capped to the range of `u64`.
pub open spec fn cap_u64(n: nat) -> u64 {
    if n > u64::MAX {
        u64::MAX
    } else {
        n as u64
    }
}

proof fn lemma_stale_prefix_bound(s: Seq<u64>, now: u64)
    ensures
        stale_prefix(s, now) <= s.len(),
        forall|j: int| 0 <= j < stale_prefix(s, now) ==> expired(#[trigger] s[j], now),
        stale_prefix(s, now) < s.len() ==> !expired(s[stale_prefix(s, now) as int], now),
    decreases s.len(),
{
    if s.len() > 0 && expired(s[0], now) {
        lemma_stale_prefix_bound(s.drop_first(), now);
        assert forall|j: int| 0 <= j < stale_prefix(s, now) implies expired(#[trigger] s[j], now) by {
            if j > 0 {
                assert(s[j] == s.drop_first()[j - 1]);
            }
        }
    }
}

proof fn lemma_stale_prefix_tokens_bound(s: Seq<(u64, u64)>, now: u64)
    ensures
        stale_prefix_tokens(s, now) <= s.len(),
        forall|j: int| 0 <= j < stale_prefix_tokens(s, now) ==> expired(#[trigger] s[j].0, now),
        stale_prefix_tokens(s, now) < s.len() ==> !expired(
            s[stale_prefix_tokens(s, now) as int].0,
            now,
        ),
    decreases s.len(),
{
    if s.len() > 0 && expired(s[0].0, now) {
        lemma_stale_prefix_tokens_bound(s.drop_first(), now);
        assert forall|j: int| 0 <= j < stale_prefix_tokens(s, now) implies expired(
            #[trigger] s[j].0,
            now,
        ) by {
            if j > 0 {
                assert(s[j] == s.drop_first()[j - 1]);
            }
        }
    }
}

/// Walking the expired prefix: after `i` expired leading entries the rest of
/// the prefix is found in `s.skip(i)`.
proof fn lemma_stale_prefix_step(s: Seq<u64>, now: u64, i: int)
    requires
        0 <= i < s.len(),
        stale_prefix(s, now) == i + stale_prefix(s.skip(i), now),
        expired(s[i], now),
    ensures
        stale_prefix(s, now) == (i + 1) + stale_prefix(s.skip(i + 1), now),
{
    assert(s.skip(i).drop_first() =~= s.skip(i + 1));
}

proof fn lemma_stale_prefix_tokens_step(s: Seq<(u64, u64)>, now: u64, i: int)
    requires
        0 <= i < s.len(),
        stale_prefix_tokens(s, now) == i + stale_prefix_tokens(s.skip(i), now),
        expired(s[i].0, now),
    ensures
        stale_prefix_tokens(s, now) == (i + 1) + stale_prefix_tokens(s.skip(i + 1), now),
{
    assert(s.skip(i).drop_first() =~= s.skip(i + 1));
}

proof fn lemma_token_sum_push(s: Seq<(u64, u64)>, e: (u64, u64))
    ensures
        token_sum(s.push(e)) == token_sum(s) + e.1,
    decreases s.len(),
{
    if s.len() == 0 {
        assert(s.push(e).drop_first() =~= Seq::<(u64, u64)>::empty());
        assert(token_sum(Seq::<(u64, u64)>::empty()) == 0);
        assert(s.push(e)[0] == e);
    } else {
        lemma_token_sum_push(s.drop_first(), e);
        assert(s.push(e).drop_first() =~= s.drop_first().push(e));
        assert(s.push(e)[0] == s[0]);
    }
}

proof fn lemma_token_sum_bound(s: Seq<(u64, u64)>)
    ensures
        token_sum(s) <= s.len() * (u64::MAX as nat),
    decreases s.len(),
{
    if s.len() > 0 {
        lemma_token_sum_bound(s.drop_first());
        assert(s.len() * (u64::MAX as nat) == (s.len() - 1) * (u64::MAX as nat) + u64::MAX)
            by (nonlinear_arith)
            requires
                s.len() >= 1,
        ;
    }
}

/// The sum of a suffix, split at its first element.
proof fn lemma_token_sum_skip(s: Seq<(u64, u64)>, i: int)
    requires
        0 <= i < s.len(),
    ensures
        token_sum(s.skip(i)) == s[i].1 + token_sum(s.skip(i + 1)),
{
    assert(s.skip(i).drop_first() =~= s.skip(i + 1));
}

/// A prefix made only of expired entries does not change the count of the rest.
proof fn lemma_stale_prefix_append(p: Seq<u64>, q: Seq<u64>, now: u64)
    requires
        forall|j: int| 0 <= j < p.len() ==> expired(#[trigger] p[j], now),
    ensures
        stale_prefix(p + q, now) == p.len() + stale_prefix(q, now),
    decreases p.len(),
{
    if p.len() > 0 {
        lemma_stale_prefix_append(p.drop_first(), q, now);
        assert((p + q).drop_first() =~= p.drop_first() + q);
    } else {
        assert(p + q =~= q);
    }
}

proof fn lemma_stale_prefix_tokens_append(p: Seq<(u64, u64)>, q: Seq<(u64, u64)>, now: u64)
    requires
        forall|j: int| 0 <= j < p.len() ==> expired(#[trigger] p[j].0, now),
    ensures
        stale_prefix_tokens(p + q, now) == p.len() + stale_prefix_tokens(q, now),
    decreases p.len(),
{
    if p.len() > 0 {
        lemma_stale_prefix_tokens_append(p.drop_first(), q, now);
        assert((p + q).drop_first() =~= p.drop_first() + q);
    } else {
        assert(p + q =~= q);
    }
}

/// A new entry at time `now` is never expired at `now`, so a window whose
/// entries are all live stays all live after the push.
proof fn lemma_stale_prefix_zero_push(s: Seq<u64>, now: u64)
    requires
        stale_prefix(s, now) == 0,
    ensures
        stale_prefix(s.push(now), now) == 0,
{
    if s.len() == 0 {
    } else {
        assert(s.push(now)[0] == s[0]);
    }
}

proof fn lemma_stale_prefix_tokens_zero_push(s: Seq<(u64, u64)>, e: (u64, u64), now: u64)
    requires
        stale_prefix_tokens(s, now) == 0,
        e.0 == now,
    ensures
        stale_prefix_tokens(s.push(e), now) == 0,
{
    if s.len() == 0 {
    } else {
        assert(s.push(e)[0] == s[0]);
    }
}

proof fn lemma_stale_prefix_of_live(s: Seq<u64>, now: u64)
    ensures
        stale_prefix(s.skip(stale_prefix(s, now) as int), now) == 0,
{
    lemma_stale_prefix_bound(s, now);
    let k = stale_prefix(s, now) as int;
    if k < s.len() {
        assert(s.skip(k)[0] == s[k]);
    }
}

proof fn lemma_stale_prefix_tokens_of_live(s: Seq<(u64, u64)>, now: u64)
    ensures
        stale_prefix_tokens(s.skip(stale_prefix_tokens(s, now) as int), now) == 0,
{
    lemma_stale_prefix_tokens_bound(s, now);
    let k = stale_prefix_tokens(s, now) as int;
    if k < s.len() {
        assert(s.skip(k)[0] == s[k]);
    }
}

// ──────── RPM sliding window ────────

/// Timestamps (ms) of the requests of the last minute. `count` and `record`
/// read the window's own monotonic clock.
pub struct RpmWindow {
    timestamps: VecDeque<u64>,
    clock: crate::clock::MonoClock,
}

impl View for RpmWindow {
    type V = Seq<u64>;

    closed spec fn view(&self) -> Seq<u64> {
        self.timestamps@
    }
}

impl RpmWindow {
    pub fn new() -> (w: Self)
        ensures
            w@ == Seq::<u64>::empty(),
    {
        RpmWindow { timestamps: VecDeque::new(), clock: crate::clock::MonoClock::new() }
    }

    /// Index of the first entry still in the window at `now`.
    fn live_start(&self, now: u64) -> (k: usize)
        ensures
            k == stale_prefix(self@, now),
    {
        let n = self.timestamps.len();
        let mut i: usize = 0;
        assert(self@.skip(0) =~= self@);
        while i < n && now >= WINDOW_MS && self.timestamps[i] < now - WINDOW_MS
            invariant
                n == self@.len(),
                i <= n,
                stale_prefix(self@, now) == i + stale_prefix(self@.skip(i as int), now),
            decreases n - i,
        {
            proof {
                lemma_stale_prefix_step(self@, now, i as int);
            }
            i = i + 1;
        }
        proof {
            if i < n {
                assert(self@.skip(i as int)[0] == self@[i as int]);
            } else {
                assert(self@.skip(i as int).len() == 0);
            }
        }
        i
    }

    /// Requests in the window at time `now`.
    pub fn count_at(&self, now: u64) -> (r: u64)
        ensures
            r == rpm_count(self@, now),
    {
        proof {
            lemma_stale_prefix_bound(self@, now);
        }
        let k = self.live_start(now);
        (self.timestamps.len() - k) as u64
    }

    /// Requests in the window now.
    pub fn count(&self) -> (r: u64)
        ensures
            exists|now: u64| r == rpm_count(self@, now),
    {
        self.count_at(self.clock.now_ms())
    }

    /// Records a request now.
    pub fn record(&mut self)
        ensures
            exists|now: u64|
                final(self)@ == old(self)@.skip(stale_prefix(old(self)@, now) as int).push(now),
    {
        let now = self.clock.now_ms();
        self.record_at(now);
    }

    /// Records a request at time `now`, dropping the entries that have left the
    /// window first.
    pub fn record_at(&mut self, now: u64)
        ensures
            final(self)@ == old(self)@.skip(stale_prefix(old(self)@, now) as int).push(now),
    {
        let k = self.live_start(now);
        proof {
            lemma_stale_prefix_bound(self@, now);
        }
        let ghost orig = self@;
        let mut j: usize = 0;
        while j < k
            invariant
                j <= k,
                k <= orig.len(),
                self@ == orig.skip(j as int),
            decreases k - j,
        {
            self.timestamps.pop_front();
            assert(orig.skip(j as int).drop_first() =~= orig.skip(j + 1));
            j = j + 1;
        }
        self.timestamps.push_back(now);
    }
}

// ──────── TPM sliding window ────────

/// (timestamp ms, tokens) of the requests of the last minute. `count` and
/// `record` read the window's own monotonic clock.
pub struct TpmWindow {
    entries: VecDeque<(u64, u64)>,
    clock: crate::clock::MonoClock,
}

impl View for TpmWindow {
    type V = Seq<(u64, u64)>;

    closed spec fn view(&self) -> Seq<(u64, u64)> {
        self.entries@
    }
}

impl TpmWindow {
    pub fn new() -> (w: Self)
        ensures
            w@ == Seq::<(u64, u64)>::empty(),
    {
        TpmWindow { entries: VecDeque::new(), clock: crate::clock::MonoClock::new() }
    }

    fn live_start(&self, now: u64) -> (k: usize)
        ensures
            k == stale_prefix_tokens(self@, now),
    {
        let n = self.entries.len();
        let mut i: usize = 0;
        assert(self@.skip(0) =~= self@);
        while i < n && now >= WINDOW_MS && self.entries[i].0 < now - WINDOW_MS
            invariant
                n == self@.len(),
                i <= n,
                stale_prefix_tokens(self@, now) == i + stale_prefix_tokens(
                    self@.skip(i as int),
                    now,
                ),
            decreases n - i,
        {
            proof {
                lemma_stale_prefix_tokens_step(self@, now, i as int);
            }
            i = i + 1;
        }
        proof {
            if i < n {
                assert(self@.skip(i as int)[0] == self@[i as int]);
            } else {
                assert(self@.skip(i as int).len() == 0);
            }
        }
        i
    }

    /// Tokens in the window at time `now`, capped to `u64::MAX`.
    pub fn count_at(&self, now: u64) -> (r: u64)
        ensures
            r == cap_u64(tpm_count(self@, now)),
    {
        proof {
            lemma_stale_prefix_tokens_bound(self@, now);
        }
        let k = self.live_start(now);
        let n = self.entries.len();
        let ghost s = self@;
        let mut i: usize = n;
        let mut sum: u128 = 0;
        proof {
            assert(s.skip(n as int).len() == 0);
        }
        while i > k
            invariant
                k <= i <= n,
                n == s.len(),
                s == self@,
                sum == token_sum(s.skip(i as int)),
                sum <= (n - i) * (u64::MAX as nat),
            decreases i,
        {
            proof {
                lemma_token_sum_skip(s, i - 1);
                assert((n - (i - 1)) * (u64::MAX as nat) == (n - i) * (u64::MAX as nat)
                    + u64::MAX) by (nonlinear_arith)
                    requires
                        i >= 1,
                        i <= n,
                ;
                assert((n - (i - 1)) * (u64::MAX as nat) <= 0x1_0000_0000_0000_0000
                    * 0x1_0000_0000_0000_0000 - 1) by (nonlinear_arith)
                    requires
                        n - (i - 1) <= 0x1_0000_0000_0000_0000 - 1,
                ;
            }
            sum = sum + self.entries[i - 1].1 as u128;
            i = i - 1;
        }
        if sum > u64::MAX as u128 {
            u64::MAX
        } else {
            sum as u64
        }
    }

    /// Tokens in the window now, capped to `u64::MAX`.
    pub fn count(&self) -> (r: u64)
        ensures
            exists|now: u64| r == cap_u64(tpm_count(self@, now)),
    {
        self.count_at(self.clock.now_ms())
    }

    /// Records `tokens` now.
    pub fn record(&mut self, tokens: u64)
        ensures
            exists|now: u64|
                final(self)@ == old(self)@.skip(stale_prefix_tokens(old(self)@, now) as int).push(
                    (now, tokens),
                ),
    {
        let now = self.clock.now_ms();
        self.record_at(now, tokens);
    }

    /// Records `tokens` at time `now`, dropping the entries that have left
    /// the window first.
    pub fn record_at(&mut self, now: u64, tokens: u64)
        ensures
            final(self)@ == old(self)@.skip(stale_prefix_tokens(old(self)@, now) as int).push(
                (now, tokens),
            ),
    {
        let k = self.live_start(now);
        proof {
            lemma_stale_prefix_tokens_bound(self@, now);
        }
        let ghost orig = self@;
        let mut j: usize = 0;
        while j < k
            invariant
                j <= k,
                k <= orig.len(),
                self@ == orig.skip(j as int),
            decreases k - j,
        {
            self.entries.pop_front();
            assert(orig.skip(j as int).drop_first() =~= orig.skip(j + 1));
            j = j + 1;
        }
        self.entries.push_back((now, tokens));
    }
}

/// Recording a request at `now` and counting at the same `now` gives one
/// more request than before.
pub proof fn law_rpm_record_counts_once(before: Seq<u64>, now: u64)
    ensures
        rpm_count(before.skip(stale_prefix(before, now) as int).push(now), now) == rpm_count(
            before,
            now,
        ) + 1,
{
    lemma_stale_prefix_bound(before, now);
    lemma_stale_prefix_of_live(before, now);
    let live = before.skip(stale_prefix(before, now) as int);
    lemma_stale_prefix_zero_push(live, now);
}

/// Recording `tokens` at `now` and counting at the same `now` adds exactly
/// `tokens` to the window's total.
pub proof fn law_tpm_record_adds_tokens(before: Seq<(u64, u64)>, now: u64, tokens: u64)
    ensures
        tpm_count(before.skip(stale_prefix_tokens(before, now) as int).push((now, tokens)), now)
            == tpm_count(before, now) + tokens,
{
    lemma_stale_prefix_tokens_bound(before, now);
    lemma_stale_prefix_tokens_of_live(before, now);
    let live = before.skip(stale_prefix_tokens(before, now) as int);
    lemma_stale_prefix_tokens_zero_push(live, (now, tokens), now);
    let after = live.push((now, tokens));
    assert(after.skip(0) =~= after);
    assert(live.skip(0) =~= live);
    lemma_token_sum_push(live, (now, tokens));
}

/// Pruning the window when recording never changes what a later count sees:
/// the dropped entries are expired at `now` and therefore at every later time.
pub proof fn law_rpm_pruning_is_invisible(before: Seq<u64>, now: u64, later: u64)
    requires
        now <= later,
    ensures
        rpm_count(before.skip(stale_prefix(before, now) as int).push(now), later) == rpm_count(
            before.push(now),
            later,
        ),
{
    lemma_stale_prefix_bound(before, now);
    let k = stale_prefix(before, now) as int;
    let p = before.take(k);
    let q = before.skip(k).push(now);
    assert(before.push(now) =~= p + q);
    assert forall|j: int| 0 <= j < p.len() implies expired(#[trigger] p[j], later) by {
        assert(p[j] == before[j]);
    }
    lemma_stale_prefix_append(p, q, later);
}

// ──────── channel state ────────

/// What a channel is, as the contracts see it.
pub struct ChannelView {
    pub profile_id: Seq<char>,
    pub enabled: bool,
    pub max_concurrency: usize,
    /// The concurrency limit in force, adapted to upstream feedback; never
    /// above `max_concurrency`.
    pub effective_limit: usize,
    /// When the limit in force was last adapted (ms).
    pub last_adjust: u64,
    pub current_concurrency: usize,
    pub max_rpm: u64,
    pub rpm: Seq<u64>,
    pub max_tpm: u64,
    pub tpm: Seq<(u64, u64)>,
    pub weight: u32,
}

/// Runtime state of one channel: its limits, its in-flight count and its
/// request / token windows.
pub struct ChannelState {
    pub profile_id: String,
    enabled: bool,
    max_concurrency: usize,
    effective_limit: usize,
    last_adjust_ms: u64,
    current_concurrency: usize,
    max_rpm: u64,
    rpm_window: RpmWindow,
    max_tpm: u64,
    tpm_window: TpmWindow,
    weight: u32,
}

impl View for ChannelState {
    type V = ChannelView;

    closed spec fn view(&self) -> ChannelView {
        ChannelView {
            profile_id: self.profile_id@,
            enabled: self.enabled,
            max_concurrency: self.max_concurrency,
            effective_limit: self.effective_limit,
            last_adjust: self.last_adjust_ms,
            current_concurrency: self.current_concurrency,
            max_rpm: self.max_rpm,
            rpm: self.rpm_window@,
            max_tpm: self.max_tpm,
            tpm: self.tpm_window@,
            weight: self.weight,
        }
    }
}

impl ChannelState {
    /// A new channel: enabled, its whole concurrency limit in force, nothing
    /// in flight, empty windows.
    pub fn new(
        profile_id: String,
        max_concurrency: usize,
        max_rpm: u64,
        max_tpm: u64,
        weight: u32,
    ) -> (c: Self)
        ensures
            c@ == (ChannelView {
                profile_id: profile_id@,
                enabled: true,
                max_concurrency,
                effective_limit: max_concurrency,
                last_adjust: 0,
                current_concurrency: 0,
                max_rpm,
                rpm: Seq::empty(),
                max_tpm,
                tpm: Seq::empty(),
                weight,
            }),
    {
        ChannelState {
            profile_id,
            enabled: true,
            max_concurrency,
            effective_limit: max_concurrency,
            last_adjust_ms: 0,
            current_concurrency: 0,
            max_rpm,
            rpm_window: RpmWindow::new(),
            max_tpm,
            tpm_window: TpmWindow::new(),
            weight,
        }
    }

    pub fn is_enabled(&self) -> (r: bool)
        ensures
            r == self@.enabled,
    {
        self.enabled
    }

    pub fn set_enabled(&mut self, val: bool)
        ensures
            final(self)@ == (ChannelView { enabled: val, ..old(self)@ }),
    {
        self.enabled = val;
    }

    pub fn max_concurrency(&self) -> (r: usize)
        ensures
            r == self@.max_concurrency,
    {
        self.max_concurrency
    }

    pub fn set_max_concurrency(&mut self, val: usize)
        ensures
            final(self)@ == (ChannelView { max_concurrency: val, ..old(self)@ }),
    {
        self.max_concurrency = val;
    }

    pub fn max_rpm(&self) -> (r: u64)
        ensures
            r == self@.max_rpm,
    {
        self.max_rpm
    }

    pub fn set_max_rpm(&mut self, val: u64)
        ensures
            final(self)@ == (ChannelView { max_rpm: val, ..old(self)@ }),
    {
        self.max_rpm = val;
    }

    pub fn max_tpm(&self) -> (r: u64)
        ensures
            r == self@.max_tpm,
    {
        self.max_tpm
    }

    pub fn set_max_tpm(&mut self, val: u64)
        ensures
            final(self)@ == (ChannelView { max_tpm: val, ..old(self)@ }),
    {
        self.max_tpm = val;
    }

    pub fn weight(&self) -> (r: u32)
        ensures
            r == self@.weight,
    {
        self.weight
    }

    pub fn set_weight(&mut self, val: u32)
        ensures
            final(self)@ == (ChannelView { weight: val, ..old(self)@ }),
    {
        self.weight = val;
    }
}


// ──────── scheduler model ────────

/// No two channels share a profile id.
pub open spec fn ids_unique(s: Seq<ChannelView>) -> bool {
    forall|i: int, j: int|
        0 <= i < s.len() && 0 <= j < s.len() && i != j ==> s[i].profile_id != s[j].profile_id
}

/// A channel with this profile id is registered.
pub open spec fn has_id(s: Seq<ChannelView>, id: Seq<char>) -> bool {
    exists|i: int| 0 <= i < s.len() && s[i].profile_id == id
}

/// The position of the channel with this profile id (meaningful when `has_id`).
pub open spec fn index_of(s: Seq<ChannelView>, id: Seq<char>) -> int {
    choose|i: int| 0 <= i < s.len() && s[i].profile_id == id
}

/// The adapted limit never exceeds the configured one, on every channel.
pub open spec fn limits_within(s: Seq<ChannelView>) -> bool {
    forall|i: int| 0 <= i < s.len() ==> (#[trigger] s[i]).effective_limit <= s[i].max_concurrency
}

/// Whether a channel can take one more request at time `now`: enabled,
/// below the concurrency limit in force, and below its RPM / TPM limits
/// where those are set (a limit of 0 means no limit).
pub open spec fn eligible(c: ChannelView, now: u64) -> bool {
    &&& c.enabled
    &&& c.current_concurrency < c.effective_limit
    &&& c.max_rpm > 0 ==> rpm_count(c.rpm, now) < c.max_rpm
    &&& c.max_tpm > 0 ==> tpm_count(c.tpm, now) < c.max_tpm
}

/// Selection weight: the configured weight, at least 1.
pub open spec fn eff_weight(c: ChannelView) -> nat {
    if c.weight == 0 {
        1
    } else {
        c.weight as nat
    }
}

/// Total weight of the eligible channels among the first `k`.
pub open spec fn weight_prefix(s: Seq<ChannelView>, now: u64, k: int) -> nat
    decreases k,
{
    if k <= 0 {
        0
    } else {
        weight_prefix(s, now, k - 1) + if eligible(s[k - 1], now) {
            eff_weight(s[k - 1])
        } else {
            0
        }
    }
}

/// Total weight of all eligible channels.
pub open spec fn total_weight(s: Seq<ChannelView>, now: u64) -> nat {
    weight_prefix(s, now, s.len() as int)
}

/// `i` is the channel that the random number `r` lands on: the eligible
/// channel whose slice `[prefix(i), prefix(i+1))` of the total weight holds
/// `r % total`.
pub open spec fn lands_on(s: Seq<ChannelView>, now: u64, r: u64, i: int) -> bool {
    &&& 0 <= i < s.len()
    &&& eligible(s[i], now)
    &&& weight_prefix(s, now, i) <= (r as nat) % total_weight(s, now) < weight_prefix(s, now, i + 1)
}

/// `res` is what a selection at time `now` with random number `r` returns:
/// nothing exactly when the total eligible weight is zero, otherwise the
/// profile id of the channel that `r` lands on.
pub open spec fn selection_at(s: Seq<ChannelView>, now: u64, r: u64, res: Option<String>) -> bool {
    &&& (res is None <==> total_weight(s, now) == 0)
    &&& (res matches Some(id) ==> exists|i: int|
        lands_on(s, now, r, i) && #[trigger] s[i].profile_id == id@)
}

/// `after` is `before` with one request of `tokens` tokens recorded at `now`
/// on the channel `id` (unchanged when there is no such channel).
pub open spec fn recorded_in(
    before: Seq<ChannelView>,
    after: Seq<ChannelView>,
    id: Seq<char>,
    tokens: u64,
    now: u64,
) -> bool {
    &&& has_id(before, id) ==> after == before.update(
        index_of(before, id),
        recorded(before[index_of(before, id)], now, tokens),
    )
    &&& !has_id(before, id) ==> after == before
}

/// The sum of the concurrency limits in force of the enabled channels.
pub open spec fn enabled_capacity(s: Seq<ChannelView>) -> nat
    decreases s.len(),
{
    if s.len() == 0 {
        0
    } else {
        enabled_capacity(s.drop_last()) + if s.last().enabled {
            s.last().effective_limit as nat
        } else {
            0
        }
    }
}

/// The channel after `upsert_channel` changed its configuration: the new
/// concurrency limit is in force at once.
pub open spec fn reconfigured(
    c: ChannelView,
    enabled: bool,
    max_concurrency: usize,
    max_rpm: u64,
    max_tpm: u64,
    weight: u32,
) -> ChannelView {
    ChannelView {
        enabled,
        max_concurrency,
        effective_limit: max_concurrency,
        max_rpm,
        max_tpm,
        weight,
        ..c
    }
}

/// A channel as `upsert_channel` creates it.
pub open spec fn fresh_channel(
    id: Seq<char>,
    enabled: bool,
    max_concurrency: usize,
    max_rpm: u64,
    max_tpm: u64,
    weight: u32,
) -> ChannelView {
    ChannelView {
        profile_id: id,
        enabled,
        max_concurrency,
        effective_limit: max_concurrency,
        last_adjust: 0,
        current_concurrency: 0,
        max_rpm,
        rpm: Seq::empty(),
        max_tpm,
        tpm: Seq::empty(),
        weight,
    }
}

/// The channel list after `upsert_channel`: the existing channel is
/// reconfigured in place, or a new one is appended.
pub open spec fn spec_upsert(
    s: Seq<ChannelView>,
    id: Seq<char>,
    enabled: bool,
    max_concurrency: usize,
    max_rpm: u64,
    max_tpm: u64,
    weight: u32,
) -> Seq<ChannelView> {
    if has_id(s, id) {
        s.update(
            index_of(s, id),
            reconfigured(s[index_of(s, id)], enabled, max_concurrency, max_rpm, max_tpm, weight),
        )
    } else {
        s.push(fresh_channel(id, enabled, max_concurrency, max_rpm, max_tpm, weight))
    }
}

/// The channel after a request was recorded at `now` with `tokens` tokens.
pub open spec fn recorded(c: ChannelView, now: u64, tokens: u64) -> ChannelView {
    ChannelView {
        rpm: c.rpm.skip(stale_prefix(c.rpm, now) as int).push(now),
        tpm: c.tpm.skip(stale_prefix_tokens(c.tpm, now) as int).push((now, tokens)),
        ..c
    }
}

/// How long (ms) after the last adaptation a success may raise the limit in
/// force again. The adaptive limit is multiplicative decrease, additive
/// increase: a 429 tightens at once, successes probe back one step at a time
/// with this cooldown. The 5 s length, the 3/4 factor below and the global
/// gate summing the limits in force are this library's chosen parameters
/// (with them, a 429 takes a limit of 4 to 3).
pub const ADAPT_COOLDOWN_MS: u64 = 5000;

/// The limit in force after the upstream answered 429: three quarters of
/// it, rounded down (4 becomes 3), but never below 1 (a limit of 0 or 1
/// stays). The 3/4 factor is this library's choice.
pub open spec fn tightened(limit: usize) -> usize {
    if limit <= 1 {
        limit
    } else {
        (limit * 3 / 4) as usize
    }
}

/// The channel after the upstream answered 429 at `now`: the limit in force
/// is tightened at once.
pub open spec fn rate_limited(c: ChannelView, now: u64) -> ChannelView {
    ChannelView { effective_limit: tightened(c.effective_limit), last_adjust: now, ..c }
}

/// Whether the cooldown since the last adaptation is over at `now`.
pub open spec fn cooled_down(c: ChannelView, now: u64) -> bool {
    now >= c.last_adjust && now - c.last_adjust >= ADAPT_COOLDOWN_MS
}

/// The channel after a successful upstream answer at `now`: below its
/// configured limit and past the cooldown, the limit in force grows by one;
/// otherwise nothing changes.
pub open spec fn succeeded(c: ChannelView, now: u64) -> ChannelView {
    if c.effective_limit < c.max_concurrency && cooled_down(c, now) {
        ChannelView { effective_limit: (c.effective_limit + 1) as usize, last_adjust: now, ..c }
    } else {
        c
    }
}

/// `after` is `before` after a 429 at `now` on the channel `id` (unchanged
/// when there is no such channel).
pub open spec fn rate_limited_in(
    before: Seq<ChannelView>,
    after: Seq<ChannelView>,
    id: Seq<char>,
    now: u64,
) -> bool {
    &&& has_id(before, id) ==> after == before.update(
        index_of(before, id),
        rate_limited(before[index_of(before, id)], now),
    )
    &&& !has_id(before, id) ==> after == before
}

/// `after` is `before` after a success at `now` on the channel `id`
/// (unchanged when there is no such channel).
pub open spec fn succeeded_in(
    before: Seq<ChannelView>,
    after: Seq<ChannelView>,
    id: Seq<char>,
    now: u64,
) -> bool {
    &&& has_id(before, id) ==> after == before.update(
        index_of(before, id),
        succeeded(before[index_of(before, id)], now),
    )
    &&& !has_id(before, id) ==> after == before
}

proof fn lemma_weight_prefix_mono(s: Seq<ChannelView>, now: u64, i: int, j: int)
    requires
        0 <= i <= j,
    ensures
        weight_prefix(s, now, i) <= weight_prefix(s, now, j),
    decreases j - i,
{
    if i < j {
        lemma_weight_prefix_mono(s, now, i, j - 1);
    }
}

proof fn lemma_weight_prefix_bound(s: Seq<ChannelView>, now: u64, k: int)
    requires
        0 <= k,
    ensures
        weight_prefix(s, now, k) <= k * 0x1_0000_0000,
    decreases k,
{
    if k > 0 {
        lemma_weight_prefix_bound(s, now, k - 1);
    }
}

/// The total weight is zero exactly when no channel is eligible.
proof fn lemma_weight_zero_iff_none_eligible(s: Seq<ChannelView>, now: u64, k: int)
    requires
        0 <= k <= s.len(),
    ensures
        (weight_prefix(s, now, k) == 0) <==> (forall|j: int| 0 <= j < k ==> !eligible(#[trigger] s[j], now)),
    decreases k,
{
    if k > 0 {
        lemma_weight_zero_iff_none_eligible(s, now, k - 1);
    }
}

proof fn lemma_capacity_push(s: Seq<ChannelView>, c: ChannelView)
    ensures
        enabled_capacity(s.push(c)) == enabled_capacity(s) + if c.enabled {
            c.effective_limit as nat
        } else {
            0
        },
{
    assert(s.push(c).drop_last() =~= s);
}

/// The capacity counts no disabled channel: with every channel disabled it is 0.
proof fn lemma_capacity_all_disabled(s: Seq<ChannelView>)
    requires
        forall|i: int| 0 <= i < s.len() ==> !(#[trigger] s[i]).enabled,
    ensures
        enabled_capacity(s) == 0,
    decreases s.len(),
{
    if s.len() > 0 {
        lemma_capacity_all_disabled(s.drop_last());
    }
}

// ──────── scheduler ────────

/// The registered channels, in registration order.
pub struct Scheduler {
    channels: Vec<ChannelState>,
    /// The monotonic clock of the channels' windows and adaptations.
    clock: crate::clock::MonoClock,
}

impl View for Scheduler {
    type V = Seq<ChannelView>;

    closed spec fn view(&self) -> Seq<ChannelView> {
        self.channels@.map_values(|c: ChannelState| c@)
    }
}

/// Runtime snapshot of one channel, for display.
pub struct ChannelSnapshot {
    pub profile_id: String,
    pub enabled: bool,
    pub current_concurrency: usize,
    pub max_concurrency: usize,
    /// The concurrency limit in force.
    pub effective_limit: usize,
    pub current_rpm: u64,
    pub max_rpm: u64,
    pub current_tpm: u64,
    pub max_tpm: u64,
    pub weight: u32,
}

/// `res` shows every channel of `s` as seen at time `now`, in order.
pub open spec fn snapshots_at(res: Seq<ChannelSnapshot>, s: Seq<ChannelView>, now: u64) -> bool {
    &&& res.len() == s.len()
    &&& forall|i: int| 0 <= i < s.len() ==> snapshot_of(#[trigger] res[i], s[i], now)
}

/// `snap` shows channel `c` as seen at time `now`.
pub open spec fn snapshot_of(snap: ChannelSnapshot, c: ChannelView, now: u64) -> bool {
    &&& snap.profile_id@ == c.profile_id
    &&& snap.enabled == c.enabled
    &&& snap.current_concurrency == c.current_concurrency
    &&& snap.max_concurrency == c.max_concurrency
    &&& snap.effective_limit == c.effective_limit
    &&& snap.current_rpm == rpm_count(c.rpm, now)
    &&& snap.max_rpm == c.max_rpm
    &&& snap.current_tpm == cap_u64(tpm_count(c.tpm, now))
    &&& snap.max_tpm == c.max_tpm
    &&& snap.weight == c.weight
}

impl Scheduler {
    /// No two channels share a profile id, and no limit in force exceeds
    /// its channel's configured limit.
    pub closed spec fn wf(&self) -> bool {
        ids_unique(self@) && limits_within(self@)
    }

    pub fn new() -> (s: Self)
        ensures
            s.wf(),
            s@ == Seq::<ChannelView>::empty(),
    {
        let s = Scheduler { channels: Vec::new(), clock: crate::clock::MonoClock::new() };
        assert(s@ =~= Seq::<ChannelView>::empty());
        s
    }

    /// The time on the scheduler's monotonic clock (ms since it was made).
    pub fn clock_ms(&self) -> u64 {
        self.clock.now_ms()
    }

    /// Position of the channel with this profile id.
    fn find(&self, profile_id: &str) -> (r: Option<usize>)
        requires
            self.wf(),
        ensures
            match r {
                Some(i) => i < self@.len() && self@[i as int].profile_id == profile_id@ && i
                    == index_of(self@, profile_id@) && has_id(self@, profile_id@),
                None => !has_id(self@, profile_id@),
            },
    {
        let n = self.channels.len();
        let mut i: usize = 0;
        while i < n
            invariant
                n == self.channels@.len(),
                n == self@.len(),
                i <= n,
                forall|j: int| 0 <= j < i ==> self@[j].profile_id != profile_id@,
                self.wf(),
            decreases n - i,
        {
            if str_eq(self.channels[i].profile_id.as_str(), profile_id) {
                proof {
                    assert(self@[i as int] == self.channels@[i as int]@);
                    assert(0 <= i < self@.len() && self@[i as int].profile_id == profile_id@);
                    let k = index_of(self@, profile_id@);
                    assert(0 <= k < self@.len() && self@[k].profile_id == profile_id@);
                    if k != i as int {
                        assert(ids_unique(self@));
                        assert(self@[k].profile_id != self@[i as int].profile_id);
                    }
                }
                return Some(i);
            }
            assert(self@[i as int] == self.channels@[i as int]@);
            i = i + 1;
        }
        None
    }

    /// Adds a channel, or reconfigures it in place when its profile id is
    /// already registered (its in-flight count and windows are kept).
    pub fn upsert_channel(
        &mut self,
        profile_id: &str,
        enabled: bool,
        max_concurrency: usize,
        max_rpm: u64,
        max_tpm: u64,
        weight: u32,
    )
        requires
            old(self).wf(),
        ensures
            final(self).wf(),
            final(self)@ == spec_upsert(
                old(self)@,
                profile_id@,
                enabled,
                max_concurrency,
                max_rpm,
                max_tpm,
                weight,
            ),
    {
        let ghost before = self@;
        match self.find(profile_id) {
            Some(i) => {
                let ghost old_vec = self.channels@;
                let ch = &mut self.channels[i];
                ch.set_enabled(enabled);
                ch.set_max_concurrency(max_concurrency);
                ch.effective_limit = max_concurrency;
                ch.set_max_rpm(max_rpm);
                ch.set_max_tpm(max_tpm);
                ch.set_weight(weight);
                proof {
                    assert(self@ =~= before.update(
                        i as int,
                        reconfigured(before[i as int], enabled, max_concurrency, max_rpm, max_tpm, weight),
                    ));
                }
            },
            None => {
                let mut ch = ChannelState::new(
                    profile_id.to_string(),
                    max_concurrency,
                    max_rpm,
                    max_tpm,
                    weight,
                );
                ch.set_enabled(enabled);
                self.channels.push(ch);
                proof {
                    assert(self@ =~= before.push(
                        fresh_channel(profile_id@, enabled, max_concurrency, max_rpm, max_tpm, weight),
                    ));
                }
            },
        }
    }

    /// Removes the channel with this profile id, if any; the others keep
    /// their order and state.
    pub fn remove_channel(&mut self, profile_id: &str)
        requires
            old(self).wf(),
        ensures
            final(self).wf(),
            has_id(old(self)@, profile_id@) ==> final(self)@ == old(self)@.remove(
                index_of(old(self)@, profile_id@),
            ),
            !has_id(old(self)@, profile_id@) ==> final(self)@ == old(self)@,
    {
        let ghost before = self@;
        match self.find(profile_id) {
            Some(i) => {
                self.channels.remove(i);
                proof {
                    assert(self@ =~= before.remove(i as int));
                }
            },
            None => {},
        }
    }

    /// Whether the channel can take a request at time `now`.
    fn check_limits(channel: &ChannelState, now: u64) -> (r: bool)
        ensures
            r == eligible(channel@, now),
    {
        if !channel.enabled {
            return false;
        }
        if channel.current_concurrency >= channel.effective_limit {
            return false;
        }
        if channel.max_rpm > 0 {
            if channel.rpm_window.count_at(now) >= channel.max_rpm {
                return false;
            }
        }
        if channel.max_tpm > 0 {
            if channel.tpm_window.count_at(now) >= channel.max_tpm {
                return false;
            }
        }
        true
    }

    /// Weighted selection at time `now` with the random number `r`: `None`
    /// exactly when no channel is eligible, otherwise the profile id of the
    /// channel that `r` lands on.
    pub fn select_channel_at(&self, now: u64, r: u64) -> (res: Option<String>)
        requires
            self.wf(),
        ensures
            selection_at(self@, now, r, res),
            res is None <==> (forall|i: int| 0 <= i < self@.len() ==> !eligible(#[trigger] self@[i], now)),
    {
        let n = self.channels.len();
        proof {
            lemma_weight_zero_iff_none_eligible(self@, now, n as int);
        }
        let mut total: u128 = 0;
        let mut i: usize = 0;
        while i < n
            invariant
                n == self.channels@.len(),
                n == self@.len(),
                i <= n,
                total == weight_prefix(self@, now, i as int),
            decreases n - i,
        {
            proof {
                lemma_weight_prefix_bound(self@, now, i as int + 1);
                assert((i + 1) * 0x1_0000_0000 <= 0x1_0000_0000_0000_0000 * 0x1_0000_0000)
                    by (nonlinear_arith)
                    requires
                        i + 1 <= 0x1_0000_0000_0000_0000,
                ;
                assert(self@[i as int] == self.channels@[i as int]@);
            }
            let ch = &self.channels[i];
            if Self::check_limits(ch, now) {
                let w: u32 = if ch.weight == 0 { 1 } else { ch.weight };
                total = total + w as u128;
            }
            i = i + 1;
        }
        if total == 0 {
            return None;
        }
        let pick: u128 = (r as u128) % total;
        let mut j: usize = 0;
        let mut cum: u128 = 0;
        while j < n
            invariant
                n == self.channels@.len(),
                n == self@.len(),
                j <= n,
                total == total_weight(self@, now),
                total > 0,
                pick == (r as nat) % (total as nat),
                cum == weight_prefix(self@, now, j as int),
                cum <= pick,
            decreases n - j,
        {
            proof {
                lemma_weight_prefix_mono(self@, now, j as int + 1, n as int);
                assert(self@[j as int] == self.channels@[j as int]@);
            }
            let ch = &self.channels[j];
            if Self::check_limits(ch, now) {
                let w: u32 = if ch.weight == 0 { 1 } else { ch.weight };
                cum = cum + w as u128;
                if pick < cum {
                    let id = ch.profile_id.clone();
                    assert(lands_on(self@, now, r, j as int));
                    assert(self@[j as int].profile_id == id@);
                    return Some(id);
                }
            }
            j = j + 1;
        }
        proof {
            assert(cum == total);
        }
        None
    }

    /// Picks a channel with the current time and a fresh random number.
    /// Whatever they are, the answer is that of `select_channel_at` for some
    /// time and number.
    pub fn select_channel(&self) -> (res: Option<String>)
        requires
            self.wf(),
        ensures
            exists|now: u64, r: u64| #[trigger] selection_at(self@, now, r, res),
    {
        let now = self.clock.now_ms();
        let r = crate::clock::random_u64();
        self.select_channel_at(now, r)
    }

    /// Profile id of the first enabled channel.
    pub fn first_enabled_id(&self) -> (res: Option<String>)
        ensures
            match res {
                Some(id) => exists|i: int|
                    0 <= i < self@.len() && self@[i].enabled && #[trigger] self@[i].profile_id
                        == id@ && forall|j: int| 0 <= j < i ==> !(#[trigger] self@[j]).enabled,
                None => forall|i: int| 0 <= i < self@.len() ==> !(#[trigger] self@[i]).enabled,
            },
    {
        let n = self.channels.len();
        let mut i: usize = 0;
        while i < n
            invariant
                n == self.channels@.len(),
                n == self@.len(),
                i <= n,
                forall|j: int| 0 <= j < i ==> !(#[trigger] self@[j]).enabled,
            decreases n - i,
        {
            assert(self@[i as int] == self.channels@[i as int]@);
            if self.channels[i].enabled {
                let id = self.channels[i].profile_id.clone();
                assert(self@[i as int].profile_id == id@);
                return Some(id);
            }
            i = i + 1;
        }
        None
    }

    /// Whether some channel is enabled (tells "all disabled" from "all busy").
    pub fn has_enabled_channel(&self) -> (r: bool)
        ensures
            r == exists|i: int| 0 <= i < self@.len() && (#[trigger] self@[i]).enabled,
    {
        let n = self.channels.len();
        let mut i: usize = 0;
        while i < n
            invariant
                n == self.channels@.len(),
                n == self@.len(),
                i <= n,
                forall|j: int| 0 <= j < i ==> !(#[trigger] self@[j]).enabled,
            decreases n - i,
        {
            assert(self@[i as int] == self.channels@[i as int]@);
            if self.channels[i].enabled {
                return true;
            }
            i = i + 1;
        }
        false
    }

    /// Sum of the concurrency limits in force of the enabled channels (the
    /// global gate), capped to `usize::MAX`. Summing the adapted limits, not
    /// the configured ones, is this library's choice: the global limit
    /// tightens and relaxes with upstream feedback.
    pub fn total_concurrency(&self) -> (r: usize)
        ensures
            r == (if enabled_capacity(self@) > usize::MAX {
                usize::MAX as nat
            } else {
                enabled_capacity(self@)
            }),
    {
        let n = self.channels.len();
        let mut i: usize = 0;
        let mut sum: u128 = 0;
        assert(self@.take(0) =~= Seq::<ChannelView>::empty());
        while i < n
            invariant
                n == self.channels@.len(),
                n == self@.len(),
                i <= n,
                sum == enabled_capacity(self@.take(i as int)),
                sum <= i * (usize::MAX as nat),
            decreases n - i,
        {
            proof {
                assert(self@.take(i as int + 1) =~= self@.take(i as int).push(self@[i as int]));
                lemma_capacity_push(self@.take(i as int), self@[i as int]);
                assert(self@[i as int] == self.channels@[i as int]@);
                assert((i + 1) * (usize::MAX as nat) == i * (usize::MAX as nat) + usize::MAX)
                    by (nonlinear_arith);
                assert((i + 1) * (usize::MAX as nat) <= 0x1_0000_0000_0000_0000
                    * 0xFFFF_FFFF_FFFF_FFFF) by (nonlinear_arith)
                    requires
                        i + 1 <= 0x1_0000_0000_0000_0000,
                        usize::MAX <= 0xFFFF_FFFF_FFFF_FFFF,
                ;
            }
            if self.channels[i].enabled {
                sum = sum + self.channels[i].effective_limit as u128;
            }
            i = i + 1;
        }
        assert(self@.take(n as int) =~= self@);
        if sum > usize::MAX as u128 {
            usize::MAX
        } else {
            sum as usize
        }
    }

    /// Takes one concurrency slot of the channel: succeeds exactly when the
    /// channel exists and is below its concurrency limit in force.
    pub fn acquire_slot(&mut self, profile_id: &str) -> (ok: bool)
        requires
            old(self).wf(),
        ensures
            final(self).wf(),
            ok == (has_id(old(self)@, profile_id@) && old(self)@[index_of(
                old(self)@,
                profile_id@,
            )].current_concurrency < old(self)@[index_of(old(self)@, profile_id@)].effective_limit),
            ok ==> final(self)@ == old(self)@.update(
                index_of(old(self)@, profile_id@),
                ChannelView {
                    current_concurrency: (old(self)@[index_of(
                        old(self)@,
                        profile_id@,
                    )].current_concurrency + 1) as usize,
                    ..old(self)@[index_of(old(self)@, profile_id@)]
                },
            ),
            !ok ==> final(self)@ == old(self)@,
    {
        let ghost before = self@;
        match self.find(profile_id) {
            Some(i) => {
                assert(self@[i as int] == self.channels@[i as int]@);
                let ch = &mut self.channels[i];
                let cur = ch.current_concurrency;
                if cur < ch.effective_limit {
                    ch.current_concurrency = cur + 1;
                    proof {
                        assert(self@ =~= before.update(
                            i as int,
                            ChannelView { current_concurrency: (cur + 1) as usize, ..before[i as int] },
                        ));
                    }
                    return true;
                }
                proof {
                    assert(self@ =~= before);
                }
                false
            },
            None => false,
        }
    }

    /// Gives back one concurrency slot of the channel (never below zero).
    pub fn release_slot(&mut self, profile_id: &str)
        requires
            old(self).wf(),
        ensures
            final(self).wf(),
            has_id(old(self)@, profile_id@) ==> final(self)@ == old(self)@.update(
                index_of(old(self)@, profile_id@),
                ChannelView {
                    current_concurrency: if old(self)@[index_of(
                        old(self)@,
                        profile_id@,
                    )].current_concurrency > 0 {
                        (old(self)@[index_of(old(self)@, profile_id@)].current_concurrency
                            - 1) as usize
                    } else {
                        0
                    },
                    ..old(self)@[index_of(old(self)@, profile_id@)]
                },
            ),
            !has_id(old(self)@, profile_id@) ==> final(self)@ == old(self)@,
    {
        let ghost before = self@;
        match self.find(profile_id) {
            Some(i) => {
                assert(self@[i as int] == self.channels@[i as int]@);
                let ch = &mut self.channels[i];
                let cur = ch.current_concurrency;
                if cur > 0 {
                    ch.current_concurrency = cur - 1;
                }
                proof {
                    assert(self@ =~= before.update(
                        i as int,
                        ChannelView {
                            current_concurrency: if cur > 0 { (cur - 1) as usize } else { 0 },
                            ..before[i as int]
                        },
                    ));
                }
            },
            None => {},
        }
    }

    /// Records one request of `tokens` tokens at time `now` in the channel's
    /// RPM and TPM windows.
    pub fn record_request_at(&mut self, profile_id: &str, tokens: u64, now: u64)
        requires
            old(self).wf(),
        ensures
            final(self).wf(),
            recorded_in(old(self)@, final(self)@, profile_id@, tokens, now),
    {
        let ghost before = self@;
        match self.find(profile_id) {
            Some(i) => {
                assert(self@[i as int] == self.channels@[i as int]@);
                let ch = &mut self.channels[i];
                ch.rpm_window.record_at(now);
                ch.tpm_window.record_at(now, tokens);
                proof {
                    assert(self@ =~= before.update(i as int, recorded(before[i as int], now, tokens)));
                }
            },
            None => {},
        }
    }

    /// Records one request at the current time.
    pub fn record_request(&mut self, profile_id: &str, tokens: u64)
        requires
            old(self).wf(),
        ensures
            final(self).wf(),
            exists|now: u64| #[trigger] recorded_in(old(self)@, final(self)@, profile_id@, tokens, now),
    {
        let now = self.clock.now_ms();
        self.record_request_at(profile_id, tokens, now);
    }

    /// The upstream answered 429 at `now` for this channel: its limit in
    /// force is tightened.
    pub fn record_rate_limit_at(&mut self, profile_id: &str, now: u64)
        requires
            old(self).wf(),
        ensures
            final(self).wf(),
            rate_limited_in(old(self)@, final(self)@, profile_id@, now),
    {
        let ghost before = self@;
        match self.find(profile_id) {
            Some(i) => {
                assert(self@[i as int] == self.channels@[i as int]@);
                let ch = &mut self.channels[i];
                let e = ch.effective_limit;
                ch.effective_limit = if e <= 1 {
                    e
                } else {
                    e / 4 * 3 + (e % 4) * 3 / 4
                };
                ch.last_adjust_ms = now;
                proof {
                    assert(e / 4 * 3 + (e % 4) * 3 / 4 == e * 3 / 4) by (nonlinear_arith);
                    assert(self@ =~= before.update(i as int, rate_limited(before[i as int], now)));
                }
            },
            None => {},
        }
    }

    /// The upstream answered 429 for this channel, now.
    pub fn record_rate_limit(&mut self, profile_id: &str)
        requires
            old(self).wf(),
        ensures
            final(self).wf(),
            exists|now: u64| #[trigger] rate_limited_in(old(self)@, final(self)@, profile_id@, now),
    {
        let now = self.clock.now_ms();
        self.record_rate_limit_at(profile_id, now);
    }

    /// The upstream answered with success at `now` for this channel: past
    /// the cooldown its limit in force grows by one, up to the configured
    /// limit.
    pub fn record_success_at(&mut self, profile_id: &str, now: u64)
        requires
            old(self).wf(),
        ensures
            final(self).wf(),
            succeeded_in(old(self)@, final(self)@, profile_id@, now),
    {
        let ghost before = self@;
        match self.find(profile_id) {
            Some(i) => {
                assert(self@[i as int] == self.channels@[i as int]@);
                let ch = &mut self.channels[i];
                if ch.effective_limit < ch.max_concurrency && now >= ch.last_adjust_ms && now
                    - ch.last_adjust_ms >= ADAPT_COOLDOWN_MS {
                    ch.effective_limit = ch.effective_limit + 1;
                    ch.last_adjust_ms = now;
                }
                proof {
                    assert(self@ =~= before.update(i as int, succeeded(before[i as int], now)));
                }
            },
            None => {},
        }
    }

    /// The upstream answered with success for this channel, now.
    pub fn record_success(&mut self, profile_id: &str)
        requires
            old(self).wf(),
        ensures
            final(self).wf(),
            exists|now: u64| #[trigger] succeeded_in(old(self)@, final(self)@, profile_id@, now),
    {
        let now = self.clock.now_ms();
        self.record_success_at(profile_id, now);
    }

    /// Every channel as seen at time `now`, in registration order.
    pub fn snapshot_at(&self, now: u64) -> (res: Vec<ChannelSnapshot>)
        ensures
            snapshots_at(res@, self@, now),
    {
        let n = self.channels.len();
        let mut out: Vec<ChannelSnapshot> = Vec::new();
        let mut i: usize = 0;
        while i < n
            invariant
                n == self.channels@.len(),
                n == self@.len(),
                i <= n,
                out@.len() == i,
                forall|j: int| 0 <= j < i ==> snapshot_of(#[trigger] out@[j], self@[j], now),
            decreases n - i,
        {
            assert(self@[i as int] == self.channels@[i as int]@);
            let ch = &self.channels[i];
            out.push(
                ChannelSnapshot {
                    profile_id: ch.profile_id.clone(),
                    enabled: ch.enabled,
                    current_concurrency: ch.current_concurrency,
                    max_concurrency: ch.max_concurrency,
                    effective_limit: ch.effective_limit,
                    current_rpm: ch.rpm_window.count_at(now),
                    max_rpm: ch.max_rpm,
                    current_tpm: ch.tpm_window.count_at(now),
                    max_tpm: ch.max_tpm,
                    weight: ch.weight,
                },
            );
            i = i + 1;
        }
        out
    }

    /// Every channel as seen at the current time.
    pub fn snapshot(&self) -> (res: Vec<ChannelSnapshot>)
        ensures
            exists|now: u64| #[trigger] snapshots_at(res@, self@, now),
    {
        let now = self.clock.now_ms();
        self.snapshot_at(now)
    }
}


/// With unique ids, the channel at position `i` is the one `index_of` finds.
proof fn lemma_index_of_unique(s: Seq<ChannelView>, i: int)
    requires
        ids_unique(s),
        0 <= i < s.len(),
    ensures
        has_id(s, s[i].profile_id),
        index_of(s, s[i].profile_id) == i,
{
    let k = index_of(s, s[i].profile_id);
    assert(0 <= k < s.len() && s[k].profile_id == s[i].profile_id);
}

/// Upserting an id that is already registered never adds a channel; the
/// result still has unique ids.
pub proof fn law_upsert_never_duplicates(
    s: Seq<ChannelView>,
    id: Seq<char>,
    enabled: bool,
    max_concurrency: usize,
    max_rpm: u64,
    max_tpm: u64,
    weight: u32,
)
    requires
        ids_unique(s),
    ensures
        ids_unique(spec_upsert(s, id, enabled, max_concurrency, max_rpm, max_tpm, weight)),
        has_id(s, id) ==> spec_upsert(s, id, enabled, max_concurrency, max_rpm, max_tpm, weight).len()
            == s.len(),
        has_id(spec_upsert(s, id, enabled, max_concurrency, max_rpm, max_tpm, weight), id),
{
    let t = spec_upsert(s, id, enabled, max_concurrency, max_rpm, max_tpm, weight);
    if has_id(s, id) {
        let k = index_of(s, id);
        assert(t[k].profile_id == id);
    } else {
        assert(t[s.len() as int].profile_id == id);
        assert forall|i: int, j: int|
            0 <= i < t.len() && 0 <= j < t.len() && i != j implies t[i].profile_id
            != t[j].profile_id by {
            if i < s.len() && j < s.len() {
            } else if i == s.len() {
                assert(s[j].profile_id != id);
            } else {
                assert(s[i].profile_id != id);
            }
        }
    }
}

/// A well-formed scheduler's channels carry unique profile ids, and no
/// limit in force exceeds its channel's configured limit.
pub proof fn lemma_wf_ids_unique(s: &Scheduler)
    requires
        s.wf(),
    ensures
        ids_unique(s@),
        limits_within(s@),
{
}

/// On a well-formed scheduler, releasing the slot that a successful
/// `acquire_slot` of `id` took restores every channel exactly, in-flight
/// counts included: the law below, with the ids' uniqueness taken from
/// well-formedness.
pub proof fn law_acquire_then_release_restores(s: &Scheduler, id: Seq<char>)
    requires
        s.wf(),
        has_id(s@, id),
        s@[index_of(s@, id)].current_concurrency < s@[index_of(s@, id)].effective_limit,
    ensures
        ({
            let v = s@;
            let i = index_of(v, id);
            let acquired = v.update(
                i,
                ChannelView { current_concurrency: (v[i].current_concurrency + 1) as usize, ..v[i] },
            );
            let j = index_of(acquired, id);
            has_id(acquired, id) && acquired.update(
                j,
                ChannelView {
                    current_concurrency: (acquired[j].current_concurrency - 1) as usize,
                    ..acquired[j]
                },
            ) == v
        }),
{
    law_release_undoes_acquire(s@, id);
}

/// Releasing the slot that a successful `acquire_slot` took restores the
/// channel list exactly.
pub proof fn law_release_undoes_acquire(s: Seq<ChannelView>, id: Seq<char>)
    requires
        ids_unique(s),
        has_id(s, id),
        s[index_of(s, id)].current_concurrency < s[index_of(s, id)].effective_limit,
    ensures
        ({
            let i = index_of(s, id);
            let acquired = s.update(
                i,
                ChannelView { current_concurrency: (s[i].current_concurrency + 1) as usize, ..s[i] },
            );
            let j = index_of(acquired, id);
            has_id(acquired, id) && acquired.update(
                j,
                ChannelView {
                    current_concurrency: (acquired[j].current_concurrency - 1) as usize,
                    ..acquired[j]
                },
            ) == s
        }),
{
    let i = index_of(s, id);
    let acquired = s.update(
        i,
        ChannelView { current_concurrency: (s[i].current_concurrency + 1) as usize, ..s[i] },
    );
    assert(ids_unique(acquired)) by {
        assert forall|a: int, b: int|
            0 <= a < acquired.len() && 0 <= b < acquired.len() && a != b implies acquired[a].profile_id
            != acquired[b].profile_id by {
            assert(acquired[a].profile_id == s[a].profile_id);
            assert(acquired[b].profile_id == s[b].profile_id);
        }
    }
    assert(acquired[i].profile_id == id);
    lemma_index_of_unique(acquired, i);
    let back = acquired.update(
        i,
        ChannelView {
            current_concurrency: (acquired[i].current_concurrency - 1) as usize,
            ..acquired[i]
        },
    );
    assert(back =~= s);
}

/// After removing an id (ids being unique) no channel carries it any more.
pub proof fn law_remove_forgets_id(s: Seq<ChannelView>, id: Seq<char>)
    requires
        ids_unique(s),
        has_id(s, id),
    ensures
        !has_id(s.remove(index_of(s, id)), id),
        s.remove(index_of(s, id)).len() == s.len() - 1,
{
    let k = index_of(s, id);
    let t = s.remove(k);
    assert forall|i: int| 0 <= i < t.len() implies t[i].profile_id != id by {
        if i < k {
            assert(t[i] == s[i]);
        } else {
            assert(t[i] == s[i + 1]);
        }
    }
}

/// When every channel is disabled nothing can be selected, at any time and
/// for any random number, and the global gate is 0.
pub proof fn law_all_disabled_selects_nothing(s: Seq<ChannelView>, now: u64)
    requires
        forall|i: int| 0 <= i < s.len() ==> !(#[trigger] s[i]).enabled,
    ensures
        total_weight(s, now) == 0,
        enabled_capacity(s) == 0,
{
    lemma_weight_zero_iff_none_eligible(s, now, s.len() as int);
    assert forall|j: int| 0 <= j < s.len() implies !eligible(#[trigger] s[j], now) by {
        assert(!s[j].enabled);
    }
    lemma_capacity_all_disabled(s);
}

/// A selected channel is always one that can take the request: enabled,
/// below its concurrency limit in force and below its RPM / TPM limits.
pub proof fn law_selected_is_eligible(s: Seq<ChannelView>, now: u64, r: u64, res: Option<String>)
    requires
        selection_at(s, now, r, res),
        res is Some,
    ensures
        exists|i: int|
            0 <= i < s.len() && #[trigger] s[i].profile_id == res->0@ && eligible(s[i], now),
{
    let i = choose|i: int| lands_on(s, now, r, i) && #[trigger] s[i].profile_id == res->0@;
    assert(s[i].profile_id == res->0@ && eligible(s[i], now));
}

/// A 429 tightens the limit in force at once: it never grows, a limit of 2
/// or more strictly shrinks, a limit of 1 or more never drops below 1, and it
/// stays within the configured limit.
pub proof fn law_rate_limit_tightens(c: ChannelView, now: u64)
    requires
        c.effective_limit <= c.max_concurrency,
    ensures
        rate_limited(c, now).effective_limit <= c.effective_limit,
        c.effective_limit >= 2 ==> rate_limited(c, now).effective_limit < c.effective_limit,
        c.effective_limit >= 1 ==> rate_limited(c, now).effective_limit >= 1,
        rate_limited(c, now).effective_limit <= rate_limited(c, now).max_concurrency,
        rate_limited(c, now).max_concurrency == c.max_concurrency,
{
    let e = c.effective_limit as int;
    if e >= 2 {
        assert(e * 3 / 4 < e && e * 3 / 4 >= 1) by (nonlinear_arith)
            requires
                e >= 2,
        ;
    }
}

/// A success raises the limit in force by at most one and never past the
/// configured limit; within the cooldown after a 429 successes change
/// nothing, and once it is over the next success raises the limit by one
/// (while it is below the configured limit).
pub proof fn law_success_probes_back_within_ceiling(c: ChannelView, t: u64, later: u64)
    requires
        c.effective_limit <= c.max_concurrency,
    ensures
        succeeded(c, later).effective_limit <= c.max_concurrency,
        c.effective_limit <= succeeded(c, later).effective_limit <= c.effective_limit + 1,
        ({
            let r = rate_limited(c, t);
            &&& t <= later < t + ADAPT_COOLDOWN_MS ==> succeeded(r, later) == r
            &&& later >= t + ADAPT_COOLDOWN_MS && r.effective_limit < r.max_concurrency
                ==> succeeded(r, later).effective_limit == r.effective_limit + 1
        }),
{
}

} // verus!
