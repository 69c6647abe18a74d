//! Request statistics: token counts, the global concurrency gate, the slot
//! guard, the dedupe window and the per-minute buckets shown as RPM / TPM.
//!
//! The SQLite store itself lives outside the library; what it returns for a
//! window (sums per minute) is assembled into buckets here.
use vstd::prelude::*;

use crate::text::digit_char;

verus! {

/// Seven days, in milliseconds: how long request rows are kept.
pub const SEVEN_DAYS_MS: i64 = 604800000;

/// Dedupe only touches rows at least this old (one hour, in milliseconds).
pub const DEDUPE_MIN_AGE_MS: i64 = 3600000;

/// One minute in milliseconds.
pub const MINUTE_MS: i64 = 60000;

/// Tokens of one request, split in three kinds.
pub struct TokenCounts {
    pub input: u64,
    pub output: u64,
    pub cached: u64,
}

impl TokenCounts {
    /// All zero.
    pub fn zero() -> (t: Self)
        ensures
            t.input == 0 && t.output == 0 && t.cached == 0,
    {
        TokenCounts { input: 0, output: 0, cached: 0 }
    }

    /// Sum of the three kinds.
    pub fn total(&self) -> (r: u64)
        requires
            self.input + self.output + self.cached <= u64::MAX,
        ensures
            r == self.input + self.output + self.cached,
    {
        self.input + self.output + self.cached
    }

    /// A field-by-field copy.
    pub fn copy(&self) -> (r: Self)
        ensures
            r == *self,
    {
        TokenCounts { input: self.input, output: self.output, cached: self.cached }
    }
}

/// One minute of the RPM / TPM charts.
pub struct MinuteBucket {
    pub minute: String,
    pub rpm: u64,
    pub output_tokens: u64,
    pub input_tokens: u64,
    pub cached_tokens: u64,
}

/// `[floor, ceil)` of the rows that the startup dedupe may touch: older than
/// one hour, inside the seven-day retention. `None` when empty.
pub open spec fn spec_dedupe_range(now_ms: i64) -> Option<(i64, i64)> {
    let floor = now_ms - SEVEN_DAYS_MS;
    let ceil = now_ms - DEDUPE_MIN_AGE_MS;
    if ceil > floor {
        Some((floor as i64, ceil as i64))
    } else {
        None
    }
}

/// The dedupe window at time `now_ms`.
pub fn dedupe_range(now_ms: i64) -> (r: Option<(i64, i64)>)
    requires
        now_ms >= i64::MIN + SEVEN_DAYS_MS,
    ensures
        r == spec_dedupe_range(now_ms),
{
    let floor = now_ms - SEVEN_DAYS_MS;
    let ceil = now_ms - DEDUPE_MIN_AGE_MS;
    if ceil > floor {
        Some((floor, ceil))
    } else {
        None
    }
}

/// The dedupe window never reaches rows younger than one hour nor rows past
/// the retention period, and is never empty.
pub proof fn law_dedupe_spares_recent_rows(now_ms: i64)
    requires
        now_ms >= i64::MIN + SEVEN_DAYS_MS,
    ensures
        spec_dedupe_range(now_ms) matches Some((floor, ceil)) && floor == now_ms - SEVEN_DAYS_MS
            && ceil == now_ms - DEDUPE_MIN_AGE_MS && floor < ceil && ceil < now_ms,
{
}

// ──────── concurrency gate ────────

/// What `try_enter` decided.
pub enum GateEntry {
    /// The limit is reached: `active >= max`.
    Full,
    /// The store is not ready: the request goes through untracked (row id 0)
    /// and the counter is not touched.
    Untracked,
    /// The counter was incremented; the caller records the request row.
    Entered,
}

/// The number of requests in flight through the global gate.
pub struct Gate {
    active: u64,
}

impl Gate {
    pub fn new() -> (g: Self)
        ensures
            g.active() == 0,
    {
        Gate { active: 0 }
    }

    pub closed spec fn active(&self) -> u64 {
        self.active
    }

    /// Requests currently in flight.
    pub fn active_count(&self) -> (r: u64)
        ensures
            r == self.active(),
    {
        self.active
    }

    /// One attempt to enter under the limit `max`.
    pub fn try_enter(&mut self, max: u64, store_ready: bool) -> (e: GateEntry)
        ensures
            old(self).active() >= max ==> e is Full && final(self).active() == old(self).active(),
            old(self).active() < max && !store_ready ==> e is Untracked && final(self).active()
                == old(self).active(),
            old(self).active() < max && store_ready ==> e is Entered && final(self).active()
                == old(self).active() + 1,
    {
        if self.active >= max {
            return GateEntry::Full;
        }
        if !store_ready {
            return GateEntry::Untracked;
        }
        self.active = self.active + 1;
        GateEntry::Entered
    }

    /// Gives one slot back (the counter wraps below zero, as an atomic
    /// `fetch_sub` does).
    pub fn leave(&mut self)
        ensures
            final(self).active() == (if old(self).active() == 0 {
                u64::MAX
            } else {
                (old(self).active() - 1) as u64
            }),
    {
        self.active = self.active.wrapping_sub(1);
    }

    /// A finished request with row id `rowid`: a row id of 0 was never
    /// counted and gives nothing back.
    pub fn finish(&mut self, rowid: i64)
        ensures
            final(self).active() == finish_effect(rowid, old(self).active()),
    {
        if rowid > 0 {
            self.leave();
        }
    }
}

/// The current number of requests in flight.
pub fn active(gate: &Gate) -> (r: u64)
    ensures
        r == gate.active(),
{
    gate.active_count()
}

// ──────── slot guard ────────

/// Holds one slot of the global gate. While armed, dropping it gives the
/// slot back; `disarm` hands that duty to the caller.
pub struct SlotGuard {
    idx: i64,
    armed: bool,
}

impl SlotGuard {
    pub closed spec fn spec_idx(&self) -> i64 {
        self.idx
    }

    pub closed spec fn is_armed(&self) -> bool {
        self.armed
    }

    /// Whether dropping this guard gives a slot back.
    pub open spec fn releases_on_drop(&self) -> bool {
        self.is_armed() && self.spec_idx() > 0
    }

    pub fn new(idx: i64) -> (g: Self)
        ensures
            g.spec_idx() == idx,
            g.is_armed(),
    {
        SlotGuard { idx, armed: true }
    }

    /// The row id, without changing whether the guard is armed.
    pub fn idx(&self) -> (r: i64)
        ensures
            r == self.spec_idx(),
    {
        self.idx
    }

    /// Hands the release over to the caller and returns the row id.
    pub fn disarm(self) -> (r: i64)
        ensures
            r == self.spec_idx(),
    {
        self.idx
    }

    /// What a drop of the guard does to the counter.
    pub fn release_on_drop(&self, gate: &mut Gate)
        ensures
            final(gate).active() == drop_effect(*self, old(gate).active()),
    {
        if self.armed && self.idx > 0 {
            gate.leave();
        }
    }
}

/// The counter after one release (wrapping below zero as the counter
/// does).
pub open spec fn released(active: u64) -> u64 {
    if active == 0 {
        u64::MAX
    } else {
        (active - 1) as u64
    }
}

/// The counter after dropping `g`.
pub open spec fn drop_effect(g: SlotGuard, active: u64) -> u64 {
    if g.releases_on_drop() {
        released(active)
    } else {
        active
    }
}

/// The counter after finishing row `rowid`.
pub open spec fn finish_effect(rowid: i64, active: u64) -> u64 {
    if rowid > 0 {
        released(active)
    } else {
        active
    }
}

/// A slot taken for a recorded row is given back exactly once on either
/// path: dropping the armed guard releases it, and disarming it instead
/// hands back the row id whose finish releases it the same way; a guard of
/// an untracked request (row id 0) releases nothing on either path.
pub proof fn law_slot_released_once(g: SlotGuard, active: u64)
    requires
        g.is_armed(),
    ensures
        drop_effect(g, active) == finish_effect(g.spec_idx(), active),
        g.spec_idx() > 0 ==> drop_effect(g, active) == released(active),
        g.spec_idx() <= 0 ==> drop_effect(g, active) == active,
{
}

// ──────── per-minute buckets ────────

/// Token sums of one minute (`minute_ms`, input, output, cached), as the
/// store aggregates them.
pub type TokenRow = (i64, u64, u64, u64);

/// Request count of one minute (`minute_ms`, count).
pub type RpmRow = (i64, u64);

/// The token sums of minute `m`: the last row for `m`, or zeros.
pub open spec fn tokens_for(rows: Seq<TokenRow>, m: i64) -> (u64, u64, u64)
    decreases rows.len(),
{
    if rows.len() == 0 {
        (0, 0, 0)
    } else if rows.last().0 == m {
        (rows.last().1, rows.last().2, rows.last().3)
    } else {
        tokens_for(rows.drop_last(), m)
    }
}

/// The request count of minute `m`: the last row for `m`, or zero.
pub open spec fn rpm_for(rows: Seq<RpmRow>, m: i64) -> u64
    decreases rows.len(),
{
    if rows.len() == 0 {
        0
    } else if rows.last().0 == m {
        rows.last().1
    } else {
        rpm_for(rows.drop_last(), m)
    }
}

/// Two decimal digits of `n` (0 to 99), zero-padded.
pub open spec fn two_digits(n: int) -> Seq<char> {
    seq![digit_char((n / 10) as nat), digit_char((n % 10) as nat)]
}

/// Month and day (proleptic Gregorian) of the day `days` after 1970-01-01.
pub open spec fn civil_month_day(days: int) -> (int, int) {
    let z = days + 719468;
    let era = z / 146097;
    let doe = z - era * 146097;
    let yoe = (doe - doe / 1460 + doe / 36524 - doe / 146096) / 365;
    let doy = doe - (365 * yoe + yoe / 4 - yoe / 100);
    let mp = (5 * doy + 2) / 153;
    let d = doy - (153 * mp + 2) / 5 + 1;
    (if mp < 10 { mp + 3 } else { mp - 9 }, d)
}

/// The text chrono writes for the local time `local_ms` (ms after
/// 1970-01-01T00:00 local): `%H:%M`, or `%m-%d %H:%M` with the date.
pub open spec fn clock_label(local_ms: int, with_date: bool) -> Seq<char> {
    let hm = two_digits((local_ms / 3600000) % 24) + seq![':'] + two_digits((local_ms / 60000) % 60);
    if with_date {
        let (mo, d) = civil_month_day(local_ms / 86400000);
        two_digits(mo) + seq!['-'] + two_digits(d) + seq![' '] + hm
    } else {
        hm
    }
}

/// The label of the UTC instant `m` (ms) read at a UTC offset of `off`
/// seconds.
pub open spec fn label_at(m: int, off: int, with_date: bool) -> Seq<char> {
    clock_label(m + off * 1000, with_date)
}

/// Instants within this distance (ms) of the epoch are inside chrono's
/// date range, a local offset included.
pub const LABEL_SAFE_MS: i64 = 8_000_000_000_000_000;

/// `label` names the minute starting at the UTC instant `m`: it is that
/// minute's text in a local time whose offset from UTC is under a day (the
/// machine's time zone, which nothing here names).
pub open spec fn labels_minute(label: Seq<char>, m: int, with_date: bool) -> bool {
    -LABEL_SAFE_MS <= m <= LABEL_SAFE_MS ==> exists|off: int|
        -86400 < off < 86400 && #[trigger] label_at(m, off, with_date) == label
}


/// Bucket `b` holds the numbers of minute `m`.
pub open spec fn bucket_holds(
    b: MinuteBucket,
    tokens: Seq<TokenRow>,
    rpm: Seq<RpmRow>,
    m: i64,
    with_date: bool,
) -> bool {
    &&& labels_minute(b.minute@, m as int, with_date)
    &&& b.rpm == rpm_for(rpm, m)
    &&& b.input_tokens == tokens_for(tokens, m).0
    &&& b.output_tokens == tokens_for(tokens, m).1
    &&& b.cached_tokens == tokens_for(tokens, m).2
}

fn lookup_tokens(rows: &Vec<TokenRow>, m: i64) -> (r: (u64, u64, u64))
    ensures
        r == tokens_for(rows@, m),
{
    let mut i: usize = rows.len();
    assert(rows@.take(rows@.len() as int) =~= rows@);
    while i > 0
        invariant
            i <= rows@.len(),
            tokens_for(rows@, m) == tokens_for(rows@.take(i as int), m),
        decreases i,
    {
        let row = rows[i - 1];
        assert(rows@.take(i as int).drop_last() =~= rows@.take(i - 1));
        assert(rows@.take(i as int).last() == row);
        if row.0 == m {
            return (row.1, row.2, row.3);
        }
        i = i - 1;
    }
    assert(rows@.take(0).len() == 0);
    (0, 0, 0)
}

fn lookup_rpm(rows: &Vec<RpmRow>, m: i64) -> (r: u64)
    ensures
        r == rpm_for(rows@, m),
{
    let mut i: usize = rows.len();
    assert(rows@.take(rows@.len() as int) =~= rows@);
    while i > 0
        invariant
            i <= rows@.len(),
            rpm_for(rows@, m) == rpm_for(rows@.take(i as int), m),
        decreases i,
    {
        let row = rows[i - 1];
        assert(rows@.take(i as int).drop_last() =~= rows@.take(i - 1));
        assert(rows@.take(i as int).last() == row);
        if row.0 == m {
            return row.1;
        }
        i = i - 1;
    }
    assert(rows@.take(0).len() == 0);
    0
}

/// The chrono format of a minute label: `%m-%d %H:%M` with the date,
/// `%H:%M` without.
pub fn minute_label_format(with_date: bool) -> (r: &'static str)
    ensures
        r@ == (if with_date {
            "%m-%d %H:%M"@
        } else {
            "%H:%M"@
        }),
{
    proof {
        reveal_strlit("%m-%d %H:%M");
        reveal_strlit("%H:%M");
    }
    if with_date {
        "%m-%d %H:%M"
    } else {
        "%H:%M"
    }
}

/// chrono's `DateTime::from_timestamp_millis` (the epoch where out of
/// range), `with_timezone(&Local)` and `format(fmt)`: the minute starting at
/// `minute_ms` written in local time. Only the two label formats are
/// admitted (a malformed format makes chrono's formatting fail, and
/// `to_string` panic). Stated: within chrono's range the text is the
/// `%H:%M` (or `%m-%d %H:%M`) text of the instant shifted by the local
/// offset, a whole number of seconds under a day (`FixedOffset`); which
/// offset is the machine's time zone, left unstated.
#[verifier::external_body]
fn local_minute_label(minute_ms: i64, fmt: &str) -> (r: String)
    requires
        fmt@ == "%H:%M"@ || fmt@ == "%m-%d %H:%M"@,
    ensures
        labels_minute(r@, minute_ms as int, fmt@ == "%m-%d %H:%M"@),
{
    chrono::DateTime::from_timestamp_millis(minute_ms)
        .unwrap_or_default()
        .with_timezone(&chrono::Local)
        .format(fmt)
        .to_string()
}

/// The minute (ms) that contains `t_ms`.
pub open spec fn spec_floor_minute(t_ms: i64) -> int {
    t_ms - ((t_ms as int) % (MINUTE_MS as int))
}

/// Buckets of `count` consecutive minutes starting at `first_ms`, filled
/// from the store's rows; minutes without rows are zero.
pub fn assemble_buckets(
    first_ms: i64,
    count: u64,
    tokens: &Vec<TokenRow>,
    rpm: &Vec<RpmRow>,
    with_date: bool,
) -> (out: Vec<MinuteBucket>)
    requires
        first_ms + count * MINUTE_MS <= i64::MAX,
        count * MINUTE_MS <= i64::MAX,
        count <= usize::MAX,
    ensures
        out@.len() == count,
        forall|i: int|
            0 <= i < count ==> bucket_holds(
                #[trigger] out@[i],
                tokens@,
                rpm@,
                (first_ms + i * MINUTE_MS) as i64,
                with_date,
            ),
{
    let fmt = minute_label_format(with_date);
    proof {
        reveal_strlit("%H:%M");
        reveal_strlit("%m-%d %H:%M");
        assert("%H:%M"@.len() != "%m-%d %H:%M"@.len());
    }
    let mut out: Vec<MinuteBucket> = Vec::new();
    let mut i: u64 = 0;
    while i < count
        invariant
            fmt@ == "%H:%M"@ || fmt@ == "%m-%d %H:%M"@,
            i <= count,
            first_ms + count * MINUTE_MS <= i64::MAX,
            count * MINUTE_MS <= i64::MAX,
            out@.len() == i,
            forall|j: int|
                0 <= j < i ==> bucket_holds(
                    #[trigger] out@[j],
                    tokens@,
                    rpm@,
                    (first_ms + j * MINUTE_MS) as i64,
                    with_date,
                ),
            (fmt@ == "%m-%d %H:%M"@) == with_date,
        decreases count - i,
    {
        assert(i * MINUTE_MS <= count * MINUTE_MS) by (nonlinear_arith)
            requires
                i <= count,
        ;
        assert(first_ms + i * MINUTE_MS >= first_ms) by (nonlinear_arith)
            requires
                i >= 0,
        ;
        let m: i64 = first_ms + (i as i64) * MINUTE_MS;
        let (input, output, cached) = lookup_tokens(tokens, m);
        let n = lookup_rpm(rpm, m);
        out.push(
            MinuteBucket {
                minute: local_minute_label(m, fmt),
                rpm: n,
                output_tokens: output,
                input_tokens: input,
                cached_tokens: cached,
            },
        );
        i = i + 1;
    }
    out
}

/// The minute (ms) that contains `t_ms`.
pub fn floor_minute(t_ms: i64) -> (r: i64)
    requires
        t_ms >= i64::MIN + MINUTE_MS,
    ensures
        r == spec_floor_minute(t_ms),
{
    let rem = t_ms % MINUTE_MS;
    if rem < 0 {
        t_ms - (rem + MINUTE_MS)
    } else {
        t_ms - rem
    }
}

/// Buckets of the last `window_minutes` minutes at time `now_ms`: the oldest
/// first, the last one being the current (incomplete) minute; labelled `%H:%M`.
pub fn buckets_from_rows(
    now_ms: i64,
    window_minutes: u32,
    tokens: &Vec<TokenRow>,
    rpm: &Vec<RpmRow>,
) -> (out: Vec<MinuteBucket>)
    requires
        now_ms >= i64::MIN + 0x1_0000_0000 * MINUTE_MS,
        now_ms <= i64::MAX - MINUTE_MS,
    ensures
        out@.len() == window_minutes,
        forall|i: int|
            0 <= i < window_minutes ==> bucket_holds(
                #[trigger] out@[i],
                tokens@,
                rpm@,
                (spec_floor_minute(now_ms) - (window_minutes - 1 - i) * MINUTE_MS) as i64,
                false,
            ),
{
    let floor = floor_minute(now_ms);
    if window_minutes == 0 {
        return Vec::new();
    }
    assert(window_minutes * MINUTE_MS <= 0x1_0000_0000 * MINUTE_MS) by (nonlinear_arith)
        requires
            window_minutes < 0x1_0000_0000,
    ;
    let first: i64 = floor - ((window_minutes - 1) as i64) * MINUTE_MS;
    let out = assemble_buckets(first, window_minutes as u64, tokens, rpm, false);
    assert forall|i: int| 0 <= i < window_minutes implies bucket_holds(
        #[trigger] out@[i],
        tokens@,
        rpm@,
        (spec_floor_minute(now_ms) - (window_minutes - 1 - i) * MINUTE_MS) as i64,
        false,
    ) by {
        assert(first + i * MINUTE_MS == spec_floor_minute(now_ms) - (window_minutes - 1 - i)
            * MINUTE_MS) by (nonlinear_arith)
            requires
                first == spec_floor_minute(now_ms) - (window_minutes - 1) * MINUTE_MS,
        ;
    }
    out
}

/// Buckets of each whole minute in `[start_ms, end_ms)`, labelled
/// `%m-%d %H:%M`; an empty range gives no bucket.
pub fn buckets_range_from_rows(
    start_ms: i64,
    end_ms: i64,
    tokens: &Vec<TokenRow>,
    rpm: &Vec<RpmRow>,
) -> (out: Vec<MinuteBucket>)
    requires
        end_ms as int - start_ms as int <= i64::MAX,
        start_ms as int - end_ms as int <= i64::MAX,
        (end_ms as int - start_ms as int) / (MINUTE_MS as int) <= usize::MAX,
    ensures
        out@.len() == (if end_ms > start_ms { (end_ms - start_ms) / (MINUTE_MS as int) } else { 0 }),
        forall|i: int|
            0 <= i < out@.len() ==> bucket_holds(
                #[trigger] out@[i],
                tokens@,
                rpm@,
                (start_ms + i * MINUTE_MS) as i64,
                true,
            ),
{
    if end_ms <= start_ms {
        return Vec::new();
    }
    let total: i64 = (end_ms - start_ms) / MINUTE_MS;
    assert(total * MINUTE_MS <= end_ms - start_ms) by (nonlinear_arith)
        requires
            total == (end_ms - start_ms) / (MINUTE_MS as int),
            end_ms - start_ms > 0,
    ;
    assemble_buckets(start_ms, total as u64, tokens, rpm, true)
}

/// A decimal digit below ten reads back as its value.
proof fn lemma_digit_value(d: nat)
    requires
        d < 10,
    ensures
        digit_char(d) as u32 == d + 48,
{
    if d == 0 {} else if d == 1 {} else if d == 2 {} else if d == 3 {} else if d == 4 {
    } else if d == 5 {} else if d == 6 {} else if d == 7 {} else if d == 8 {} else {}
}

/// Equal two-digit texts (of numbers below 100) are of equal numbers.
proof fn lemma_two_digits_injective(a: int, b: int)
    requires
        0 <= a < 100,
        0 <= b < 100,
        two_digits(a)[0] == two_digits(b)[0],
        two_digits(a)[1] == two_digits(b)[1],
    ensures
        a == b,
{
    lemma_digit_value((a / 10) as nat);
    lemma_digit_value((b / 10) as nat);
    lemma_digit_value((a % 10) as nat);
    lemma_digit_value((b % 10) as nat);
}

/// Hours of a time are its minutes' hours: `l / 3600000 == (l / 60000) / 60`.
proof fn lemma_hour_of_minutes(l: int)
    ensures
        l / 3600000 == (l / 60000) / 60,
{
    let q = l / 60000;
    let r = l % 60000;
    let p = q / 60;
    let s = q % 60;
    assert(l == 60000 * q + r && 0 <= r < 60000);
    assert(q == 60 * p + s && 0 <= s < 60);
    assert(l == 3600000 * p + (60000 * s + r));
    assert(0 <= 60000 * s + r < 3600000);
    vstd::arithmetic::div_mod::lemma_fundamental_div_mod_converse(l, 3600000, p, 60000 * s + r);
}

/// Shifting a time by whole minutes shifts its minute count alike.
proof fn lemma_minutes_shift(l: int, k: int)
    ensures
        (l + k * 60000) / 60000 == l / 60000 + k,
{
    vstd::arithmetic::div_mod::lemma_hoist_over_denominator(l, k, 60000);
}

/// Minute counts less than a day apart with the same hour and minute of
/// the day are equal.
proof fn lemma_same_minute_of_day(q1: int, q2: int)
    requires
        -1440 < q1 - q2 < 1440,
        (q1 / 60) % 24 == (q2 / 60) % 24,
        q1 % 60 == q2 % 60,
    ensures
        q1 == q2,
{
    let a1 = q1 / 60;
    let a2 = q2 / 60;
    assert(q1 == 60 * a1 + q1 % 60);
    assert(q2 == 60 * a2 + q2 % 60);
    assert(q1 - q2 == 60 * (a1 - a2));
    assert(-24 < a1 - a2 < 24);
    assert(a1 == 24 * (a1 / 24) + a1 % 24);
    assert(a2 == 24 * (a2 / 24) + a2 % 24);
    assert(a1 - a2 == 24 * (a1 / 24 - a2 / 24));
}

/// A minute label names its minute: read at the same UTC offset, two
/// different minutes less than a day apart never have the same label, with
/// or without the date.
pub proof fn law_labels_tell_minutes_apart(m1: int, m2: int, off: int, with_date: bool)
    requires
        m1 % 60000 == 0,
        m2 % 60000 == 0,
        m1 != m2,
        -86400000 < m1 - m2 < 86400000,
    ensures
        label_at(m1, off, with_date) != label_at(m2, off, with_date),
{
    let l1 = m1 + off * 1000;
    let l2 = m2 + off * 1000;
    let h1 = (l1 / 3600000) % 24;
    let h2 = (l2 / 3600000) % 24;
    let n1 = (l1 / 60000) % 60;
    let n2 = (l2 / 60000) % 60;
    let s1 = label_at(m1, off, with_date);
    let s2 = label_at(m2, off, with_date);
    let p: int = if with_date { 6 } else { 0 };
    let hm1 = two_digits(h1) + seq![':'] + two_digits(n1);
    let hm2 = two_digits(h2) + seq![':'] + two_digits(n2);
    if with_date {
        let (mo1, d1) = civil_month_day(l1 / 86400000);
        let (mo2, d2) = civil_month_day(l2 / 86400000);
        assert(s1 == two_digits(mo1) + seq!['-'] + two_digits(d1) + seq![' '] + hm1);
        assert(s2 == two_digits(mo2) + seq!['-'] + two_digits(d2) + seq![' '] + hm2);
    } else {
        assert(s1 == hm1);
        assert(s2 == hm2);
    }
    assert(s1.len() == p + 5 && s2.len() == p + 5);
    assert(s1[p] == two_digits(h1)[0] && s1[p + 1] == two_digits(h1)[1]);
    assert(s1[p + 3] == two_digits(n1)[0] && s1[p + 4] == two_digits(n1)[1]);
    assert(s2[p] == two_digits(h2)[0] && s2[p + 1] == two_digits(h2)[1]);
    assert(s2[p + 3] == two_digits(n2)[0] && s2[p + 4] == two_digits(n2)[1]);
    if s1 == s2 {
        lemma_two_digits_injective(h1, h2);
        lemma_two_digits_injective(n1, n2);
        let k = (m1 - m2) / 60000;
        assert(m1 - m2 == k * 60000);
        assert(-1440 < k < 1440);
        assert(l1 == l2 + k * 60000);
        lemma_minutes_shift(l2, k);
        lemma_hour_of_minutes(l1);
        lemma_hour_of_minutes(l2);
        lemma_same_minute_of_day(l1 / 60000, l2 / 60000);
        assert(k == 0);
    }
}


proof fn lemma_rpm_for_absent(rows: Seq<RpmRow>, m: i64)
    requires
        forall|j: int| 0 <= j < rows.len() ==> (#[trigger] rows[j]).0 != m,
    ensures
        rpm_for(rows, m) == 0,
    decreases rows.len(),
{
    if rows.len() > 0 {
        let d = rows.drop_last();
        assert forall|j: int| 0 <= j < d.len() implies (#[trigger] d[j]).0 != m by {
            assert(d[j] == rows[j]);
        }
        lemma_rpm_for_absent(d, m);
        assert(rows[rows.len() - 1].0 != m);
    }
}

proof fn lemma_rpm_for_last(rows: Seq<RpmRow>, m: i64, j: int)
    requires
        0 <= j < rows.len(),
        rows[j].0 == m,
        forall|k: int| j < k < rows.len() ==> (#[trigger] rows[k]).0 != m,
    ensures
        rpm_for(rows, m) == rows[j].1,
    decreases rows.len(),
{
    if j < rows.len() - 1 {
        let d = rows.drop_last();
        assert(rows[rows.len() - 1].0 != m);
        assert forall|k: int| j < k < d.len() implies (#[trigger] d[k]).0 != m by {
            assert(d[k] == rows[k]);
        }
        lemma_rpm_for_last(d, m, j);
        assert(d[j] == rows[j]);
    }
}

proof fn lemma_tokens_for_absent(rows: Seq<TokenRow>, m: i64)
    requires
        forall|j: int| 0 <= j < rows.len() ==> (#[trigger] rows[j]).0 != m,
    ensures
        tokens_for(rows, m) == (0u64, 0u64, 0u64),
    decreases rows.len(),
{
    if rows.len() > 0 {
        let d = rows.drop_last();
        assert forall|j: int| 0 <= j < d.len() implies (#[trigger] d[j]).0 != m by {
            assert(d[j] == rows[j]);
        }
        lemma_tokens_for_absent(d, m);
        assert(rows[rows.len() - 1].0 != m);
    }
}

proof fn lemma_tokens_for_last(rows: Seq<TokenRow>, m: i64, j: int)
    requires
        0 <= j < rows.len(),
        rows[j].0 == m,
        forall|k: int| j < k < rows.len() ==> (#[trigger] rows[k]).0 != m,
    ensures
        tokens_for(rows, m) == (rows[j].1, rows[j].2, rows[j].3),
    decreases rows.len(),
{
    if j < rows.len() - 1 {
        let d = rows.drop_last();
        assert(rows[rows.len() - 1].0 != m);
        assert forall|k: int| j < k < d.len() implies (#[trigger] d[k]).0 != m by {
            assert(d[k] == rows[k]);
        }
        lemma_tokens_for_last(d, m, j);
        assert(d[j] == rows[j]);
    }
}

/// A bucket counts its own minute: its request count and token sums are
/// those of the last row whose minute is the bucket's, and zero where no
/// row has that minute.
pub proof fn law_bucket_counts_its_own_minute(
    b: MinuteBucket,
    tokens: Seq<TokenRow>,
    rpm: Seq<RpmRow>,
    m: i64,
    with_date: bool,
)
    requires
        bucket_holds(b, tokens, rpm, m, with_date),
    ensures
        (forall|j: int| 0 <= j < rpm.len() ==> (#[trigger] rpm[j]).0 != m) ==> b.rpm == 0,
        forall|j: int|
            0 <= j < rpm.len() && (#[trigger] rpm[j]).0 == m && (forall|k: int|
                j < k < rpm.len() ==> (#[trigger] rpm[k]).0 != m) ==> b.rpm == rpm[j].1,
        (forall|j: int| 0 <= j < tokens.len() ==> (#[trigger] tokens[j]).0 != m) ==> (b.input_tokens
            == 0 && b.output_tokens == 0 && b.cached_tokens == 0),
        forall|j: int|
            0 <= j < tokens.len() && (#[trigger] tokens[j]).0 == m && (forall|k: int|
                j < k < tokens.len() ==> (#[trigger] tokens[k]).0 != m) ==> (b.input_tokens
                == tokens[j].1 && b.output_tokens == tokens[j].2 && b.cached_tokens == tokens[j].3),
{
    if forall|j: int| 0 <= j < rpm.len() ==> (#[trigger] rpm[j]).0 != m {
        lemma_rpm_for_absent(rpm, m);
    }
    if forall|j: int| 0 <= j < tokens.len() ==> (#[trigger] tokens[j]).0 != m {
        lemma_tokens_for_absent(tokens, m);
    }
    assert forall|j: int|
        0 <= j < rpm.len() && (#[trigger] rpm[j]).0 == m && (forall|k: int|
            j < k < rpm.len() ==> (#[trigger] rpm[k]).0 != m) implies b.rpm == rpm[j].1 by {
        lemma_rpm_for_last(rpm, m, j);
    }
    assert forall|j: int|
        0 <= j < tokens.len() && (#[trigger] tokens[j]).0 == m && (forall|k: int|
            j < k < tokens.len() ==> (#[trigger] tokens[k]).0 != m) implies (b.input_tokens
        == tokens[j].1 && b.output_tokens == tokens[j].2 && b.cached_tokens == tokens[j].3) by {
        lemma_tokens_for_last(tokens, m, j);
    }
}

} // verus!
