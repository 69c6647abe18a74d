//! Proxy state: the upstream formats, the global configuration, the
//! per-profile channel credentials, server status, and the leases that hold
//! a global slot and a channel slot for one request.
use vstd::prelude::*;

use crate::scheduler::{
    has_id, index_of, rate_limited_in, selection_at, succeeded_in, ChannelView, Scheduler,
};
use crate::stats::{Gate, GateEntry, SlotGuard};
use crate::text::{str_eq, trim_spec, trimmed};

verus! {

/// The API format spoken by an upstream.
#[derive(Clone, Copy, Debug, PartialEq, Eq, Structural)]
pub enum UpstreamFormat {
    /// OpenAI Responses API (the default)
    Responses,
    /// OpenAI Chat Completions
    ChatCompletions,
    /// Anthropic Messages
    Anthropic,
}

impl Default for UpstreamFormat {
    fn default() -> (r: Self)
        ensures
            r == UpstreamFormat::Responses,
    {
        UpstreamFormat::Responses
    }
}

/// The format named by a configuration string: `chat_completions`,
/// `anthropic`, anything else meaning Responses.
pub open spec fn spec_format_from_str(s: Seq<char>) -> UpstreamFormat {
    if s == "chat_completions"@ {
        UpstreamFormat::ChatCompletions
    } else if s == "anthropic"@ {
        UpstreamFormat::Anthropic
    } else {
        UpstreamFormat::Responses
    }
}

impl UpstreamFormat {
    pub fn from_str(s: &str) -> (r: Self)
        ensures
            r == spec_format_from_str(s@),
    {
        if str_eq(s, "chat_completions") {
            UpstreamFormat::ChatCompletions
        } else if str_eq(s, "anthropic") {
            UpstreamFormat::Anthropic
        } else {
            UpstreamFormat::Responses
        }
    }
}

/// The global proxy configuration.
pub struct ProxyConfig {
    pub api_key: String,
    pub model_override: String,
    pub port: u16,
    /// Upstream Responses API address (editable in the settings panel)
    pub upstream_url: String,
    /// Maximum concurrency (0: no global gate)
    pub max_concurrency: usize,
    /// Upstream API format
    pub upstream_format: UpstreamFormat,
}

impl ProxyConfig {
    /// A field-by-field copy.
    pub fn copy(&self) -> (r: Self)
        ensures
            r == *self,
    {
        ProxyConfig {
            api_key: self.api_key.clone(),
            model_override: self.model_override.clone(),
            port: self.port,
            upstream_url: self.upstream_url.clone(),
            max_concurrency: self.max_concurrency,
            upstream_format: self.upstream_format,
        }
    }
}

/// The upstream credentials of one scheduled channel.
pub struct ChannelConfig {
    pub api_key: String,
    pub upstream_url: String,
    pub upstream_format: UpstreamFormat,
    pub model_override: String,
}

impl ChannelConfig {
    /// A field-by-field copy.
    pub fn copy(&self) -> (r: Self)
        ensures
            r == *self,
    {
        ChannelConfig {
            api_key: self.api_key.clone(),
            upstream_url: self.upstream_url.clone(),
            upstream_format: self.upstream_format,
            model_override: self.model_override.clone(),
        }
    }
}

/// The credentials that the global configuration stands for.
pub open spec fn global_channel(g: ProxyConfig) -> ChannelConfig {
    ChannelConfig {
        api_key: g.api_key,
        upstream_url: g.upstream_url,
        upstream_format: g.upstream_format,
        model_override: g.model_override,
    }
}

fn channel_from_global(g: &ProxyConfig) -> (c: ChannelConfig)
    ensures
        c == global_channel(*g),
{
    ChannelConfig {
        api_key: g.api_key.clone(),
        upstream_url: g.upstream_url.clone(),
        upstream_format: g.upstream_format,
        model_override: g.model_override.clone(),
    }
}

// ──────── channel credentials by profile id ────────

/// The credentials registered under key `k` (the first entry with that key).
pub open spec fn lookup(s: Seq<(Seq<char>, ChannelConfig)>, k: Seq<char>) -> Option<ChannelConfig>
    decreases s.len(),
{
    if s.len() == 0 {
        None
    } else if s[0].0 == k {
        Some(s[0].1)
    } else {
        lookup(s.drop_first(), k)
    }
}

/// No key is registered twice.
pub open spec fn keys_unique(s: Seq<(Seq<char>, ChannelConfig)>) -> bool {
    forall|i: int, j: int| 0 <= i < s.len() && 0 <= j < s.len() && i != j ==> s[i].0 != s[j].0
}

proof fn lemma_lookup_at(s: Seq<(Seq<char>, ChannelConfig)>, i: int)
    requires
        keys_unique(s),
        0 <= i < s.len(),
    ensures
        lookup(s, s[i].0) == Some(s[i].1),
    decreases s.len(),
{
    if i > 0 {
        assert(s[0].0 != s[i].0);
        let t = s.drop_first();
        assert(t[i - 1] == s[i]);
        assert(keys_unique(t)) by {
            assert forall|a: int, b: int| 0 <= a < t.len() && 0 <= b < t.len() && a != b implies t[a].0
                != t[b].0 by {
                assert(t[a] == s[a + 1] && t[b] == s[b + 1]);
            }
        }
        lemma_lookup_at(t, i - 1);
    }
}

proof fn lemma_lookup_absent(s: Seq<(Seq<char>, ChannelConfig)>, k: Seq<char>)
    requires
        forall|i: int| 0 <= i < s.len() ==> s[i].0 != k,
    ensures
        lookup(s, k) is None,
    decreases s.len(),
{
    if s.len() > 0 {
        let t = s.drop_first();
        assert forall|i: int| 0 <= i < t.len() implies t[i].0 != k by {
            assert(t[i] == s[i + 1]);
        }
        lemma_lookup_absent(t, k);
    }
}

/// Credentials per profile id.
pub struct ChannelRegistry {
    entries: Vec<(String, ChannelConfig)>,
}

impl View for ChannelRegistry {
    type V = Seq<(Seq<char>, ChannelConfig)>;

    closed spec fn view(&self) -> Seq<(Seq<char>, ChannelConfig)> {
        self.entries@.map_values(|e: (String, ChannelConfig)| (e.0@, e.1))
    }
}

impl ChannelRegistry {
    pub closed spec fn wf(&self) -> bool {
        keys_unique(self@)
    }

    pub fn new() -> (r: Self)
        ensures
            r.wf(),
            forall|k: Seq<char>| lookup(r@, k) is None,
    {
        let r = ChannelRegistry { entries: Vec::new() };
        assert(r@ =~= Seq::<(Seq<char>, ChannelConfig)>::empty());
        r
    }

    fn find(&self, key: &str) -> (r: Option<usize>)
        requires
            self.wf(),
        ensures
            match r {
                Some(i) => i < self@.len() && self@[i as int].0 == key@,
                None => forall|j: int| 0 <= j < self@.len() ==> self@[j].0 != key@,
            },
    {
        let n = self.entries.len();
        let mut i: usize = 0;
        while i < n
            invariant
                n == self.entries@.len(),
                n == self@.len(),
                i <= n,
                forall|j: int| 0 <= j < i ==> self@[j].0 != key@,
            decreases n - i,
        {
            assert(self@[i as int] == (self.entries@[i as int].0@, self.entries@[i as int].1));
            if str_eq(self.entries[i].0.as_str(), key) {
                return Some(i);
            }
            i = i + 1;
        }
        None
    }

    /// Registers (or replaces) the credentials of `key`; other keys keep theirs.
    pub fn insert(&mut self, key: &str, cfg: ChannelConfig)
        requires
            old(self).wf(),
        ensures
            final(self).wf(),
            forall|k: Seq<char>|
                #[trigger] lookup(final(self)@, k) == if k == key@ {
                    Some(cfg)
                } else {
                    lookup(old(self)@, k)
                },
    {
        let ghost before = self@;
        let ghost c = cfg;
        match self.find(key) {
            Some(i) => {
                self.entries.set(i, (crate::text::to_owned(key), cfg));
                proof {
                    assert(self@ =~= before.update(i as int, (key@, c)));
                    assert forall|k: Seq<char>| #[trigger] lookup(self@, k) == if k == key@ {
                        Some(c)
                    } else {
                        lookup(before, k)
                    } by {
                        if k == key@ {
                            lemma_lookup_at(self@, i as int);
                        } else {
                            lemma_lookup_update_other(before, i as int, (key@, c), k);
                        }
                    }
                }
            },
            None => {
                self.entries.push((crate::text::to_owned(key), cfg));
                proof {
                    assert(self@ =~= before.push((key@, c)));
                    assert(keys_unique(self@));
                    assert forall|k: Seq<char>| #[trigger] lookup(self@, k) == if k == key@ {
                        Some(c)
                    } else {
                        lookup(before, k)
                    } by {
                        if k == key@ {
                            lemma_lookup_at(self@, before.len() as int);
                        } else {
                            lemma_lookup_push_other(before, (key@, c), k);
                        }
                    }
                }
            },
        }
    }

    /// Forgets the credentials of `key`; other keys keep theirs.
    pub fn remove(&mut self, key: &str)
        requires
            old(self).wf(),
        ensures
            final(self).wf(),
            forall|k: Seq<char>|
                #[trigger] lookup(final(self)@, k) == if k == key@ {
                    None
                } else {
                    lookup(old(self)@, k)
                },
    {
        let ghost before = self@;
        match self.find(key) {
            Some(i) => {
                self.entries.remove(i);
                proof {
                    assert(self@ =~= before.remove(i as int));
                    assert(keys_unique(self@)) by {
                        assert forall|a: int, b: int|
                            0 <= a < self@.len() && 0 <= b < self@.len() && a != b implies self@[a].0
                            != self@[b].0 by {
                            let a2 = if a < i { a } else { a + 1 };
                            let b2 = if b < i { b } else { b + 1 };
                            assert(self@[a] == before[a2] && self@[b] == before[b2]);
                        }
                    }
                    assert forall|k: Seq<char>| #[trigger] lookup(self@, k) == if k == key@ {
                        None
                    } else {
                        lookup(before, k)
                    } by {
                        lemma_lookup_remove(before, i as int, k);
                    }
                }
            },
            None => {
                proof {
                    assert forall|k: Seq<char>| #[trigger] lookup(self@, k) == if k == key@ {
                        None
                    } else {
                        lookup(before, k)
                    } by {
                        if k == key@ {
                            lemma_lookup_absent(before, k);
                        }
                    }
                }
            },
        }
    }

    /// The credentials of `key`, if registered.
    pub fn get(&self, key: &str) -> (r: Option<ChannelConfig>)
        requires
            self.wf(),
        ensures
            r == lookup(self@, key@),
    {
        match self.find(key) {
            Some(i) => {
                proof {
                    lemma_lookup_at(self@, i as int);
                }
                Some(self.entries[i].1.copy())
            },
            None => {
                proof {
                    lemma_lookup_absent(self@, key@);
                }
                None
            },
        }
    }
}

proof fn lemma_lookup_update_other(
    s: Seq<(Seq<char>, ChannelConfig)>,
    i: int,
    e: (Seq<char>, ChannelConfig),
    k: Seq<char>,
)
    requires
        0 <= i < s.len(),
        s[i].0 == e.0,
        k != e.0,
    ensures
        lookup(s.update(i, e), k) == lookup(s, k),
    decreases s.len(),
{
    if s.len() > 0 {
        if i > 0 {
            assert(s.update(i, e).drop_first() =~= s.drop_first().update(i - 1, e));
            lemma_lookup_update_other(s.drop_first(), i - 1, e, k);
        } else {
            assert(s.update(i, e).drop_first() =~= s.drop_first());
        }
    }
}

proof fn lemma_lookup_push_other(
    s: Seq<(Seq<char>, ChannelConfig)>,
    e: (Seq<char>, ChannelConfig),
    k: Seq<char>,
)
    requires
        k != e.0,
    ensures
        lookup(s.push(e), k) == lookup(s, k),
    decreases s.len(),
{
    if s.len() == 0 {
        assert(s.push(e).drop_first() =~= s);
    } else {
        assert(s.push(e).drop_first() =~= s.drop_first().push(e));
        lemma_lookup_push_other(s.drop_first(), e, k);
    }
}

proof fn lemma_lookup_remove(s: Seq<(Seq<char>, ChannelConfig)>, i: int, k: Seq<char>)
    requires
        keys_unique(s),
        0 <= i < s.len(),
    ensures
        lookup(s.remove(i), k) == if k == s[i].0 {
            None
        } else {
            lookup(s, k)
        },
    decreases s.len(),
{
    let t = s.remove(i);
    if k == s[i].0 {
        assert forall|j: int| 0 <= j < t.len() implies t[j].0 != k by {
            let j2 = if j < i { j } else { j + 1 };
            assert(t[j] == s[j2]);
        }
        lemma_lookup_absent(t, k);
    } else if i == 0 {
        assert(t =~= s.drop_first());
    } else {
        let d = s.drop_first();
        assert(keys_unique(d)) by {
            assert forall|a: int, b: int| 0 <= a < d.len() && 0 <= b < d.len() && a != b implies d[a].0
                != d[b].0 by {
                assert(d[a] == s[a + 1] && d[b] == s[b + 1]);
            }
        }
        assert(t.drop_first() =~= d.remove(i - 1));
        assert(t[0] == s[0]);
        lemma_lookup_remove(d, i - 1, k);
    }
}

// ──────── process-wide proxy state ────────

/// Everything the proxy keeps between requests.
pub struct ProxyState {
    config: Option<ProxyConfig>,
    channels: ChannelRegistry,
    scheduler: Scheduler,
    scheduler_ready: bool,
    listening: bool,
    last_error: Option<String>,
}

impl ProxyState {
    pub closed spec fn wf(&self) -> bool {
        &&& self.channels.wf()
        &&& self.scheduler.wf()
        &&& !self.scheduler_ready ==> self.scheduler@ == Seq::<ChannelView>::empty()
    }

    pub closed spec fn spec_config(&self) -> Option<ProxyConfig> {
        self.config
    }

    pub closed spec fn spec_channels(&self) -> Seq<(Seq<char>, ChannelConfig)> {
        self.channels@
    }

    /// The scheduler's channels, when the scheduler has been started.
    pub closed spec fn spec_scheduler(&self) -> Option<Seq<ChannelView>> {
        if self.scheduler_ready {
            Some(self.scheduler@)
        } else {
            None
        }
    }

    pub closed spec fn spec_listening(&self) -> bool {
        self.listening
    }

    pub closed spec fn spec_last_error(&self) -> Option<String> {
        self.last_error
    }

    /// Nothing configured, no scheduler, not listening.
    pub fn new() -> (s: Self)
        ensures
            s.wf(),
            s.spec_config() is None,
            s.spec_scheduler() is None,
            forall|k: Seq<char>| lookup(s.spec_channels(), k) is None,
            !s.spec_listening(),
            s.spec_last_error() is None,
    {
        ProxyState {
            config: None,
            channels: ChannelRegistry::new(),
            scheduler: Scheduler::new(),
            scheduler_ready: false,
            listening: false,
            last_error: None,
        }
    }
}

/// Installs the configuration and starts the scheduler.
pub fn init(state: &mut ProxyState, cfg: ProxyConfig)
    requires
        old(state).wf(),
    ensures
        final(state).wf(),
        final(state).spec_config() == Some(cfg),
        final(state).spec_scheduler() is Some,
        old(state).spec_scheduler() is Some ==> final(state).spec_scheduler()
            == old(state).spec_scheduler(),
        final(state).spec_channels() == old(state).spec_channels(),
        final(state).spec_listening() == old(state).spec_listening(),
        final(state).spec_last_error() == old(state).spec_last_error(),
{
    state.config = Some(cfg);
    state.scheduler_ready = true;
}

/// Starts the scheduler once (later calls keep it) and gives access to it.
pub fn init_scheduler(state: &mut ProxyState) -> (s: &mut Scheduler)
    requires
        old(state).wf(),
    ensures
        s.wf(),
        old(state).spec_scheduler() is Some ==> s@ == old(state).spec_scheduler()->0,
        old(state).spec_scheduler() is None ==> s@ == Seq::<ChannelView>::empty(),
        final(s).wf() ==> final(state).wf(),
        final(state).spec_scheduler() == Some(final(s)@),
        final(state).spec_config() == old(state).spec_config(),
        final(state).spec_channels() == old(state).spec_channels(),
        final(state).spec_listening() == old(state).spec_listening(),
        final(state).spec_last_error() == old(state).spec_last_error(),
{
    state.scheduler_ready = true;
    &mut state.scheduler
}

/// What an upstream answer of `status` at `now` does to the scheduler's
/// channels: a 429 tightens the channel's limit in force, a success (2xx)
/// lets it grow back, any other status changes nothing.
pub open spec fn after_feedback(
    before: Seq<ChannelView>,
    after: Seq<ChannelView>,
    id: Seq<char>,
    status: u16,
    now: u64,
) -> bool {
    if status == 429 {
        rate_limited_in(before, after, id, now)
    } else if 200 <= status < 300 {
        succeeded_in(before, after, id, now)
    } else {
        after == before
    }
}

/// Feeds the upstream's answer (`status`, at `now`) for the channel
/// `profile_id` back into the scheduler; nothing happens before the
/// scheduler is started.
pub fn note_upstream_feedback_at(state: &mut ProxyState, profile_id: &str, status: u16, now: u64)
    requires
        old(state).wf(),
    ensures
        final(state).wf(),
        match old(state).spec_scheduler() {
            Some(s) => final(state).spec_scheduler() matches Some(t) && after_feedback(
                s,
                t,
                profile_id@,
                status,
                now,
            ),
            None => final(state).spec_scheduler() is None,
        },
        final(state).spec_config() == old(state).spec_config(),
        final(state).spec_channels() == old(state).spec_channels(),
        final(state).spec_listening() == old(state).spec_listening(),
        final(state).spec_last_error() == old(state).spec_last_error(),
{
    if !state.scheduler_ready {
        return;
    }
    if status == 429 {
        state.scheduler.record_rate_limit_at(profile_id, now);
    } else if 200 <= status && status < 300 {
        state.scheduler.record_success_at(profile_id, now);
    }
}

/// Feeds the upstream's answer for the channel back into the scheduler, at
/// the current time of the scheduler's monotonic clock.
pub fn note_upstream_feedback(state: &mut ProxyState, profile_id: &str, status: u16)
    requires
        old(state).wf(),
    ensures
        final(state).wf(),
        match old(state).spec_scheduler() {
            Some(s) => final(state).spec_scheduler() matches Some(t) && exists|now: u64|
                #[trigger] after_feedback(s, t, profile_id@, status, now),
            None => final(state).spec_scheduler() is None,
        },
        final(state).spec_config() == old(state).spec_config(),
        final(state).spec_channels() == old(state).spec_channels(),
        final(state).spec_listening() == old(state).spec_listening(),
        final(state).spec_last_error() == old(state).spec_last_error(),
{
    let now = state.scheduler.clock_ms();
    note_upstream_feedback_at(state, profile_id, status, now);
}

/// The scheduler, once started.
pub fn scheduler(state: &ProxyState) -> (s: Option<&Scheduler>)
    requires
        state.wf(),
    ensures
        match s {
            Some(sc) => state.spec_scheduler() == Some(sc@) && sc.wf(),
            None => state.spec_scheduler() is None,
        },
{
    if state.scheduler_ready {
        Some(&state.scheduler)
    } else {
        None
    }
}

/// The global configuration (it must have been installed).
pub fn cfg(state: &ProxyState) -> (c: ProxyConfig)
    requires
        state.spec_config() is Some,
    ensures
        Some(c) == state.spec_config(),
{
    match &state.config {
        Some(c) => c.copy(),
        None => {
            proof {
                assert(false);
            }
            ProxyConfig {
                api_key: String::new(),
                model_override: String::new(),
                port: 0,
                upstream_url: String::new(),
                max_concurrency: 0,
                upstream_format: UpstreamFormat::Responses,
            }
        },
    }
}

/// Registers or updates the credentials of a channel.
pub fn set_channel_config(state: &mut ProxyState, profile_id: &str, cfg: ChannelConfig)
    requires
        old(state).wf(),
    ensures
        final(state).wf(),
        forall|k: Seq<char>|
            #[trigger] lookup(final(state).spec_channels(), k) == if k == profile_id@ {
                Some(cfg)
            } else {
                lookup(old(state).spec_channels(), k)
            },
        final(state).spec_config() == old(state).spec_config(),
        final(state).spec_scheduler() == old(state).spec_scheduler(),
        final(state).spec_listening() == old(state).spec_listening(),
        final(state).spec_last_error() == old(state).spec_last_error(),
{
    state.channels.insert(profile_id, cfg);
}

/// Forgets the credentials of a channel.
pub fn remove_channel_config(state: &mut ProxyState, profile_id: &str)
    requires
        old(state).wf(),
    ensures
        final(state).wf(),
        forall|k: Seq<char>|
            #[trigger] lookup(final(state).spec_channels(), k) == if k == profile_id@ {
                None
            } else {
                lookup(old(state).spec_channels(), k)
            },
        final(state).spec_config() == old(state).spec_config(),
        final(state).spec_scheduler() == old(state).spec_scheduler(),
        final(state).spec_listening() == old(state).spec_listening(),
        final(state).spec_last_error() == old(state).spec_last_error(),
{
    state.channels.remove(profile_id);
}

/// The credentials registered for a channel, if any.
pub fn channel_config(state: &ProxyState, profile_id: &str) -> (r: Option<ChannelConfig>)
    requires
        state.wf(),
    ensures
        r == lookup(state.spec_channels(), profile_id@),
{
    state.channels.get(profile_id)
}

/// The credentials of a channel, or the global configuration's when the id
/// is empty or not registered.
pub open spec fn spec_resolve(state: ProxyState, profile_id: Seq<char>) -> ChannelConfig {
    match lookup(state.spec_channels(), profile_id) {
        Some(c) => c,
        None => global_channel(state.spec_config()->0),
    }
}

/// The credentials to use for a channel.
pub fn resolve_channel(state: &ProxyState, profile_id: &str) -> (c: ChannelConfig)
    requires
        state.wf(),
        lookup(state.spec_channels(), profile_id@) is Some || state.spec_config() is Some,
    ensures
        c == spec_resolve(*state, profile_id@),
{
    match channel_config(state, profile_id) {
        Some(c) => c,
        None => {
            let g = cfg(state);
            channel_from_global(&g)
        },
    }
}

/// The channel that the probe and the balance query target: the first
/// enabled channel when it has credentials, otherwise the global ones.
pub open spec fn spec_probe_target(state: ProxyState, first_enabled: Option<Seq<char>>) -> Option<
    ChannelConfig,
> {
    match first_enabled {
        Some(id) => lookup(state.spec_channels(), id),
        None => None,
    }
}

/// `id` is what `first_enabled_id` reports for the channel list `s`.
pub open spec fn first_enabled_of(s: Seq<ChannelView>, id: Option<Seq<char>>) -> bool {
    match id {
        Some(k) => exists|i: int|
            0 <= i < s.len() && s[i].enabled && #[trigger] s[i].profile_id == k && forall|j: int|
                0 <= j < i ==> !(#[trigger] s[j]).enabled,
        None => forall|i: int| 0 <= i < s.len() ==> !(#[trigger] s[i]).enabled,
    }
}

/// The first enabled channel of the scheduler, as its profile id.
pub open spec fn spec_first_enabled(state: ProxyState) -> Option<Seq<char>> {
    match state.spec_scheduler() {
        Some(s) => {
            if exists|i: int| 0 <= i < s.len() && (#[trigger] s[i]).enabled {
                Some(s[choose|i: int| 0 <= i < s.len() && s[i].enabled && forall|j: int|
                    0 <= j < i ==> !(#[trigger] s[j]).enabled].profile_id)
            } else {
                None
            }
        },
        None => None,
    }
}

proof fn lemma_first_enabled_unique(s: Seq<ChannelView>, k: Seq<char>)
    requires
        first_enabled_of(s, Some(k)),
    ensures
        exists|i: int| 0 <= i < s.len() && (#[trigger] s[i]).enabled,
        s[choose|i: int| 0 <= i < s.len() && s[i].enabled && forall|j: int|
            0 <= j < i ==> !(#[trigger] s[j]).enabled].profile_id == k,
{
    let i = choose|i: int|
        0 <= i < s.len() && s[i].enabled && #[trigger] s[i].profile_id == k && forall|j: int|
            0 <= j < i ==> !(#[trigger] s[j]).enabled;
    assert(s[i].enabled);
    let c = choose|c: int| 0 <= c < s.len() && s[c].enabled && forall|j: int|
        0 <= j < c ==> !(#[trigger] s[j]).enabled;
    if c < i {
        assert(!s[c].enabled);
    } else if c > i {
        assert(!s[i].enabled);
    }
}

/// The probe / balance target: the first enabled channel's credentials,
/// falling back to the global configuration.
pub fn probe_channel(state: &ProxyState) -> (c: ChannelConfig)
    requires
        state.wf(),
        spec_probe_target(*state, spec_first_enabled(*state)) is Some || state.spec_config() is Some,
    ensures
        c == match spec_probe_target(*state, spec_first_enabled(*state)) {
            Some(t) => t,
            None => global_channel(state.spec_config()->0),
        },
{
    let first = match scheduler(state) {
        Some(s) => s.first_enabled_id(),
        None => None,
    };
    proof {
        if first is Some {
            lemma_first_enabled_unique(state.spec_scheduler()->0, first->0@);
        }
    }
    let from_scheduler = match first {
        Some(id) => channel_config(state, id.as_str()),
        None => None,
    };
    match from_scheduler {
        Some(c) => c,
        None => {
            let g = cfg(state);
            channel_from_global(&g)
        },
    }
}

/// The probe / balance upstream address, trimmed.
pub fn upstream_url(state: &ProxyState) -> (r: String)
    requires
        state.wf(),
        spec_probe_target(*state, spec_first_enabled(*state)) is Some || state.spec_config() is Some,
    ensures
        r@ == trim_spec(
            match spec_probe_target(*state, spec_first_enabled(*state)) {
                Some(t) => t,
                None => global_channel(state.spec_config()->0),
            }.upstream_url@,
        ),
{
    let c = probe_channel(state);
    trimmed(c.upstream_url.as_str())
}

/// The probe / balance API key.
pub fn default_api_key(state: &ProxyState) -> (r: String)
    requires
        state.wf(),
        spec_probe_target(*state, spec_first_enabled(*state)) is Some || state.spec_config() is Some,
    ensures
        r == match spec_probe_target(*state, spec_first_enabled(*state)) {
            Some(t) => t,
            None => global_channel(state.spec_config()->0),
        }.api_key,
{
    probe_channel(state).api_key
}

// ──────── server status ────────

/// Whether the proxy is listening.
pub fn is_listening(state: &ProxyState) -> (r: bool)
    ensures
        r == state.spec_listening(),
{
    state.listening
}

/// Why the last start / port switch failed; `None` after a success (or
/// before any attempt).
pub fn last_server_error(state: &ProxyState) -> (r: Option<String>)
    ensures
        r == state.spec_last_error(),
{
    match &state.last_error {
        Some(e) => Some(e.clone()),
        None => None,
    }
}

/// Records the outcome of the last start attempt.
pub fn set_last_server_error(state: &mut ProxyState, msg: Option<String>)
    ensures
        final(state).spec_last_error() == msg,
        final(state).spec_config() == old(state).spec_config(),
        final(state).spec_channels() == old(state).spec_channels(),
        final(state).spec_scheduler() == old(state).spec_scheduler(),
        final(state).spec_listening() == old(state).spec_listening(),
        final(state).wf() == old(state).wf(),
{
    state.last_error = msg;
}

/// A switch to `new_port` has nothing to do when the server already listens
/// on that port.
pub fn restart_needed(state: &ProxyState, new_port: u16) -> (r: bool)
    ensures
        r == !(state.spec_listening() && state.spec_config() is Some
            && state.spec_config()->0.port == new_port),
{
    let current = match &state.config {
        Some(c) => Some(c.port),
        None => None,
    };
    !(state.listening && current == Some(new_port))
}

/// The outcome of a start attempt: on success the server listens on
/// `new_port` (recorded in the configuration) and the error is cleared; on
/// failure the running server, if any, and the configuration are untouched
/// and the reason is kept.
pub fn record_restart(state: &mut ProxyState, new_port: u16, result: Result<(), String>)
    ensures
        result is Ok ==> final(state).spec_listening() && final(state).spec_last_error() is None,
        result is Ok && old(state).spec_config() is Some ==> final(state).spec_config() == Some(
            ProxyConfig { port: new_port, ..old(state).spec_config()->0 },
        ),
        result is Ok && old(state).spec_config() is None ==> final(state).spec_config() is None,
        result matches Err(e) ==> final(state).spec_last_error() == Some(e)
            && final(state).spec_listening() == old(state).spec_listening()
            && final(state).spec_config() == old(state).spec_config(),
        final(state).spec_channels() == old(state).spec_channels(),
        final(state).spec_scheduler() == old(state).spec_scheduler(),
        final(state).wf() == old(state).wf(),
{
    match result {
        Ok(()) => {
            match state.config.take() {
                Some(mut c) => {
                    c.port = new_port;
                    state.config = Some(c);
                },
                None => {},
            }
            state.listening = true;
            state.last_error = None;
        },
        Err(e) => {
            state.last_error = Some(e);
        },
    }
}

/// The configuration after a live update: each given value replaces its
/// field.
pub open spec fn updated_config(
    c: ProxyConfig,
    api_key: Option<String>,
    model_override: Option<String>,
    upstream_url: Option<String>,
    max_concurrency: Option<usize>,
) -> ProxyConfig {
    ProxyConfig {
        api_key: match api_key {
            Some(k) => k,
            None => c.api_key,
        },
        model_override: match model_override {
            Some(m) => m,
            None => c.model_override,
        },
        upstream_url: match upstream_url {
            Some(u) => u,
            None => c.upstream_url,
        },
        max_concurrency: match max_concurrency {
            Some(n) => n,
            None => c.max_concurrency,
        },
        ..c
    }
}

/// Updates the live configuration (later requests see it at once): each
/// given value replaces its field; before the configuration is installed
/// nothing changes.
pub fn update_runtime(
    state: &mut ProxyState,
    api_key: Option<String>,
    model_override: Option<String>,
    upstream_url: Option<String>,
    max_concurrency: Option<usize>,
)
    ensures
        final(state).spec_config() == match old(state).spec_config() {
            Some(c) => Some(updated_config(c, api_key, model_override, upstream_url, max_concurrency)),
            None => None,
        },
        final(state).spec_channels() == old(state).spec_channels(),
        final(state).spec_scheduler() == old(state).spec_scheduler(),
        final(state).spec_listening() == old(state).spec_listening(),
        final(state).spec_last_error() == old(state).spec_last_error(),
        final(state).wf() == old(state).wf(),
{
    match state.config.take() {
        Some(mut c) => {
            match api_key {
                Some(k) => {
                    c.api_key = k;
                },
                None => {},
            }
            match model_override {
                Some(m) => {
                    c.model_override = m;
                },
                None => {},
            }
            match upstream_url {
                Some(u) => {
                    c.upstream_url = u;
                },
                None => {},
            }
            match max_concurrency {
                Some(n) => {
                    c.max_concurrency = n;
                },
                None => {},
            }
            state.config = Some(c);
        },
        None => {},
    }
}

// ──────── leases ────────

/// Holds one concurrency slot of a channel; giving it back releases it in
/// the scheduler.
pub struct ChannelSlotGuard {
    profile_id: Option<String>,
}

impl ChannelSlotGuard {
    pub closed spec fn spec_profile(&self) -> Option<String> {
        self.profile_id
    }

    pub fn new(profile_id: String) -> (g: Self)
        ensures
            g.spec_profile() == Some(profile_id),
    {
        ChannelSlotGuard { profile_id: Some(profile_id) }
    }

    /// Holds no channel slot (no scheduler yet).
    pub fn none() -> (g: Self)
        ensures
            g.spec_profile() is None,
    {
        ChannelSlotGuard { profile_id: None }
    }

    /// Gives the slot back to the scheduler.
    pub fn release(self, sched: &mut Scheduler)
        requires
            old(sched).wf(),
        ensures
            final(sched).wf(),
            self.spec_profile() is None ==> final(sched)@ == old(sched)@,
            self.spec_profile() matches Some(id) ==> (has_id(old(sched)@, id@) ==> final(sched)@
                == old(sched)@.update(
                index_of(old(sched)@, id@),
                ChannelView {
                    current_concurrency: if old(sched)@[index_of(
                        old(sched)@,
                        id@,
                    )].current_concurrency > 0 {
                        (old(sched)@[index_of(old(sched)@, id@)].current_concurrency - 1) as usize
                    } else {
                        0
                    },
                    ..old(sched)@[index_of(old(sched)@, id@)]
                },
            )) && (!has_id(old(sched)@, id@) ==> final(sched)@ == old(sched)@),
    {
        match self.profile_id {
            Some(id) => sched.release_slot(id.as_str()),
            None => {},
        }
    }
}

/// A concurrency lease: one global slot and one channel slot, with the
/// credentials of that channel. `profile_id` is empty when no channel slot
/// is held.
pub struct Lease {
    pub profile_id: String,
    pub channel: ChannelConfig,
    global: Option<SlotGuard>,
    channel_slot: ChannelSlotGuard,
}

impl Lease {
    pub closed spec fn spec_profile_id(&self) -> String {
        self.profile_id
    }

    pub closed spec fn spec_channel(&self) -> ChannelConfig {
        self.channel
    }

    pub closed spec fn spec_global(&self) -> Option<SlotGuard> {
        self.global
    }

    pub closed spec fn spec_channel_slot(&self) -> ChannelSlotGuard {
        self.channel_slot
    }

    pub fn new(
        profile_id: String,
        channel: ChannelConfig,
        global: Option<SlotGuard>,
        channel_slot: ChannelSlotGuard,
    ) -> (l: Self)
        ensures
            l.spec_profile_id() == profile_id,
            l.spec_channel() == channel,
            l.spec_global() == global,
            l.spec_channel_slot() == channel_slot,
    {
        Lease { profile_id, channel, global, channel_slot }
    }

    /// Takes the global slot off the lease and returns its row id (0 when
    /// there is none); its release becomes the caller's.
    pub fn disarm_global(&mut self) -> (r: i64)
        ensures
            final(self).spec_global() is None,
            r == match old(self).spec_global() {
                Some(g) => g.spec_idx(),
                None => 0,
            },
            final(self).spec_profile_id() == old(self).spec_profile_id(),
            final(self).spec_channel() == old(self).spec_channel(),
            final(self).spec_channel_slot() == old(self).spec_channel_slot(),
    {
        match self.global.take() {
            Some(g) => g.disarm(),
            None => 0,
        }
    }

    /// Hands the global guard over, still armed.
    pub fn take_global_guard(&mut self) -> (r: Option<SlotGuard>)
        ensures
            final(self).spec_global() is None,
            r == old(self).spec_global(),
            final(self).spec_profile_id() == old(self).spec_profile_id(),
            final(self).spec_channel() == old(self).spec_channel(),
            final(self).spec_channel_slot() == old(self).spec_channel_slot(),
    {
        self.global.take()
    }

    /// The end of the lease: a global slot still held is finished (its row
    /// id is returned so that the row can be marked complete), then the
    /// channel slot is given back.
    pub fn finish(self, gate: &mut Gate, sched: &mut Scheduler) -> (row: Option<i64>)
        requires
            old(sched).wf(),
        ensures
            final(sched).wf(),
            row == match self.spec_global() {
                Some(g) => Some(g.spec_idx()),
                None => None,
            },
            match self.spec_global() {
                Some(g) => g.spec_idx() > 0 ==> final(gate).active() == (if old(gate).active()
                    == 0 {
                    u64::MAX
                } else {
                    (old(gate).active() - 1) as u64
                }),
                None => final(gate).active() == old(gate).active(),
            },
            self.spec_global() matches Some(g) && g.spec_idx() <= 0 ==> final(gate).active()
                == old(gate).active(),
            self.spec_channel_slot().spec_profile() is None ==> final(sched)@ == old(sched)@,
            self.spec_channel_slot().spec_profile() matches Some(id) ==> (has_id(old(sched)@, id@)
                ==> final(sched)@[index_of(old(sched)@, id@)].current_concurrency == (if old(sched)@[index_of(old(sched)@, id@)].current_concurrency > 0 {
                (old(sched)@[index_of(old(sched)@, id@)].current_concurrency - 1) as usize
            } else {
                0
            })),
    {
        let Lease { profile_id: _, channel: _, global, channel_slot } = self;
        let row = match global {
            Some(g) => {
                let idx = g.disarm();
                gate.finish(idx);
                Some(idx)
            },
            None => None,
        };
        channel_slot.release(sched);
        row
    }
}

/// The global gate: the sum of the enabled channels' concurrency limits,
/// at least 1 (a limit of 0 would never let anything through).
pub fn global_gate_max(sched: &Scheduler) -> (r: u64)
    ensures
        r >= 1,
        r as nat == (if crate::scheduler::enabled_capacity(sched@) > usize::MAX {
            usize::MAX as nat
        } else if crate::scheduler::enabled_capacity(sched@) == 0 {
            1
        } else {
            crate::scheduler::enabled_capacity(sched@)
        }),
{
    let t = sched.total_concurrency();
    if t == 0 {
        1
    } else {
        t as u64
    }
}

/// The global limit of the path without a scheduler: the configured
/// limit, 0 meaning no limit at all.
pub fn legacy_gate(max_concurrency: usize) -> (r: u64)
    ensures
        r == if max_concurrency == 0 {
            u64::MAX
        } else {
            max_concurrency as u64
        },
{
    if max_concurrency == 0 {
        u64::MAX
    } else {
        max_concurrency as u64
    }
}

/// What one round of waiting for a lease does next.
pub enum LeaseStep {
    /// Try to take the global and channel slots of this channel.
    Try(String),
    /// Every channel is disabled: waiting cannot help.
    AllDisabled,
    /// Everything is busy: wait and retry.
    Wait,
}

/// The channel that a step tries, if any.
pub open spec fn step_target(step: LeaseStep) -> Option<String> {
    match step {
        LeaseStep::Try(id) => Some(id),
        _ => None,
    }
}

/// The decision of one round: a channel that can take the request, or why
/// there is none. The channel is the scheduler's weighted pick at some
/// time with some random number.
pub fn next_lease_step(sched: &Scheduler) -> (step: LeaseStep)
    requires
        sched.wf(),
    ensures
        exists|now: u64, r: u64| #[trigger] selection_at(sched@, now, r, step_target(step)),
        step is AllDisabled <==> (!(step is Try) && forall|i: int|
            0 <= i < sched@.len() ==> !(#[trigger] sched@[i]).enabled),
{
    let picked = sched.select_channel();
    match picked {
        Some(id) => LeaseStep::Try(id),
        None => {
            if !sched.has_enabled_channel() {
                LeaseStep::AllDisabled
            } else {
                LeaseStep::Wait
            }
        },
    }
}

/// The second half of taking a pair of slots: with the global slot held,
/// take the channel slot; when the channel is full the global slot is given
/// back at once instead of blocking others.
pub fn complete_pair(sched: &mut Scheduler, gate: &mut Gate, profile_id: &str, global: SlotGuard) -> (r:
    Option<SlotGuard>)
    requires
        old(sched).wf(),
    ensures
        final(sched).wf(),
        r is Some <==> (has_id(old(sched)@, profile_id@) && old(sched)@[index_of(
            old(sched)@,
            profile_id@,
        )].current_concurrency < old(sched)@[index_of(old(sched)@, profile_id@)].effective_limit),
        r matches Some(g) ==> g == global && final(gate).active() == old(gate).active(),
        r is None ==> final(sched)@ == old(sched)@ && (global.releases_on_drop() ==> final(gate).active() == (if old(gate).active() == 0 {
            u64::MAX
        } else {
            (old(gate).active() - 1) as u64
        })) && (!global.releases_on_drop() ==> final(gate).active() == old(gate).active()),
{
    if sched.acquire_slot(profile_id) {
        Some(global)
    } else {
        global.release_on_drop(gate);
        None
    }
}

/// The first half of taking a pair of slots with the store's readiness
/// known: `None` when the global limit is reached; `Some(true)` when the counter was
/// incremented and a request row must be recorded; `Some(false)` when the
/// request goes untracked (row id 0).
pub fn enter_gate(gate: &mut Gate, max: u64, store_ready: bool) -> (r: Option<bool>)
    ensures
        old(gate).active() >= max ==> r is None && final(gate).active() == old(gate).active(),
        old(gate).active() < max ==> r == Some(store_ready) && final(gate).active() == (if store_ready {
            old(gate).active() + 1
        } else {
            old(gate).active() as int
        }),
{
    match gate.try_enter(max, store_ready) {
        GateEntry::Full => None,
        GateEntry::Untracked => Some(false),
        GateEntry::Entered => Some(true),
    }
}

} // verus!
