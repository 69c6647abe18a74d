//! The connection probe: its settings (stored under `probe` in the
//! configuration file), the checks made before probing, the minimal request
//! sent to each upstream format, and the result the front end receives.
use vstd::prelude::*;

use crate::json::{empty_obj, Json, JsonV};
use crate::proxy::UpstreamFormat;
use crate::respond::num;
use crate::text::{push_str, to_owned, trim_spec};

verus! {

/// Smallest probe interval, seconds.
pub const MIN_INTERVAL_SECS: u64 = 1;

/// Largest probe interval, seconds.
pub const MAX_INTERVAL_SECS: u64 = 1800;

/// Default probe interval, seconds.
pub const DEFAULT_INTERVAL_SECS: u64 = 15;

/// The probe settings.
#[derive(Clone, Copy, Debug, PartialEq, Eq, Structural)]
pub struct ProbeConfig {
    pub enabled: bool,
    pub interval_secs: u64,
}

impl Default for ProbeConfig {
    /// On, every 15 seconds.
    fn default() -> (r: Self)
        ensures
            r.enabled,
            r.interval_secs == DEFAULT_INTERVAL_SECS,
    {
        ProbeConfig { enabled: true, interval_secs: DEFAULT_INTERVAL_SECS }
    }
}

/// An interval held to `[MIN_INTERVAL_SECS, MAX_INTERVAL_SECS]`.
pub open spec fn clamp_interval_v(secs: u64) -> u64 {
    if secs < MIN_INTERVAL_SECS {
        MIN_INTERVAL_SECS
    } else if secs > MAX_INTERVAL_SECS {
        MAX_INTERVAL_SECS
    } else {
        secs
    }
}

/// `clamp_interval`.
pub fn clamp_interval(secs: u64) -> (r: u64)
    ensures
        r == clamp_interval_v(secs),
{
    if secs < MIN_INTERVAL_SECS {
        MIN_INTERVAL_SECS
    } else if secs > MAX_INTERVAL_SECS {
        MAX_INTERVAL_SECS
    } else {
        secs
    }
}

/// The live probe settings.
pub struct ProbeStore {
    pub cfg: ProbeConfig,
}

impl ProbeStore {
    /// The store as the app starts: default settings.
    pub fn new() -> (r: Self)
        ensures
            r.cfg.enabled,
            r.cfg.interval_secs == DEFAULT_INTERVAL_SECS,
    {
        ProbeStore { cfg: ProbeConfig::default() }
    }
}

/// `config`: the current settings.
pub fn config(store: &ProbeStore) -> (r: ProbeConfig)
    ensures
        r == store.cfg,
{
    store.cfg
}

/// `set_config`: stores the settings, the interval clamped.
pub fn set_config(store: &mut ProbeStore, cfg: ProbeConfig)
    ensures
        final(store).cfg == (ProbeConfig {
            enabled: cfg.enabled,
            interval_secs: clamp_interval_v(cfg.interval_secs),
        }),
{
    store.cfg = ProbeConfig { enabled: cfg.enabled, interval_secs: clamp_interval(cfg.interval_secs) };
}

/// Settings read from `{enabled, interval_secs}`: fields missing or of the
/// wrong type keep `base`; the interval is clamped.
pub open spec fn parse_settings_v(o: JsonV, base: ProbeConfig) -> ProbeConfig {
    ProbeConfig {
        enabled: match o.get("enabled"@) {
            Some(JsonV::Bool(b)) => b,
            _ => base.enabled,
        },
        interval_secs: clamp_interval_v(
            match crate::json::opt_u64(o.get("interval_secs"@)) {
                Some(n) => n,
                None => base.interval_secs,
            },
        ),
    }
}

/// `parse_settings`.
pub fn parse_settings(o: &Json, base: &ProbeConfig) -> (r: ProbeConfig)
    ensures
        r == parse_settings_v(o@, *base),
{
    let enabled = match o.get("enabled") {
        Some(x) => match x.as_bool() {
            Some(b) => b,
            None => base.enabled,
        },
        None => base.enabled,
    };
    proof {
        match o@.get("enabled"@) {
            Some(JsonV::Bool(b)) => {},
            _ => {},
        }
    }
    let secs = match o.get("interval_secs") {
        Some(x) => match x.as_u64() {
            Some(n) => n,
            None => base.interval_secs,
        },
        None => base.interval_secs,
    };
    ProbeConfig { enabled, interval_secs: clamp_interval(secs) }
}

/// The settings of a configuration file's value: its `probe` object read over
/// the defaults.
pub open spec fn load_v(v: JsonV) -> ProbeConfig {
    parse_settings_v(
        crate::json::or_null(v.get("probe"@)),
        ProbeConfig { enabled: true, interval_secs: DEFAULT_INTERVAL_SECS },
    )
}

/// `load_from_json`: reads the settings and makes them the live settings.
pub fn load_from_json(store: &mut ProbeStore, v: &Json) -> (r: ProbeConfig)
    ensures
        r == load_v(v@),
        final(store).cfg == load_v(v@),
{
    let default = ProbeConfig::default();
    let null = Json::null();
    let o = match v.get("probe") {
        Some(p) => p,
        None => &null,
    };
    let cfg = parse_settings(o, &default);
    set_config(store, cfg);
    cfg
}

/// The `probe` object written to the configuration file.
pub open spec fn probe_json_v(cfg: ProbeConfig) -> JsonV {
    empty_obj().set("enabled"@, JsonV::Bool(cfg.enabled)).set(
        "interval_secs"@,
        num(clamp_interval_v(cfg.interval_secs)),
    )
}

/// `save_to_json`: sets `probe` in the configuration file's value, the other
/// members kept.
pub fn save_to_json(v: &mut Json, cfg: &ProbeConfig)
    requires
        old(v)@ is Object || old(v)@ is Null,
    ensures
        final(v)@ == old(v)@.set("probe"@, probe_json_v(*cfg)),
{
    let mut o = Json::object();
    o.set("enabled", Json::boolean(cfg.enabled));
    o.set("interval_secs", Json::number(clamp_interval(cfg.interval_secs)));
    v.set("probe", o);
}

/// The settings as the front end reads them.
pub open spec fn settings_json_v(cfg: ProbeConfig) -> JsonV {
    empty_obj().set("enabled"@, JsonV::Bool(cfg.enabled)).set(
        "interval_secs"@,
        num(cfg.interval_secs),
    )
}

/// `settings_json`.
pub fn settings_json(cfg: &ProbeConfig) -> (r: Json)
    ensures
        r@ == settings_json_v(*cfg),
{
    let mut o = Json::object();
    o.set("enabled", Json::boolean(cfg.enabled));
    o.set("interval_secs", Json::number(cfg.interval_secs));
    o
}

/// `get_probe_settings`: the live settings as the front end reads them.
pub fn get_probe_settings(store: &ProbeStore) -> (r: Json)
    ensures
        r@ == settings_json_v(store.cfg),
{
    settings_json(&store.cfg)
}

/// `set_probe_settings`, up to writing the file: the new settings, read over
/// the current ones.
pub fn set_probe_settings(store: &ProbeStore, input: &Json) -> (r: ProbeConfig)
    ensures
        r == parse_settings_v(input@, store.cfg),
{
    parse_settings(input, &store.cfg)
}

/// A probe result: `{success, status_code, latency_ms, message}`.
pub open spec fn result_v(success: bool, status: u16, latency_ms: u64, message: Seq<char>) -> JsonV {
    empty_obj().set("success"@, JsonV::Bool(success)).set("status_code"@, num(status as u64)).set(
        "latency_ms"@,
        num(latency_ms),
    ).set("message"@, JsonV::Str(message))
}

/// A probe result.
pub fn probe_result(success: bool, status: u16, latency_ms: u64, message: &str) -> (r: Json)
    ensures
        r@ == result_v(success, status, latency_ms, message@),
{
    let mut o = Json::object();
    o.set("success", Json::boolean(success));
    o.set("status_code", Json::number(status as u64));
    o.set("latency_ms", Json::number(latency_ms));
    o.set("message", Json::string(message));
    o
}

/// `failure`: a failed result with no status and no latency.
pub fn failure(message: &str) -> (r: Json)
    ensures
        r@ == result_v(false, 0, 0, message@),
{
    probe_result(false, 0, 0, message)
}

/// What a status code means: 2xx is a success.
pub open spec fn classify_v(status: u16) -> (bool, Seq<char>) {
    if 200 <= status < 300 {
        (true, "连接成功（HTTP "@ + crate::text::decimal(status as nat) + "）"@)
    } else {
        (false, "服务返回 HTTP "@ + crate::text::decimal(status as nat))
    }
}

/// `classify`.
pub fn classify(status_code: u16) -> (r: (bool, String))
    ensures
        r.0 == classify_v(status_code).0,
        r.1@ == classify_v(status_code).1,
{
    let code = crate::text::u64_to_text(status_code as u64);
    if 200 <= status_code && status_code < 300 {
        let mut m = to_owned("连接成功（HTTP ");
        push_str(&mut m, code.as_str());
        push_str(&mut m, "）");
        (true, m)
    } else {
        let mut m = to_owned("服务返回 HTTP ");
        push_str(&mut m, code.as_str());
        (false, m)
    }
}

/// The result given without probing, where one is due: off first, then no
/// upstream, then no key.
pub open spec fn precheck_v(enabled: bool, upstream: Seq<char>, api_key: Seq<char>) -> Option<JsonV> {
    if !enabled {
        Some(result_v(false, 0, 0, "探针未开启"@))
    } else if trim_spec(upstream).len() == 0 {
        Some(result_v(false, 0, 0, "上游地址未配置"@))
    } else if trim_spec(api_key).len() == 0 {
        Some(result_v(false, 0, 0, "API Key 未配置"@))
    } else {
        None
    }
}

/// `precheck`.
pub fn precheck(enabled: bool, upstream: &str, api_key: &str) -> (r: Option<Json>)
    ensures
        crate::json::opt_json_view(r) == precheck_v(enabled, upstream@, api_key@),
{
    if !enabled {
        return Some(failure("探针未开启"));
    }
    if crate::text::is_blank(upstream) {
        return Some(failure("上游地址未配置"));
    }
    if crate::text::is_blank(api_key) {
        return Some(failure("API Key 未配置"));
    }
    None
}

/// `{"role": "user", "content": "hi"}` in a list.
pub open spec fn hi_messages() -> JsonV {
    JsonV::Array(seq![empty_obj().set("role"@, JsonV::Str("user"@)).set("content"@, JsonV::Str("hi"@))])
}

/// The minimal request a probe sends to an upstream of the format.
pub open spec fn probe_payload_v(format: UpstreamFormat, model: Seq<char>) -> JsonV {
    match format {
        UpstreamFormat::Responses => empty_obj().set("model"@, JsonV::Str(model)).set(
            "input"@,
            JsonV::Str("hi"@),
        ),
        UpstreamFormat::ChatCompletions => empty_obj().set("model"@, JsonV::Str(model)).set(
            "messages"@,
            hi_messages(),
        ),
        UpstreamFormat::Anthropic => empty_obj().set("model"@, JsonV::Str(model)).set(
            "max_tokens"@,
            num(1),
        ).set("messages"@, hi_messages()),
    }
}

/// The body of a connection probe request, by format.
pub fn probe_payload(format: UpstreamFormat, model: &str) -> (r: Json)
    ensures
        r@ == probe_payload_v(format, model@),
{
    let mut o = Json::object();
    o.set("model", Json::string(model));
    match format {
        UpstreamFormat::Responses => {
            o.set("input", Json::string("hi"));
        },
        _ => {
            let mut m = Json::object();
            m.set("role", Json::string("user"));
            m.set("content", Json::string("hi"));
            let ghost mv = m@;
            let mut msgs: Vec<Json> = Vec::new();
            msgs.push(m);
            assert(msgs@.map_values(|j: Json| j@) =~= seq![mv]);
            if format == UpstreamFormat::Anthropic {
                o.set("max_tokens", Json::number(1));
            }
            o.set("messages", Json::array(msgs));
        },
    }
    o
}

/// The result of a probe that got an answer: the status's meaning, with the
/// latency.
pub open spec fn answered_v(status: u16, latency_ms: u64) -> JsonV {
    result_v(classify_v(status).0, status, latency_ms, classify_v(status).1)
}

/// The result of a probe that got a status.
pub fn answered(status: u16, latency_ms: u64) -> (r: Json)
    ensures
        r@ == answered_v(status, latency_ms),
{
    let (ok, m) = classify(status);
    probe_result(ok, status, latency_ms, m.as_str())
}

/// The result of a probe whose request failed.
pub fn unreachable_result(error: &str, latency_ms: u64) -> (r: Json)
    ensures
        r@ == result_v(false, 0, latency_ms, "连接失败："@ + error@),
{
    let mut m = to_owned("连接失败：");
    push_str(&mut m, error);
    probe_result(false, 0, latency_ms, m.as_str())
}

/// Loading what saving wrote gives the saved settings back, the interval
/// clamped.
pub proof fn law_probe_json_roundtrip(v: JsonV, cfg: ProbeConfig)
    requires
        v is Object || v is Null,
    ensures
        load_v(v.set("probe"@, probe_json_v(cfg))) == (ProbeConfig {
            enabled: cfg.enabled,
            interval_secs: clamp_interval_v(cfg.interval_secs),
        }),
{
    reveal_strlit("enabled");
    reveal_strlit("interval_secs");
    assert("enabled"@.len() == 7 && "interval_secs"@.len() == 13);
    let o1 = empty_obj().set("enabled"@, JsonV::Bool(cfg.enabled));
    let n = num(clamp_interval_v(cfg.interval_secs));
    crate::json::law_set_then_get(v, "probe"@, probe_json_v(cfg));
    crate::json::law_set_then_get(o1, "interval_secs"@, n);
    crate::json::law_set_keeps_others(o1, "interval_secs"@, n, "enabled"@);
    crate::json::law_set_then_get(empty_obj(), "enabled"@, JsonV::Bool(cfg.enabled));
    crate::json::lemma_num_as_u64(clamp_interval_v(cfg.interval_secs));
}

} // verus!
