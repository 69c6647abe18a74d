//! DeepSeek account balance: the settings (stored under `balance` in the
//! configuration file), whether an upstream is DeepSeek's own, and the
//! balance reply as the front end receives it.
//!
//! Amounts are passed on as the strings the API gives, never as numbers.
use vstd::prelude::*;

use crate::json::{empty_obj, ref_view, Json, JsonV};
use crate::text::{
    eq_ignore_ascii_case, push_str, str_eq, to_ascii_uppercase, to_owned, trim, trim_spec,
    trimmed, upper_text,
};

verus! {

/// The host of the official API.
pub open spec fn official_host() -> Seq<char> {
    "api.deepseek.com"@
}

/// Default polling interval, seconds.
pub const DEFAULT_INTERVAL_SECS: u64 = 15;

/// Smallest polling interval, seconds.
pub const MIN_INTERVAL_SECS: u64 = 1;

/// Largest polling interval, seconds.
pub const MAX_INTERVAL_SECS: u64 = 1800;

/// Longest reply excerpt in an error message, in characters.
pub const ERROR_BODY_MAX_CHARS: usize = 200;

/// The balance settings.
pub struct BalanceConfig {
    pub enabled: bool,
    pub currency: String,
    pub interval_secs: u64,
}

/// The balance settings as values.
pub struct BalanceConfigV {
    pub enabled: bool,
    pub currency: Seq<char>,
    pub interval_secs: u64,
}

impl View for BalanceConfig {
    type V = BalanceConfigV;

    open spec fn view(&self) -> BalanceConfigV {
        BalanceConfigV {
            enabled: self.enabled,
            currency: self.currency@,
            interval_secs: self.interval_secs,
        }
    }
}

impl BalanceConfig {
    /// A field-by-field copy.
    pub fn copy(&self) -> (r: Self)
        ensures
            r@ == self@,
    {
        BalanceConfig {
            enabled: self.enabled,
            currency: self.currency.clone(),
            interval_secs: self.interval_secs,
        }
    }
}

impl Default for BalanceConfig {
    /// Off, CNY, every 15 seconds.
    fn default() -> (r: Self)
        ensures
            !r.enabled,
            r.currency@ == "CNY"@,
            r.interval_secs == DEFAULT_INTERVAL_SECS,
    {
        BalanceConfig { enabled: false, currency: to_owned("CNY"), interval_secs: DEFAULT_INTERVAL_SECS }
    }
}

/// The live balance settings.
pub struct BalanceStore {
    pub cfg: BalanceConfig,
}

impl BalanceStore {
    /// The store as the app starts: default settings.
    pub fn new() -> (r: Self)
        ensures
            !r.cfg.enabled,
            r.cfg.currency@ == "CNY"@,
            r.cfg.interval_secs == DEFAULT_INTERVAL_SECS,
    {
        BalanceStore { cfg: BalanceConfig::default() }
    }
}

/// `config`: the current settings.
pub fn config(store: &BalanceStore) -> (r: BalanceConfig)
    ensures
        r@ == store.cfg@,
{
    store.cfg.copy()
}

/// `set_config`: stores the settings, normalized.
pub fn set_config(store: &mut BalanceStore, cfg: BalanceConfig)
    ensures
        final(store).cfg@ == normalize_v(cfg@),
{
    store.cfg = normalize(cfg);
}

/// A currency code: `CNY` or `USD`, ignoring case and surrounding space.
pub open spec fn parse_currency_v(raw: Seq<char>) -> Option<Seq<char>> {
    let up = upper_text(trim_spec(raw));
    if up == "CNY"@ {
        Some("CNY"@)
    } else if up == "USD"@ {
        Some("USD"@)
    } else {
        None
    }
}

/// `parse_currency`.
pub fn parse_currency(raw: &str) -> (r: Option<String>)
    ensures
        match r {
            Some(c) => parse_currency_v(raw@) == Some(c@),
            None => parse_currency_v(raw@) is None,
        },
{
    let upper = to_ascii_uppercase(trim(raw));
    if str_eq(upper.as_str(), "CNY") {
        Some(to_owned("CNY"))
    } else if str_eq(upper.as_str(), "USD") {
        Some(to_owned("USD"))
    } else {
        None
    }
}

/// An interval held to `[MIN_INTERVAL_SECS, MAX_INTERVAL_SECS]`.
pub open spec fn clamp_interval_v(secs: u64) -> u64 {
    if secs < MIN_INTERVAL_SECS {
        MIN_INTERVAL_SECS
    } else if secs > MAX_INTERVAL_SECS {
        MAX_INTERVAL_SECS
    } else {
        secs
    }
}

/// `clamp_interval`.
pub fn clamp_interval(secs: u64) -> (r: u64)
    ensures
        r == clamp_interval_v(secs),
{
    if secs < MIN_INTERVAL_SECS {
        MIN_INTERVAL_SECS
    } else if secs > MAX_INTERVAL_SECS {
        MAX_INTERVAL_SECS
    } else {
        secs
    }
}

/// Settings made valid: the currency read as a code (CNY where it is none),
/// the interval clamped.
pub open spec fn normalize_v(cfg: BalanceConfigV) -> BalanceConfigV {
    BalanceConfigV {
        enabled: cfg.enabled,
        currency: match parse_currency_v(cfg.currency) {
            Some(c) => c,
            None => "CNY"@,
        },
        interval_secs: clamp_interval_v(cfg.interval_secs),
    }
}

/// `normalize`.
pub fn normalize(cfg: BalanceConfig) -> (r: BalanceConfig)
    ensures
        r@ == normalize_v(cfg@),
{
    let currency = match parse_currency(cfg.currency.as_str()) {
        Some(c) => c,
        None => BalanceConfig::default().currency,
    };
    BalanceConfig { enabled: cfg.enabled, currency, interval_secs: clamp_interval(cfg.interval_secs) }
}

/// The settings read from the configuration file: the `balance` object's
/// fields where present and valid, defaults otherwise, then normalized.
pub open spec fn load_v(v: JsonV) -> BalanceConfigV {
    normalize_v(load_pre_v(v))
}

/// The settings read from the configuration file, before normalizing.
pub open spec fn load_pre_v(v: JsonV) -> BalanceConfigV {
    match v.get("balance"@) {
        Some(o) => BalanceConfigV {
            enabled: match o.get("enabled"@) {
                Some(JsonV::Bool(b)) => b,
                _ => false,
            },
            currency: match o.get_str("currency"@) {
                Some(c) => match parse_currency_v(c) {
                    Some(p) => p,
                    None => "CNY"@,
                },
                None => "CNY"@,
            },
            interval_secs: match crate::json::opt_u64(o.get("interval_secs"@)) {
                Some(n) => n,
                None => DEFAULT_INTERVAL_SECS,
            },
        },
        None => BalanceConfigV { enabled: false, currency: "CNY"@, interval_secs: DEFAULT_INTERVAL_SECS },
    }
}

/// `load_from_json`: reads the settings from the configuration file's
/// value and makes them the live settings.
pub fn load_from_json(store: &mut BalanceStore, v: &Json) -> (r: BalanceConfig)
    ensures
        r@ == load_v(v@),
        final(store).cfg@ == load_v(v@),
{
    let mut cfg = BalanceConfig::default();
    match v.get("balance") {
        Some(o) => {
            cfg.enabled = match o.get("enabled") {
                Some(x) => match x.as_bool() {
                    Some(b) => b,
                    None => false,
                },
                None => false,
            };
            match o.get_str("currency") {
                Some(c) => match parse_currency(c) {
                    Some(p) => {
                        cfg.currency = p;
                    },
                    None => {},
                },
                None => {},
            }
            cfg.interval_secs = match o.get("interval_secs") {
                Some(x) => match x.as_u64() {
                    Some(n) => n,
                    None => DEFAULT_INTERVAL_SECS,
                },
                None => DEFAULT_INTERVAL_SECS,
            };
            proof {
                match o@.get("enabled"@) {
                    Some(JsonV::Bool(b)) => {},
                    _ => {},
                }
            }
        },
        None => {},
    }
    let cfg = normalize(cfg);
    proof {
        law_normalize_idempotent(load_pre_v(v@));
    }
    set_config(store, cfg.copy());
    cfg
}

/// The `balance` object written to the configuration file.
pub open spec fn balance_json_v(cfg: BalanceConfigV) -> JsonV {
    empty_obj().set("enabled"@, JsonV::Bool(cfg.enabled)).set(
        "currency"@,
        JsonV::Str(trim_spec(cfg.currency)),
    ).set("interval_secs"@, crate::respond::num(cfg.interval_secs))
}

/// `save_to_json`: sets `balance` in the configuration file's value, the
/// other members kept.
pub fn save_to_json(v: &mut Json, cfg: &BalanceConfig)
    requires
        old(v)@ is Object || old(v)@ is Null,
    ensures
        final(v)@ == old(v)@.set("balance"@, balance_json_v(cfg@)),
{
    let mut o = Json::object();
    o.set("enabled", Json::boolean(cfg.enabled));
    o.set("currency", Json::from_string(trimmed(cfg.currency.as_str())));
    o.set("interval_secs", Json::number(cfg.interval_secs));
    v.set("balance", o);
}

/// The host of a URL text as `reqwest::Url` parses it (`None` where it does
/// not parse or has no host).
pub uninterp spec fn url_host(text: Seq<char>) -> Option<Seq<char>>;

/// `reqwest::Url::parse(text)` and `host_str()`. What URL parsing gives is
/// stated only through the name `url_host`: the URL grammar is not restated.
#[verifier::external_body]
fn parse_url_host(text: &str) -> (r: Option<String>)
    ensures
        match r {
            Some(h) => url_host(text@) == Some(h@),
            None => url_host(text@) is None,
        },
{
    match reqwest::Url::parse(text) {
        Ok(u) => u.host_str().map(|h| h.to_string()),
        Err(_) => None,
    }
}

/// Whether `s` holds `://`.
pub open spec fn has_scheme_sep(s: Seq<char>) -> bool {
    exists|i: int| 0 <= i && i + 3 <= s.len() && #[trigger] s.subrange(i, i + 3) == seq![':', '/', '/']
}

fn has_scheme_sep_exec(s: &str) -> (r: bool)
    ensures
        r == has_scheme_sep(s@),
{
    let n = s.unicode_len();
    let mut i: usize = 0;
    while i < n && n - i >= 3
        invariant
            i <= n,
            n == s@.len(),
            forall|j: int| 0 <= j < i && j + 3 <= n ==> #[trigger] s@.subrange(j, j + 3) != seq![':', '/', '/'],
        decreases n - i,
    {
        if s.get_char(i) == ':' && s.get_char(i + 1) == '/' && s.get_char(i + 2) == '/' {
            assert(s@.subrange(i as int, i as int + 3) =~= seq![':', '/', '/']);
            return true;
        }
        assert(s@.subrange(i as int, i as int + 3)[0] == s@[i as int]);
        assert(s@.subrange(i as int, i as int + 3)[1] == s@[i as int + 1]);
        assert(s@.subrange(i as int, i as int + 3)[2] == s@[i as int + 2]);
        i = i + 1;
    }
    false
}

/// The text parsed as a URL: as written where it holds `://`, else with
/// `http://` in front.
pub open spec fn with_scheme(raw: Seq<char>) -> Seq<char> {
    if has_scheme_sep(raw) {
        raw
    } else {
        "http://"@ + raw
    }
}

/// Whether a parsed host is the official one (ASCII case ignored).
pub open spec fn is_official_host_v(host: Option<Seq<char>>) -> bool {
    match host {
        Some(h) => upper_text(h) == upper_text(official_host()),
        None => false,
    }
}

/// Whether a parsed host is the official one.
pub fn is_official_host(host: Option<&str>) -> (r: bool)
    ensures
        r == is_official_host_v(crate::json::str_ref_view(host)),
{
    match host {
        Some(h) => eq_ignore_ascii_case(h, "api.deepseek.com"),
        None => false,
    }
}

/// Whether an upstream address is the official API: by its host alone;
/// blank or unparsable addresses are not.
pub open spec fn is_official_upstream_v(url: Seq<char>) -> bool {
    let raw = trim_spec(url);
    raw.len() > 0 && is_official_host_v(url_host(with_scheme(raw)))
}

/// `is_official_upstream`.
pub fn is_official_upstream(upstream_url: &str) -> (r: bool)
    ensures
        r == is_official_upstream_v(upstream_url@),
{
    let raw = trim(upstream_url);
    if raw.unicode_len() == 0 {
        return false;
    }
    let full = if has_scheme_sep_exec(raw) {
        to_owned(raw)
    } else {
        let mut t = to_owned("http://");
        push_str(&mut t, raw);
        t
    };
    match parse_url_host(full.as_str()) {
        Some(h) => is_official_host(Some(h.as_str())),
        None => is_official_host(None),
    }
}

/// The settings as the front end reads them.
pub open spec fn config_json_v(cfg: BalanceConfigV) -> JsonV {
    empty_obj().set("enabled"@, JsonV::Bool(cfg.enabled)).set(
        "currency"@,
        JsonV::Str(cfg.currency),
    ).set("interval_secs"@, crate::respond::num(cfg.interval_secs))
}

/// `config_to_json`.
pub fn config_to_json(cfg: &BalanceConfig) -> (r: Json)
    ensures
        r@ == config_json_v(cfg@),
{
    let mut o = Json::object();
    o.set("enabled", Json::boolean(cfg.enabled));
    o.set("currency", Json::string(cfg.currency.as_str()));
    o.set("interval_secs", Json::number(cfg.interval_secs));
    o
}

/// `get_balance_settings`: the live settings as the front end reads them.
pub fn get_balance_settings(store: &BalanceStore) -> (r: Json)
    ensures
        r@ == config_json_v(store.cfg@),
{
    config_to_json(&store.cfg)
}

/// The error for a currency other than CNY or USD.
pub open spec fn bad_currency_message(s: Seq<char>) -> Seq<char> {
    "币种仅支持 CNY 或 USD，收到："@ + trim_spec(s)
}

/// New settings from the settings panel: fields missing or of the wrong type
/// keep the current value; a blank currency keeps it too; an interval is
/// clamped; a currency other than CNY / USD is refused.
pub open spec fn settings_update_v(current: BalanceConfigV, input: JsonV) -> Result<
    BalanceConfigV,
    Seq<char>,
> {
    let enabled = match input.get("enabled"@) {
        Some(JsonV::Bool(b)) => b,
        _ => current.enabled,
    };
    let interval = match crate::json::opt_u64(input.get("interval_secs"@)) {
        Some(n) => clamp_interval_v(n),
        None => current.interval_secs,
    };
    match input.get_str("currency"@) {
        Some(s) => if trim_spec(s).len() > 0 {
            match parse_currency_v(s) {
                Some(c) => Ok(BalanceConfigV { enabled, currency: c, interval_secs: interval }),
                None => Err(bad_currency_message(s)),
            }
        } else {
            Ok(BalanceConfigV { enabled, currency: current.currency, interval_secs: interval })
        },
        None => Ok(BalanceConfigV { enabled, currency: current.currency, interval_secs: interval }),
    }
}

/// `set_balance_settings`, up to writing the file: the settings to store,
/// or why they are refused.
pub fn set_balance_settings(current: &BalanceConfig, input: &Json) -> (r: Result<BalanceConfig, String>)
    ensures
        match r {
            Ok(c) => settings_update_v(current@, input@) == Ok::<BalanceConfigV, Seq<char>>(c@),
            Err(e) => settings_update_v(current@, input@) == Err::<BalanceConfigV, Seq<char>>(e@),
        },
{
    let enabled = match input.get("enabled") {
        Some(x) => match x.as_bool() {
            Some(b) => b,
            None => current.enabled,
        },
        None => current.enabled,
    };
    proof {
        match input@.get("enabled"@) {
            Some(JsonV::Bool(b)) => {},
            _ => {},
        }
    }
    let interval_secs = match input.get("interval_secs") {
        Some(x) => match x.as_u64() {
            Some(n) => clamp_interval(n),
            None => current.interval_secs,
        },
        None => current.interval_secs,
    };
    let currency = match input.get_str("currency") {
        Some(s) => {
            if trim(s).unicode_len() > 0 {
                match parse_currency(s) {
                    Some(c) => c,
                    None => {
                        let mut m = to_owned("币种仅支持 CNY 或 USD，收到：");
                        push_str(&mut m, trim(s));
                        return Err(m);
                    },
                }
            } else {
                current.currency.clone()
            }
        },
        None => current.currency.clone(),
    };
    Ok(BalanceConfig { enabled, currency, interval_secs })
}

/// The first balance entry of the currency (ASCII case ignored).
pub open spec fn find_currency(items: Seq<JsonV>, currency: Seq<char>) -> Option<JsonV>
    decreases items.len(),
{
    if items.len() == 0 {
        None
    } else {
        let c = items[0].get_str("currency"@);
        if c is Some && upper_text(c->0) == upper_text(currency) {
            Some(items[0])
        } else {
            find_currency(items.drop_first(), currency)
        }
    }
}

/// An amount as given (a string), `null` where missing.
pub open spec fn amount_v(item: JsonV, key: Seq<char>) -> JsonV {
    crate::json::or_null(item.get(key))
}

/// `amount`.
pub fn amount(item: &Json, key: &str) -> (r: Json)
    ensures
        r@ == amount_v(item@, key@),
{
    item.member_or_null(key)
}

/// The balance reply as the front end receives it: the amounts of the entry
/// of the currency, or the reason there is none.
pub open spec fn parse_balance_v(body: JsonV, currency: Seq<char>) -> JsonV {
    let available = match body.get("is_available"@) {
        Some(JsonV::Bool(b)) => b,
        _ => false,
    };
    let hit = match body.get("balance_infos"@) {
        Some(JsonV::Array(items)) => find_currency(items, currency),
        _ => None,
    };
    match hit {
        Some(item) => empty_obj().set("supported"@, JsonV::Bool(true)).set(
            "available"@,
            JsonV::Bool(available),
        ).set("currency"@, JsonV::Str(currency)).set("total"@, amount_v(item, "total_balance"@)).set(
            "granted"@,
            amount_v(item, "granted_balance"@),
        ).set("topped_up"@, amount_v(item, "topped_up_balance"@)).set("reason"@, JsonV::Null),
        None => empty_obj().set("supported"@, JsonV::Bool(true)).set(
            "available"@,
            JsonV::Bool(false),
        ).set("currency"@, JsonV::Str(currency)).set("reason"@, JsonV::Str("账号无该币种余额"@)),
    }
}

/// `parse_balance`.
pub fn parse_balance(body: &Json, currency: &str) -> (r: Json)
    ensures
        r@ == parse_balance_v(body@, currency@),
{
    let available = match body.get("is_available") {
        Some(x) => match x.as_bool() {
            Some(b) => b,
            None => false,
        },
        None => false,
    };
    proof {
        match body@.get("is_available"@) {
            Some(JsonV::Bool(b)) => {},
            _ => {},
        }
    }
    let hit: Option<&Json> = match body.get("balance_infos") {
        Some(x) => match x.as_array() {
            Some(items) => {
                let ghost iv = items@.map_values(|j: Json| j@);
                let mut i: usize = 0;
                assert(iv.skip(0) =~= iv);
                let mut found = false;
                while i < items.len() && !found
                    invariant
                        i <= items@.len(),
                        iv == items@.map_values(|j: Json| j@),
                        !found ==> find_currency(iv, currency@) == find_currency(iv.skip(i as int), currency@),
                        found ==> i < items@.len() && find_currency(iv, currency@) == Some(iv[i as int]),
                    decreases items@.len() - i + (if found { 0int } else { 1int }),
                {
                    let m = match items[i].get_str("currency") {
                        Some(c) => eq_ignore_ascii_case(c, currency),
                        None => false,
                    };
                    assert(iv.skip(i as int)[0] == items@[i as int]@);
                    assert(iv.skip(i as int).drop_first() =~= iv.skip(i as int + 1));
                    if m {
                        found = true;
                    } else {
                        i = i + 1;
                    }
                }
                if found {
                    Some(&items[i])
                } else {
                    assert(iv.skip(i as int) =~= Seq::<JsonV>::empty());
                    None
                }
            },
            None => None,
        },
        None => None,
    };
    assert(ref_view(hit) == match body@.get("balance_infos"@) {
        Some(JsonV::Array(items)) => find_currency(items, currency@),
        _ => None,
    });
    let mut o = Json::object();
    o.set("supported", Json::boolean(true));
    match hit {
        Some(item) => {
            o.set("available", Json::boolean(available));
            o.set("currency", Json::string(currency));
            o.set("total", amount(item, "total_balance"));
            o.set("granted", amount(item, "granted_balance"));
            o.set("topped_up", amount(item, "topped_up_balance"));
            o.set("reason", Json::null());
        },
        None => {
            o.set("available", Json::boolean(false));
            o.set("currency", Json::string(currency));
            o.set("reason", Json::string("账号无该币种余额"));
        },
    }
    o
}

/// A reply excerpt for an error message: trimmed, and cut to 200 characters
/// with `…` where longer.
pub open spec fn summarize_v(text: Seq<char>) -> Seq<char> {
    let t = trim_spec(text);
    if t.len() <= ERROR_BODY_MAX_CHARS {
        t
    } else {
        t.take(ERROR_BODY_MAX_CHARS as int) + "…"@
    }
}

/// `summarize`.
pub fn summarize(text: &str) -> (r: String)
    ensures
        r@ == summarize_v(text@),
{
    let t = trim(text);
    let n = t.unicode_len();
    if n <= ERROR_BODY_MAX_CHARS {
        return to_owned(t);
    }
    let mut head = to_owned(t.substring_char(0, ERROR_BODY_MAX_CHARS));
    push_str(&mut head, "…");
    head
}

/// What a balance query does before any request.
pub enum BalanceStep {
    /// Answer at once with this reply.
    Reply(Json),
    /// Fail with this message.
    Refuse(String),
    /// Query the official API with this key.
    Query(String),
}

/// `{"supported": false, "reason": reason}`.
pub open spec fn unsupported_v(reason: Seq<char>) -> JsonV {
    empty_obj().set("supported"@, JsonV::Bool(false)).set("reason"@, JsonV::Str(reason))
}

fn unsupported(reason: &str) -> (r: Json)
    ensures
        r@ == unsupported_v(reason@),
{
    let mut o = Json::object();
    o.set("supported", Json::boolean(false));
    o.set("reason", Json::string(reason));
    o
}

/// `get_balance`'s checks before it queries: off, not the official upstream,
/// no key.
pub fn balance_precheck(cfg: &BalanceConfig, upstream_url: &str, api_key: &str) -> (r: BalanceStep)
    ensures
        !cfg.enabled ==> (r matches BalanceStep::Reply(j) && j@ == unsupported_v("余额查询未开启"@)),
        cfg.enabled && !is_official_upstream_v(upstream_url@) ==> (r matches BalanceStep::Reply(j)
            && j@ == unsupported_v("当前上游非 DeepSeek 官方，余额查询不可用"@)),
        cfg.enabled && is_official_upstream_v(upstream_url@) && trim_spec(api_key@).len() == 0
            ==> (r matches BalanceStep::Refuse(m) && m@ == "API Key 未配置，无法查询余额"@),
        cfg.enabled && is_official_upstream_v(upstream_url@) && trim_spec(api_key@).len() > 0
            ==> (r matches BalanceStep::Query(k) && k@ == trim_spec(api_key@)),
{
    if !cfg.enabled {
        return BalanceStep::Reply(unsupported("余额查询未开启"));
    }
    if !is_official_upstream(upstream_url) {
        return BalanceStep::Reply(unsupported("当前上游非 DeepSeek 官方，余额查询不可用"));
    }
    let key = trim(api_key);
    if key.unicode_len() == 0 {
        return BalanceStep::Refuse(to_owned("API Key 未配置，无法查询余额"));
    }
    BalanceStep::Query(to_owned(key))
}

/// The error for a reply that is not a success: its status and an excerpt.
pub open spec fn status_error_v(status: u16, text: Seq<char>) -> Seq<char> {
    "余额查询失败（HTTP "@ + crate::text::decimal(status as nat) + "）："@ + summarize_v(text)
}

/// `get_balance`'s reading of the reply status: `None` for a success
/// (2xx), else the error message.
pub fn balance_status_error(status: u16, text: &str) -> (r: Option<String>)
    ensures
        200 <= status <= 299 ==> r is None,
        !(200 <= status <= 299) ==> (r matches Some(m) && m@ == status_error_v(status, text@)),
{
    if 200 <= status && status <= 299 {
        return None;
    }
    let mut m = to_owned("余额查询失败（HTTP ");
    push_str(&mut m, crate::text::u64_to_text(status as u64).as_str());
    push_str(&mut m, "）：");
    push_str(&mut m, summarize(text).as_str());
    Some(m)
}

/// The error for a reply that is not JSON: the parser's message and an
/// excerpt.
pub open spec fn json_error_v(err: Seq<char>, text: Seq<char>) -> Seq<char> {
    "余额接口返回不是有效 JSON："@ + err + "（"@ + summarize_v(text) + "）"@
}

/// The error for a reply that is not JSON.
pub fn balance_json_error(err: &str, text: &str) -> (r: String)
    ensures
        r@ == json_error_v(err@, text@),
{
    let mut m = to_owned("余额接口返回不是有效 JSON：");
    push_str(&mut m, err);
    push_str(&mut m, "（");
    push_str(&mut m, summarize(text).as_str());
    push_str(&mut m, "）");
    m
}

/// A valid currency code reads as itself.
proof fn lemma_codes_parse()
    ensures
        parse_currency_v("CNY"@) == Some("CNY"@),
        parse_currency_v("USD"@) == Some("USD"@),
        trim_spec("CNY"@) == "CNY"@,
        trim_spec("USD"@) == "USD"@,
{
    reveal_strlit("CNY");
    reveal_strlit("USD");
    assert(crate::text::trim_start_spec("CNY"@) == "CNY"@);
    assert(crate::text::trim_end_spec("CNY"@) == "CNY"@);
    assert(crate::text::trim_start_spec("USD"@) == "USD"@);
    assert(crate::text::trim_end_spec("USD"@) == "USD"@);
    assert(upper_text("CNY"@) =~= "CNY"@);
    assert(upper_text("USD"@) =~= "USD"@);
}

/// Normalizing twice is normalizing once.
pub proof fn law_normalize_idempotent(cfg: BalanceConfigV)
    ensures
        normalize_v(normalize_v(cfg)) == normalize_v(cfg),
{
    lemma_codes_parse();
}

/// Loading what saving wrote gives the saved settings back, normalized.
pub proof fn law_balance_json_roundtrip(v: JsonV, cfg: BalanceConfigV)
    requires
        v is Object || v is Null,
        cfg.currency == trim_spec(cfg.currency),
    ensures
        load_v(v.set("balance"@, balance_json_v(cfg))) == normalize_v(cfg),
{
    reveal_strlit("enabled");
    reveal_strlit("currency");
    reveal_strlit("interval_secs");
    assert("enabled"@.len() == 7 && "currency"@.len() == 8 && "interval_secs"@.len() == 13);
    let o = balance_json_v(cfg);
    crate::json::law_set_then_get(v, "balance"@, o);
    let o1 = empty_obj().set("enabled"@, JsonV::Bool(cfg.enabled));
    let o2 = o1.set("currency"@, JsonV::Str(trim_spec(cfg.currency)));
    crate::json::law_set_then_get(o2, "interval_secs"@, crate::respond::num(cfg.interval_secs));
    crate::json::law_set_keeps_others(o2, "interval_secs"@, crate::respond::num(cfg.interval_secs), "currency"@);
    crate::json::law_set_keeps_others(o2, "interval_secs"@, crate::respond::num(cfg.interval_secs), "enabled"@);
    crate::json::law_set_then_get(o1, "currency"@, JsonV::Str(trim_spec(cfg.currency)));
    crate::json::law_set_keeps_others(o1, "currency"@, JsonV::Str(trim_spec(cfg.currency)), "enabled"@);
    crate::json::law_set_then_get(empty_obj(), "enabled"@, JsonV::Bool(cfg.enabled));
    crate::json::lemma_num_as_u64(cfg.interval_secs);
    lemma_codes_parse();
}

} // verus!
