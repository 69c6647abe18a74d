//! Codeg server connection: its settings (stored under `codeg` in the
//! configuration file), the calls made to its `/api/*` endpoints, how session
//! snapshots become session summaries, when a stalled or failed session is
//! restarted, and the counts shown in the status line.
use vstd::prelude::*;

use crate::json::{empty_obj, Json, JsonV};
use crate::respond::num;
use crate::text::{
    decimal, empty_string, join, join_spec, push_str, str_eq, to_owned, trim, trim_spec, trimmed,
};

verus! {

/// Port of a local Codeg server.
pub const CODEG_DEFAULT_PORT: u16 = 3080;

/// Seconds between two status polls.
pub const DEFAULT_POLL_SECS: u64 = 5;

/// Default inactivity threshold, seconds.
pub const DEFAULT_INACTIVITY_TIMEOUT_SECS: u64 = 120;

/// Smallest inactivity threshold, seconds.
pub const MIN_INACTIVITY_SECS: u64 = 10;

/// Shortest time between two recovery scans, milliseconds.
pub const RECOVERY_MIN_INTERVAL_MS: u64 = 60_000;

/// The default server address.
pub open spec fn default_server_url() -> Seq<char> {
    "http://127.0.0.1:"@ + decimal(CODEG_DEFAULT_PORT as nat)
}

fn default_server_url_exec() -> (r: String)
    ensures
        r@ == default_server_url(),
{
    let mut s = to_owned("http://127.0.0.1:");
    push_str(&mut s, crate::text::u64_to_text(CODEG_DEFAULT_PORT as u64).as_str());
    s
}

/// The Codeg settings.
pub struct CodegConfig {
    pub enabled: bool,
    pub server_url: String,
    pub token: String,
    /// Restart sessions that are active but silent for too long.
    pub auto_recovery: bool,
    /// Seconds of silence after which an active session counts as stalled.
    pub inactivity_timeout_secs: u64,
}

/// The Codeg settings as values.
pub struct CodegConfigV {
    pub enabled: bool,
    pub server_url: Seq<char>,
    pub token: Seq<char>,
    pub auto_recovery: bool,
    pub inactivity_timeout_secs: u64,
}

impl CodegConfigV {
    /// Both the address and the token are set (not blank).
    pub open spec fn configured(self) -> bool {
        trim_spec(self.server_url).len() > 0 && trim_spec(self.token).len() > 0
    }
}

impl View for CodegConfig {
    type V = CodegConfigV;

    open spec fn view(&self) -> CodegConfigV {
        CodegConfigV {
            enabled: self.enabled,
            server_url: self.server_url@,
            token: self.token@,
            auto_recovery: self.auto_recovery,
            inactivity_timeout_secs: self.inactivity_timeout_secs,
        }
    }
}

/// The default settings: off, the local server, no token, recovery on,
/// 120 seconds.
pub open spec fn default_config_v() -> CodegConfigV {
    CodegConfigV {
        enabled: false,
        server_url: default_server_url(),
        token: Seq::empty(),
        auto_recovery: true,
        inactivity_timeout_secs: DEFAULT_INACTIVITY_TIMEOUT_SECS,
    }
}

impl Default for CodegConfig {
    fn default() -> (r: Self)
        ensures
            r@ == default_config_v(),
    {
        CodegConfig {
            enabled: false,
            server_url: default_server_url_exec(),
            token: empty_string(),
            auto_recovery: true,
            inactivity_timeout_secs: DEFAULT_INACTIVITY_TIMEOUT_SECS,
        }
    }
}

impl CodegConfig {
    /// Both the address and the token are set (not blank).
    pub fn configured(&self) -> (r: bool)
        ensures
            r == self@.configured(),
    {
        !crate::text::is_blank(self.server_url.as_str()) && !crate::text::is_blank(self.token.as_str())
    }

    /// A field-by-field copy.
    pub fn copy(&self) -> (r: Self)
        ensures
            r@ == self@,
    {
        CodegConfig {
            enabled: self.enabled,
            server_url: self.server_url.clone(),
            token: self.token.clone(),
            auto_recovery: self.auto_recovery,
            inactivity_timeout_secs: self.inactivity_timeout_secs,
        }
    }
}

/// The live Codeg settings.
pub struct CodegStore {
    pub cfg: CodegConfig,
}

impl CodegStore {
    /// The store as the app starts: default settings.
    pub fn new() -> (r: Self)
        ensures
            r.cfg@ == default_config_v(),
    {
        CodegStore { cfg: CodegConfig::default() }
    }
}

/// `update_config`: makes the settings live and gives them back.
pub fn update_config(store: &mut CodegStore, cfg: CodegConfig) -> (r: CodegConfig)
    ensures
        final(store).cfg@ == cfg@,
        r@ == cfg@,
{
    store.cfg = cfg.copy();
    cfg
}

/// A member's string, or the empty string.
pub open spec fn str_or_empty(o: JsonV, k: Seq<char>) -> Seq<char> {
    o.str_or(k, Seq::empty())
}

/// The settings of a configuration file's value: the `codeg` object's fields
/// over the defaults (address trimmed; threshold at least 10 seconds), a
/// blank address replaced by the default.
pub open spec fn load_v(v: JsonV) -> CodegConfigV {
    let cfg = match v.get("codeg"@) {
        Some(o) => CodegConfigV {
            enabled: match o.get("enabled"@) {
                Some(JsonV::Bool(b)) => b,
                _ => false,
            },
            server_url: trim_spec(str_or_empty(o, "server_url"@)),
            token: str_or_empty(o, "token"@),
            auto_recovery: match o.get("auto_recovery"@) {
                Some(JsonV::Bool(b)) => b,
                _ => true,
            },
            inactivity_timeout_secs: {
                let t = match crate::json::opt_u64(o.get("inactivity_timeout_secs"@)) {
                    Some(n) => n,
                    None => DEFAULT_INACTIVITY_TIMEOUT_SECS,
                };
                if t < MIN_INACTIVITY_SECS {
                    MIN_INACTIVITY_SECS
                } else {
                    t
                }
            },
        },
        None => default_config_v(),
    };
    if cfg.server_url.len() == 0 {
        CodegConfigV { server_url: default_server_url(), ..cfg }
    } else {
        cfg
    }
}

/// A boolean member, or `d`.
fn bool_or(o: &Json, key: &str, d: bool) -> (r: bool)
    ensures
        r == (match o@.get(key@) {
            Some(JsonV::Bool(b)) => b,
            _ => d,
        }),
{
    match o.get(key) {
        Some(x) => match x.as_bool() {
            Some(b) => b,
            None => d,
        },
        None => d,
    }
}

/// `load_from_json`: reads the settings and makes them live.
pub fn load_from_json(store: &mut CodegStore, v: &Json) -> (r: CodegConfig)
    ensures
        r@ == load_v(v@),
        final(store).cfg@ == load_v(v@),
{
    let mut cfg = CodegConfig::default();
    match v.get("codeg") {
        Some(o) => {
            cfg.enabled = bool_or(o, "enabled", false);
            cfg.server_url = match o.get_str("server_url") {
                Some(u) => trimmed(u),
                None => empty_string(),
            };
            cfg.token = match o.get_str("token") {
                Some(t) => to_owned(t),
                None => empty_string(),
            };
            cfg.auto_recovery = bool_or(o, "auto_recovery", true);
            let t = match o.get("inactivity_timeout_secs") {
                Some(x) => match x.as_u64() {
                    Some(n) => n,
                    None => DEFAULT_INACTIVITY_TIMEOUT_SECS,
                },
                None => DEFAULT_INACTIVITY_TIMEOUT_SECS,
            };
            cfg.inactivity_timeout_secs = if t < MIN_INACTIVITY_SECS {
                MIN_INACTIVITY_SECS
            } else {
                t
            };
        },
        None => {},
    }
    if cfg.server_url.unicode_len() == 0 {
        cfg.server_url = default_server_url_exec();
    }
    update_config(store, cfg)
}

/// The `codeg` object written to the configuration file.
pub open spec fn codeg_json_v(cfg: CodegConfigV) -> JsonV {
    empty_obj().set("enabled"@, JsonV::Bool(cfg.enabled)).set(
        "server_url"@,
        JsonV::Str(trim_spec(cfg.server_url)),
    ).set("token"@, JsonV::Str(cfg.token)).set("auto_recovery"@, JsonV::Bool(cfg.auto_recovery)).set(
        "inactivity_timeout_secs"@,
        num(cfg.inactivity_timeout_secs),
    )
}

/// `save_to_json`: sets `codeg` in the configuration file's value, the other
/// members kept.
pub fn save_to_json(v: &mut Json, cfg: &CodegConfig)
    requires
        old(v)@ is Object || old(v)@ is Null,
    ensures
        final(v)@ == old(v)@.set("codeg"@, codeg_json_v(cfg@)),
{
    let mut o = Json::object();
    o.set("enabled", Json::boolean(cfg.enabled));
    o.set("server_url", Json::from_string(trimmed(cfg.server_url.as_str())));
    o.set("token", Json::string(cfg.token.as_str()));
    o.set("auto_recovery", Json::boolean(cfg.auto_recovery));
    o.set("inactivity_timeout_secs", Json::number(cfg.inactivity_timeout_secs));
    v.set("codeg", o);
}

/// Loading what saving wrote gives the saved settings back, for settings as
/// the store keeps them (a trimmed, non-empty address and a threshold of at
/// least 10 seconds).
pub proof fn law_codeg_json_roundtrip(v: JsonV, cfg: CodegConfigV)
    requires
        v is Object || v is Null,
        cfg.server_url == trim_spec(cfg.server_url),
        cfg.server_url.len() > 0,
        cfg.inactivity_timeout_secs >= MIN_INACTIVITY_SECS,
    ensures
        load_v(v.set("codeg"@, codeg_json_v(cfg))) == cfg,
{
    reveal_strlit("enabled");
    reveal_strlit("server_url");
    reveal_strlit("token");
    reveal_strlit("auto_recovery");
    reveal_strlit("inactivity_timeout_secs");
    assert("enabled"@.len() == 7 && "server_url"@.len() == 10 && "token"@.len() == 5
        && "auto_recovery"@.len() == 13 && "inactivity_timeout_secs"@.len() == 23);
    let e = JsonV::Bool(cfg.enabled);
    let u = JsonV::Str(trim_spec(cfg.server_url));
    let t = JsonV::Str(cfg.token);
    let a = JsonV::Bool(cfg.auto_recovery);
    let n = num(cfg.inactivity_timeout_secs);
    let o1 = empty_obj().set("enabled"@, e);
    let o2 = o1.set("server_url"@, u);
    let o3 = o2.set("token"@, t);
    let o4 = o3.set("auto_recovery"@, a);
    crate::json::law_set_then_get(v, "codeg"@, codeg_json_v(cfg));
    crate::json::law_set_then_get(o4, "inactivity_timeout_secs"@, n);
    crate::json::law_set_keeps_others(o4, "inactivity_timeout_secs"@, n, "auto_recovery"@);
    crate::json::law_set_keeps_others(o4, "inactivity_timeout_secs"@, n, "token"@);
    crate::json::law_set_keeps_others(o4, "inactivity_timeout_secs"@, n, "server_url"@);
    crate::json::law_set_keeps_others(o4, "inactivity_timeout_secs"@, n, "enabled"@);
    crate::json::law_set_then_get(o3, "auto_recovery"@, a);
    crate::json::law_set_keeps_others(o3, "auto_recovery"@, a, "token"@);
    crate::json::law_set_keeps_others(o3, "auto_recovery"@, a, "server_url"@);
    crate::json::law_set_keeps_others(o3, "auto_recovery"@, a, "enabled"@);
    crate::json::law_set_then_get(o2, "token"@, t);
    crate::json::law_set_keeps_others(o2, "token"@, t, "server_url"@);
    crate::json::law_set_keeps_others(o2, "token"@, t, "enabled"@);
    crate::json::law_set_then_get(o1, "server_url"@, u);
    crate::json::law_set_keeps_others(o1, "server_url"@, u, "enabled"@);
    crate::json::law_set_then_get(empty_obj(), "enabled"@, e);
    crate::json::lemma_num_as_u64(cfg.inactivity_timeout_secs);
}

// ──────── API calls ────────

/// `s` without trailing `/` characters.
pub open spec fn trim_end_slashes(s: Seq<char>) -> Seq<char>
    decreases s.len(),
{
    if s.len() > 0 && s.last() == '/' {
        trim_end_slashes(s.drop_last())
    } else {
        s
    }
}

fn trim_end_slashes_exec(s: &str) -> (r: String)
    ensures
        r@ == trim_end_slashes(s@),
{
    let mut n = s.unicode_len();
    assert(s@.take(n as int) =~= s@);
    while n > 0 && s.get_char(n - 1) == '/'
        invariant
            n <= s@.len(),
            trim_end_slashes(s@) == trim_end_slashes(s@.take(n as int)),
        decreases n,
    {
        assert(s@.take(n as int).drop_last() =~= s@.take(n as int - 1));
        n = n - 1;
    }
    assert(n < s@.len() || s@.take(n as int) =~= s@);
    to_owned(s.substring_char(0, n))
}

/// Where and with which token a Codeg call goes.
pub struct ApiTarget {
    pub url: String,
    pub token: String,
}

/// `post_api`'s checks and address: a blank address or token is refused;
/// the address is `<server without trailing slashes>/api/<command>`.
pub open spec fn api_target_v(cfg: CodegConfigV, command: Seq<char>) -> Result<(Seq<char>, Seq<char>), Seq<char>> {
    let url = trim_spec(cfg.server_url);
    let token = trim_spec(cfg.token);
    if url.len() == 0 {
        Err("Codeg 服务器地址未配置"@)
    } else if token.len() == 0 {
        Err("Codeg 服务器 Token 未配置"@)
    } else {
        Ok((trim_end_slashes(url) + "/api/"@ + command, token))
    }
}

/// `post_api` up to the request.
pub fn api_target(cfg: &CodegConfig, command: &str) -> (r: Result<ApiTarget, String>)
    ensures
        match r {
            Ok(t) => api_target_v(cfg@, command@) == Ok::<(Seq<char>, Seq<char>), Seq<char>>(
                (t.url@, t.token@),
            ),
            Err(e) => api_target_v(cfg@, command@) == Err::<(Seq<char>, Seq<char>), Seq<char>>(e@),
        },
{
    let url = trim(cfg.server_url.as_str());
    let token = trim(cfg.token.as_str());
    if url.unicode_len() == 0 {
        return Err(to_owned("Codeg 服务器地址未配置"));
    }
    if token.unicode_len() == 0 {
        return Err(to_owned("Codeg 服务器 Token 未配置"));
    }
    let mut full = trim_end_slashes_exec(url);
    push_str(&mut full, "/api/");
    push_str(&mut full, command);
    Ok(ApiTarget { url: full, token: to_owned(token) })
}

/// `post_api`'s reading of a reply status: `None` for a success (2xx), else
/// the error (401 named as an authorization failure).
pub open spec fn api_status_error_v(status: u16, text: Seq<char>) -> Option<Seq<char>> {
    if 200 <= status <= 299 {
        None
    } else if status == 401 {
        Some("Codeg Token 无效或未授权（HTTP 401）："@ + trim_spec(text))
    } else {
        Some("Codeg 接口错误（HTTP "@ + decimal(status as nat) + "）："@ + trim_spec(text))
    }
}

/// `post_api`'s reading of a reply status.
pub fn api_status_error(status: u16, text: &str) -> (r: Option<String>)
    ensures
        match r {
            Some(m) => api_status_error_v(status, text@) == Some(m@),
            None => api_status_error_v(status, text@) is None,
        },
{
    if 200 <= status && status <= 299 {
        return None;
    }
    if status == 401 {
        let mut m = to_owned("Codeg Token 无效或未授权（HTTP 401）：");
        push_str(&mut m, trim(text));
        return Some(m);
    }
    let mut m = to_owned("Codeg 接口错误（HTTP ");
    push_str(&mut m, crate::text::u64_to_text(status as u64).as_str());
    push_str(&mut m, "）：");
    push_str(&mut m, trim(text));
    Some(m)
}

/// The error for a successful reply that is not JSON.
pub fn api_json_error(err: &str, text: &str) -> (r: String)
    ensures
        r@ == "Codeg 返回不是有效 JSON："@ + err@ + "（"@ + trim_spec(text@) + "）"@,
{
    let mut m = to_owned("Codeg 返回不是有效 JSON：");
    push_str(&mut m, err);
    push_str(&mut m, "（");
    push_str(&mut m, trim(text));
    push_str(&mut m, "）");
    m
}

/// One call to the Codeg API.
pub struct ApiCall {
    pub command: String,
    pub body: Json,
}

/// `{"connectionId": id}`.
pub open spec fn connection_body(id: Seq<char>) -> JsonV {
    empty_obj().set("connectionId"@, JsonV::Str(id))
}

/// The calls of a session action, in order: `stop` cancels the turn;
/// `restart` and `resume` cancel it, then prompt with the message (`继续` by
/// default); `disconnect` disconnects; any other action is refused.
pub open spec fn session_plan_v(action: Seq<char>, id: Seq<char>, message: Option<Seq<char>>) -> Result<
    Seq<(Seq<char>, JsonV)>,
    Seq<char>,
> {
    if action == "stop"@ {
        Ok(seq![("acp_cancel"@, connection_body(id))])
    } else if action == "restart"@ || action == "resume"@ {
        let text = match message {
            Some(m) => m,
            None => "继续"@,
        };
        Ok(
            seq![
                ("acp_cancel"@, connection_body(id)),
                (
                    "acp_prompt"@,
                    connection_body(id).set(
                        "blocks"@,
                        JsonV::Array(
                            seq![
                                empty_obj().set("type"@, JsonV::Str("text"@)).set(
                                    "text"@,
                                    JsonV::Str(text),
                                ),
                            ],
                        ),
                    ),
                ),
            ],
        )
    } else if action == "disconnect"@ {
        Ok(seq![("acp_disconnect"@, connection_body(id))])
    } else {
        Err("不支持的 Codeg 会话操作："@ + action)
    }
}

/// The views of planned calls.
pub open spec fn calls_v(cs: Seq<ApiCall>) -> Seq<(Seq<char>, JsonV)> {
    cs.map_values(|c: ApiCall| (c.command@, c.body@))
}

fn connection_body_exec(id: &str) -> (r: Json)
    ensures
        r@ == connection_body(id@),
{
    let mut o = Json::object();
    o.set("connectionId", Json::string(id));
    o
}

/// `session_action`'s plan: the calls to make (the caller waits 300 ms
/// between the two calls of a restart).
pub fn session_action(action: &str, connection_id: &str, message: Option<&str>) -> (r: Result<
    Vec<ApiCall>,
    String,
>)
    ensures
        match r {
            Ok(cs) => session_plan_v(action@, connection_id@, crate::json::str_ref_view(message))
                == Ok::<Seq<(Seq<char>, JsonV)>, Seq<char>>(calls_v(cs@)),
            Err(e) => session_plan_v(action@, connection_id@, crate::json::str_ref_view(message))
                == Err::<Seq<(Seq<char>, JsonV)>, Seq<char>>(e@),
        },
{
    let mut calls: Vec<ApiCall> = Vec::new();
    if str_eq(action, "stop") {
        calls.push(ApiCall { command: to_owned("acp_cancel"), body: connection_body_exec(connection_id) });
    } else if str_eq(action, "restart") || str_eq(action, "resume") {
        let text = match message {
            Some(m) => m,
            None => "继续",
        };
        calls.push(ApiCall { command: to_owned("acp_cancel"), body: connection_body_exec(connection_id) });
        let mut block = Json::object();
        block.set("type", Json::string("text"));
        block.set("text", Json::string(text));
        let ghost bv = block@;
        let mut blocks: Vec<Json> = Vec::new();
        blocks.push(block);
        assert(blocks@.map_values(|j: Json| j@) =~= seq![bv]);
        let mut body = connection_body_exec(connection_id);
        body.set("blocks", Json::array(blocks));
        calls.push(ApiCall { command: to_owned("acp_prompt"), body });
    } else if str_eq(action, "disconnect") {
        calls.push(ApiCall { command: to_owned("acp_disconnect"), body: connection_body_exec(connection_id) });
    } else {
        let mut m = to_owned("不支持的 Codeg 会话操作：");
        push_str(&mut m, action);
        return Err(m);
    }
    assert(calls_v(calls@) =~= session_plan_v(action@, connection_id@, crate::json::str_ref_view(message))->Ok_0);
    Ok(calls)
}

// ──────── sessions ────────

/// Running: a turn is in progress (`prompting` or `connecting`).
pub open spec fn is_running_v(status: Seq<char>) -> bool {
    status == "prompting"@ || status == "connecting"@
}

/// `is_running`.
pub fn is_running(status: &str) -> (r: bool)
    ensures
        r == is_running_v(status@),
{
    str_eq(status, "prompting") || str_eq(status, "connecting")
}

/// `is_stopped`: `disconnected`.
pub fn is_stopped(status: &str) -> (r: bool)
    ensures
        r == (status@ == "disconnected"@),
{
    str_eq(status, "disconnected")
}

/// `is_error`: `error`.
pub fn is_error(status: &str) -> (r: bool)
    ensures
        r == (status@ == "error"@),
{
    str_eq(status, "error")
}

/// A connection as the connection list gives it.
pub struct CodegConnection {
    pub id: String,
    pub agent_type: String,
    pub status: String,
}

/// One content block of a live message.
pub enum LiveContentBlock {
    Text(String),
    Thinking(String),
    Other,
}

/// The live message of a session.
pub struct LiveMessageInfo {
    pub content: Vec<LiveContentBlock>,
}

/// The texts of text and thinking blocks, in order.
pub open spec fn live_texts(bs: Seq<LiveContentBlock>) -> Seq<Seq<char>>
    decreases bs.len(),
{
    if bs.len() == 0 {
        Seq::empty()
    } else {
        live_texts(bs.drop_last()) + match bs.last() {
            LiveContentBlock::Text(t) => seq![t@],
            LiveContentBlock::Thinking(t) => seq![t@],
            LiveContentBlock::Other => Seq::empty(),
        }
    }
}

impl LiveMessageInfo {
    /// The message's text: its text and thinking blocks joined by newlines,
    /// trimmed.
    pub fn text(&self) -> (r: String)
        ensures
            r@ == trim_spec(join_spec(live_texts(self.content@), "\n"@)),
    {
        let ghost bv = self.content@;
        let mut parts: Vec<String> = Vec::new();
        let mut i: usize = 0;
        assert(bv.take(0) =~= Seq::<LiveContentBlock>::empty());
        while i < self.content.len()
            invariant
                i <= bv.len(),
                bv == self.content@,
                parts@.map_values(|p: String| p@) == live_texts(bv.take(i as int)),
            decreases bv.len() - i,
        {
            assert(bv.take(i as int + 1).drop_last() =~= bv.take(i as int));
            match &self.content[i] {
                LiveContentBlock::Text(t) => parts.push(t.clone()),
                LiveContentBlock::Thinking(t) => parts.push(t.clone()),
                LiveContentBlock::Other => {},
            }
            assert(parts@.map_values(|p: String| p@) =~= live_texts(bv.take(i as int + 1)));
            i = i + 1;
        }
        assert(bv.take(bv.len() as int) =~= bv);
        trimmed(join(&parts, "\n").as_str())
    }
}

/// A session snapshot, with what the summaries read of it.
pub struct CodegSnapshot {
    pub external_id: Option<String>,
    pub status: Option<String>,
    pub pending_question: bool,
    pub pending_permission: bool,
    pub pending_plan_approval: bool,
    pub live_message: Option<LiveMessageInfo>,
    /// `usage.used`, where given.
    pub usage_used: Option<u64>,
}

impl CodegSnapshot {
    /// An empty snapshot (no snapshot could be read).
    pub fn empty() -> (r: Self)
        ensures
            r.external_id is None && r.status is None && !r.pending_question && !r.pending_permission
                && !r.pending_plan_approval && r.live_message is None && r.usage_used is None,
    {
        CodegSnapshot {
            external_id: None,
            status: None,
            pending_question: false,
            pending_permission: false,
            pending_plan_approval: false,
            live_message: None,
            usage_used: None,
        }
    }
}

/// What a session waits for: a question first, then a permission, then a
/// plan approval.
pub open spec fn waiting_label_v(snap: CodegSnapshot) -> Option<Seq<char>> {
    if snap.pending_question {
        Some("question"@)
    } else if snap.pending_permission {
        Some("permission"@)
    } else if snap.pending_plan_approval {
        Some("plan_approval"@)
    } else {
        None
    }
}

/// The view of an optional string.
pub open spec fn opt_string_v(o: Option<String>) -> Option<Seq<char>> {
    match o {
        Some(s) => Some(s@),
        None => None,
    }
}

/// `waiting_label`.
pub fn waiting_label(snap: &CodegSnapshot) -> (r: Option<String>)
    ensures
        opt_string_v(r) == waiting_label_v(*snap),
{
    if snap.pending_question {
        return Some(to_owned("question"));
    }
    if snap.pending_permission {
        return Some(to_owned("permission"));
    }
    if snap.pending_plan_approval {
        return Some(to_owned("plan_approval"));
    }
    None
}

/// One session as the status line shows it.
pub struct CodegSessionSummary {
    pub connection_id: String,
    pub status: String,
    pub agent_type: String,
    pub session_name: String,
    /// The newest text of the live message.
    pub latest_reply: String,
    /// What the session waits for: `question`, `permission` or `plan_approval`.
    pub waiting_for: Option<String>,
    pub idle_secs: u64,
    pub last_activity_at: Option<i64>,
    pub automatic_restart_count: u64,
    pub last_restart_reason: Option<String>,
}

/// The summary of a connection before its snapshot is read.
pub fn new_summary(c: &CodegConnection) -> (r: CodegSessionSummary)
    ensures
        r.connection_id@ == c.id@,
        r.status@ == c.status@,
        r.agent_type@ == c.agent_type@,
        r.session_name@ == Seq::<char>::empty(),
        r.latest_reply@ == Seq::<char>::empty(),
        r.waiting_for is None,
        r.idle_secs == 0,
        r.last_activity_at is None,
        r.automatic_restart_count == 0,
        r.last_restart_reason is None,
{
    CodegSessionSummary {
        connection_id: c.id.clone(),
        status: c.status.clone(),
        agent_type: c.agent_type.clone(),
        session_name: empty_string(),
        latest_reply: empty_string(),
        waiting_for: None,
        idle_secs: 0,
        last_activity_at: None,
        automatic_restart_count: 0,
        last_restart_reason: None,
    }
}

/// Reads a snapshot into a summary: the live message's text, the snapshot's
/// status where it has one, and what it waits for.
pub fn apply_snapshot(summary: &mut CodegSessionSummary, snap: &CodegSnapshot)
    ensures
        final(summary).latest_reply@ == (match snap.live_message {
            Some(m) => trim_spec(join_spec(live_texts(m.content@), "\n"@)),
            None => Seq::<char>::empty(),
        }),
        final(summary).status@ == (match snap.status {
            Some(s) => s@,
            None => old(summary).status@,
        }),
        opt_string_v(final(summary).waiting_for) == waiting_label_v(*snap),
        final(summary).connection_id == old(summary).connection_id,
        final(summary).agent_type == old(summary).agent_type,
        final(summary).session_name == old(summary).session_name,
        final(summary).idle_secs == old(summary).idle_secs,
        final(summary).last_activity_at == old(summary).last_activity_at,
        final(summary).automatic_restart_count == old(summary).automatic_restart_count,
        final(summary).last_restart_reason == old(summary).last_restart_reason,
{
    summary.latest_reply = match &snap.live_message {
        Some(m) => m.text(),
        None => empty_string(),
    };
    match &snap.status {
        Some(s) => {
            summary.status = s.clone();
        },
        None => {},
    }
    summary.waiting_for = waiting_label(snap);
}

/// Conversation titles by key (external id, or the numeric id where there is
/// none): later rows replace earlier ones.
pub struct TitleMap {
    pub entries: Vec<(String, String)>,
}

/// The title stored for `k`, the first entry of that key.
pub open spec fn title_get(s: Seq<(Seq<char>, Seq<char>)>, k: Seq<char>) -> Option<Seq<char>>
    decreases s.len(),
{
    if s.len() == 0 {
        None
    } else if s[0].0 == k {
        Some(s[0].1)
    } else {
        title_get(s.drop_first(), k)
    }
}

/// The entries after storing `t` for `k` (replacing the first entry of that
/// key, or appended).
pub open spec fn title_put(s: Seq<(Seq<char>, Seq<char>)>, k: Seq<char>, t: Seq<char>) -> Seq<
    (Seq<char>, Seq<char>),
>
    decreases s.len(),
{
    if s.len() == 0 {
        seq![(k, t)]
    } else if s[0].0 == k {
        s.update(0, (k, t))
    } else {
        seq![s[0]] + title_put(s.drop_first(), k, t)
    }
}

/// The entries by view.
pub open spec fn titles_view(s: Seq<(String, String)>) -> Seq<(Seq<char>, Seq<char>)> {
    s.map_values(|e: (String, String)| (e.0@, e.1@))
}

proof fn lemma_title_found(s: Seq<(Seq<char>, Seq<char>)>, k: Seq<char>, i: int, t: Seq<char>)
    requires
        0 <= i < s.len(),
        s[i].0 == k,
        forall|j: int| 0 <= j < i ==> s[j].0 != k,
    ensures
        title_get(s, k) == Some(s[i].1),
        title_put(s, k, t) == s.update(i, (k, t)),
    decreases i,
{
    if i > 0 {
        let r = s.drop_first();
        assert forall|j: int| 0 <= j < i - 1 implies r[j].0 != k by {
            assert(r[j] == s[j + 1]);
        }
        assert(s[0].0 != k);
        lemma_title_found(r, k, i - 1, t);
        assert(seq![s[0]] + r.update(i - 1, (k, t)) =~= s.update(i, (k, t)));
    }
}

proof fn lemma_title_absent(s: Seq<(Seq<char>, Seq<char>)>, k: Seq<char>, t: Seq<char>)
    requires
        forall|j: int| 0 <= j < s.len() ==> s[j].0 != k,
    ensures
        title_get(s, k) is None,
        title_put(s, k, t) == s.push((k, t)),
    decreases s.len(),
{
    if s.len() > 0 {
        let r = s.drop_first();
        assert forall|j: int| 0 <= j < r.len() implies r[j].0 != k by {
            assert(r[j] == s[j + 1]);
        }
        assert(s[0].0 != k);
        lemma_title_absent(r, k, t);
        assert(seq![s[0]] + r.push((k, t)) =~= s.push((k, t)));
    } else {
        assert(seq![(k, t)] =~= s.push((k, t)));
    }
}

fn find_title(s: &Vec<(String, String)>, k: &str) -> (r: Option<usize>)
    ensures
        match r {
            Some(i) => i < s@.len() && s@[i as int].0@ == k@ && forall|j: int|
                0 <= j < i ==> s@[j].0@ != k@,
            None => forall|j: int| 0 <= j < s@.len() ==> s@[j].0@ != k@,
        },
{
    let mut i: usize = 0;
    while i < s.len()
        invariant
            i <= s@.len(),
            forall|j: int| 0 <= j < i ==> s@[j].0@ != k@,
        decreases s@.len() - i,
    {
        if str_eq(s[i].0.as_str(), k) {
            return Some(i);
        }
        i = i + 1;
    }
    None
}

impl TitleMap {
    /// No titles.
    pub fn new() -> (r: Self)
        ensures
            titles_view(r.entries@) == Seq::<(Seq<char>, Seq<char>)>::empty(),
    {
        let r = TitleMap { entries: Vec::new() };
        assert(titles_view(r.entries@) =~= Seq::<(Seq<char>, Seq<char>)>::empty());
        r
    }

    /// The title of `k`.
    pub fn get(&self, k: &str) -> (r: Option<&String>)
        ensures
            match r {
                Some(t) => title_get(titles_view(self.entries@), k@) == Some(t@),
                None => title_get(titles_view(self.entries@), k@) is None,
            },
    {
        let ghost tv = titles_view(self.entries@);
        match find_title(&self.entries, k) {
            Some(i) => {
                proof {
                    lemma_title_found(tv, k@, i as int, Seq::empty());
                }
                Some(&self.entries[i].1)
            },
            None => {
                proof {
                    lemma_title_absent(tv, k@, Seq::empty());
                }
                None
            },
        }
    }

    /// Stores the title of `k`.
    pub fn insert(&mut self, k: String, t: String)
        ensures
            titles_view(final(self).entries@) == title_put(titles_view(old(self).entries@), k@, t@),
    {
        let ghost tv = titles_view(self.entries@);
        let ghost kv = k@;
        let ghost t_v = t@;
        match find_title(&self.entries, k.as_str()) {
            Some(i) => {
                proof {
                    lemma_title_found(tv, kv, i as int, t_v);
                }
                self.entries.set(i, (k, t));
                assert(titles_view(self.entries@) =~= tv.update(i as int, (kv, t_v)));
            },
            None => {
                proof {
                    lemma_title_absent(tv, kv, t_v);
                }
                self.entries.push((k, t));
                assert(titles_view(self.entries@) =~= tv.push((kv, t_v)));
            },
        }
    }
}

/// A row of the conversation list.
pub struct CodegConversationTitle {
    pub id: Option<i32>,
    pub external_id: Option<String>,
    pub title: Option<String>,
    pub name: Option<String>,
    pub session_name: Option<String>,
}

/// The title of a row: title, else name, else session name, where not blank.
pub open spec fn row_title(row: CodegConversationTitle) -> Option<Seq<char>> {
    let t = match row.title {
        Some(t) => Some(t@),
        None => match row.name {
            Some(n) => Some(n@),
            None => opt_string_v(row.session_name),
        },
    };
    match t {
        Some(x) => if trim_spec(x).len() > 0 {
            Some(x)
        } else {
            None
        },
        None => None,
    }
}

/// Decimal text of an `i32`.
pub open spec fn i32_text(n: i32) -> Seq<char> {
    crate::json::i64_text(n as i64)
}

/// The titles after one row: stored under its external id, or under its id
/// where it has no (or an empty) external id.
pub open spec fn titles_step(s: Seq<(Seq<char>, Seq<char>)>, row: CodegConversationTitle) -> Seq<
    (Seq<char>, Seq<char>),
> {
    let key = match row.external_id {
        Some(k) => k@,
        None => Seq::empty(),
    };
    match row_title(row) {
        Some(t) => if key.len() > 0 {
            title_put(s, key, t)
        } else {
            match row.id {
                Some(id) => title_put(s, i32_text(id), t),
                None => s,
            }
        },
        None => s,
    }
}

/// The titles of all rows.
pub open spec fn titles_of(rows: Seq<CodegConversationTitle>) -> Seq<(Seq<char>, Seq<char>)>
    decreases rows.len(),
{
    if rows.len() == 0 {
        Seq::empty()
    } else {
        titles_step(titles_of(rows.drop_last()), rows.last())
    }
}

fn row_title_exec(row: &CodegConversationTitle) -> (r: Option<String>)
    ensures
        opt_string_v(r) == row_title(*row),
{
    let t: Option<&String> = match &row.title {
        Some(t) => Some(t),
        None => match &row.name {
            Some(n) => Some(n),
            None => match &row.session_name {
                Some(s) => Some(s),
                None => None,
            },
        },
    };
    match t {
        Some(x) => {
            if crate::text::is_blank(x.as_str()) {
                None
            } else {
                Some(x.clone())
            }
        },
        None => None,
    }
}

/// `fetch_conversation_titles` after the request: the title map of the rows.
pub fn conversation_titles(rows: &Vec<CodegConversationTitle>) -> (r: TitleMap)
    ensures
        titles_view(r.entries@) == titles_of(rows@),
{
    let mut m = TitleMap::new();
    let mut i: usize = 0;
    assert(rows@.take(0) =~= Seq::<CodegConversationTitle>::empty());
    while i < rows.len()
        invariant
            i <= rows@.len(),
            titles_view(m.entries@) == titles_of(rows@.take(i as int)),
        decreases rows@.len() - i,
    {
        assert(rows@.take(i as int + 1).drop_last() =~= rows@.take(i as int));
        let row = &rows[i];
        let key = match &row.external_id {
            Some(k) => k.clone(),
            None => empty_string(),
        };
        match row_title_exec(row) {
            Some(t) => {
                if key.unicode_len() > 0 {
                    m.insert(key, t);
                } else {
                    match row.id {
                        Some(id) => {
                            let k = crate::json::i64_to_text(id as i64);
                            m.insert(k, t);
                        },
                        None => {},
                    }
                }
            },
            None => {},
        }
        i = i + 1;
    }
    assert(rows@.take(rows@.len() as int) =~= rows@);
    m
}

/// A session's name: the title of its external id where one is stored and
/// not blank, else its agent type.
pub open spec fn session_name_v(
    titles: Seq<(Seq<char>, Seq<char>)>,
    external_id: Option<Seq<char>>,
    agent_type: Seq<char>,
) -> Seq<char> {
    match external_id {
        Some(e) => match title_get(titles, e) {
            Some(t) => if trim_spec(t).len() > 0 {
                t
            } else {
                agent_type
            },
            None => agent_type,
        },
        None => agent_type,
    }
}

/// The name of a session.
pub fn session_name(titles: &TitleMap, external_id: Option<&String>, agent_type: &str) -> (r: String)
    ensures
        r@ == session_name_v(
            titles_view(titles.entries@),
            match external_id {
                Some(e) => Some(e@),
                None => None,
            },
            agent_type@,
        ),
{
    match external_id {
        Some(e) => match titles.get(e.as_str()) {
            Some(t) => {
                if crate::text::is_blank(t.as_str()) {
                    to_owned(agent_type)
                } else {
                    t.clone()
                }
            },
            None => to_owned(agent_type),
        },
        None => to_owned(agent_type),
    }
}

// ──────── automatic recovery ────────

/// A recovery scan is due: none ran yet, or a minute has passed since the
/// last.
pub open spec fn recovery_due(last: Option<u64>, now: u64) -> bool {
    match last {
        Some(l) => now >= l && now - l >= RECOVERY_MIN_INTERVAL_MS,
        None => true,
    }
}

/// Recovery runs at most once a minute: once a scan ran at `t`, no scan is
/// due before `t` plus one minute, and one is due from then on.
pub proof fn law_recovery_once_a_minute(t: u64, later: u64)
    requires
        t <= later,
    ensures
        recovery_due(None, t),
        later - t < RECOVERY_MIN_INTERVAL_MS ==> !recovery_due(Some(t), later),
        later - t >= RECOVERY_MIN_INTERVAL_MS ==> recovery_due(Some(t), later),
{
}

/// When recovery last ran (milliseconds on the timer's monotonic clock).
pub struct RecoveryClock {
    pub last: Option<u64>,
    pub clock: crate::clock::MonoClock,
}

impl RecoveryClock {
    /// Never ran.
    pub fn new() -> (r: Self)
        ensures
            r.last is None,
    {
        RecoveryClock { last: None, clock: crate::clock::MonoClock::new() }
    }

    /// `should_run_recovery` at the current time: whatever the time, a run is
    /// due exactly as `should_run_recovery_at` says for it.
    pub fn should_run_recovery(&mut self) -> (r: bool)
        ensures
            exists|now: u64|
                {
                    &&& r == recovery_due(old(self).last, now)
                    &&& final(self).last == (if r {
                        Some(now)
                    } else {
                        old(self).last
                    })
                },
    {
        let now = self.clock.now_ms();
        self.should_run_recovery_at(now)
    }

    /// `should_run_recovery`: at most once a minute. A run is due where none
    /// ran yet or a minute has passed since the last; a due run is recorded.
    pub fn should_run_recovery_at(&mut self, now: u64) -> (r: bool)
        ensures
            r == recovery_due(old(self).last, now),
            final(self).last == (if r {
                Some(now)
            } else {
                old(self).last
            }),
    {
        let due = match self.last {
            Some(l) => now >= l && now - l >= RECOVERY_MIN_INTERVAL_MS,
            None => true,
        };
        if due {
            self.last = Some(now);
        }
        due
    }
}

/// Polls without activity, per connection.
pub struct ActivityMap {
    pub entries: Vec<(String, u64)>,
}

/// The idle count of a connection, by view.
pub open spec fn idle_get(s: Seq<(String, u64)>, k: Seq<char>) -> Option<u64>
    decreases s.len(),
{
    if s.len() == 0 {
        None
    } else if s[0].0@ == k {
        Some(s[0].1)
    } else {
        idle_get(s.drop_first(), k)
    }
}

/// The restart reason of a failed or stopped session.
pub open spec fn restart_reason_v(status: Seq<char>) -> Option<Seq<char>> {
    if status == "error"@ {
        Some("Codeg 会话进入错误状态（"@ + status + "）"@)
    } else if status == "disconnected"@ {
        Some("Codeg 会话已停止（"@ + status + "），尝试重启"@)
    } else {
        None
    }
}

impl ActivityMap {
    /// Nothing observed.
    pub fn new() -> (r: Self)
        ensures
            r.entries@ == Seq::<(String, u64)>::empty(),
    {
        ActivityMap { entries: Vec::new() }
    }

    fn find(&self, k: &str) -> (r: Option<usize>)
        ensures
            match r {
                Some(i) => i < self.entries@.len() && self.entries@[i as int].0@ == k@ && forall|j: int|
                    0 <= j < i ==> self.entries@[j].0@ != k@,
                None => forall|j: int| 0 <= j < self.entries@.len() ==> self.entries@[j].0@ != k@,
            },
    {
        let mut i: usize = 0;
        while i < self.entries.len()
            invariant
                i <= self.entries@.len(),
                forall|j: int| 0 <= j < i ==> self.entries@[j].0@ != k@,
            decreases self.entries@.len() - i,
        {
            if str_eq(self.entries[i].0.as_str(), k) {
                return Some(i);
            }
            i = i + 1;
        }
        None
    }

    /// Marks the connection active now: its idle count is 0.
    pub fn reset(&mut self, k: &str)
        ensures
            idle_get(final(self).entries@, k@) == Some(0u64),
            forall|k2: Seq<char>|
                k2 != k@ ==> #[trigger] idle_get(final(self).entries@, k2) == idle_get(
                    old(self).entries@,
                    k2,
                ),
    {
        let ghost before = self.entries@;
        match self.find(k) {
            Some(i) => {
                proof {
                    lemma_idle_found(self.entries@, k@, i as int);
                }
                self.entries.set(i, (to_owned(k), 0));
                proof {
                    lemma_idle_found(self.entries@, k@, i as int);
                    assert forall|k2: Seq<char>| k2 != k@ implies #[trigger] idle_get(
                        self.entries@,
                        k2,
                    ) == idle_get(before, k2) by {
                        lemma_idle_update_other(before, i as int, self.entries@[i as int], k2);
                    }
                }
            },
            None => {
                let ghost n = self.entries@.len();
                self.entries.push((to_owned(k), 0));
                proof {
                    lemma_idle_found(self.entries@, k@, n as int);
                    assert forall|k2: Seq<char>| k2 != k@ implies #[trigger] idle_get(
                        self.entries@,
                        k2,
                    ) == idle_get(before, k2) by {
                        lemma_idle_push_other(before, self.entries@[n as int], k2);
                    }
                }
            },
        }
    }

    /// One more poll without activity; gives the new count (starting from 0
    /// for a connection not seen before; wrapping as `u64` does).
    pub fn bump(&mut self, k: &str) -> (r: u64)
        ensures
            r == (match idle_get(old(self).entries@, k@) {
                Some(n) => if n == u64::MAX {
                    0
                } else {
                    (n + 1) as u64
                },
                None => 1,
            }),
            idle_get(final(self).entries@, k@) == Some(r),
            forall|k2: Seq<char>|
                k2 != k@ ==> #[trigger] idle_get(final(self).entries@, k2) == idle_get(
                    old(self).entries@,
                    k2,
                ),
    {
        let ghost before = self.entries@;
        match self.find(k) {
            Some(i) => {
                proof {
                    lemma_idle_found(self.entries@, k@, i as int);
                }
                let n = self.entries[i].1.wrapping_add(1);
                self.entries.set(i, (to_owned(k), n));
                proof {
                    lemma_idle_found(self.entries@, k@, i as int);
                    assert forall|k2: Seq<char>| k2 != k@ implies #[trigger] idle_get(
                        self.entries@,
                        k2,
                    ) == idle_get(before, k2) by {
                        lemma_idle_update_other(before, i as int, self.entries@[i as int], k2);
                    }
                }
                n
            },
            None => {
                proof {
                    lemma_idle_absent(self.entries@, k@);
                }
                let ghost n = self.entries@.len();
                self.entries.push((to_owned(k), 1));
                proof {
                    lemma_idle_found(self.entries@, k@, n as int);
                    assert forall|k2: Seq<char>| k2 != k@ implies #[trigger] idle_get(
                        self.entries@,
                        k2,
                    ) == idle_get(before, k2) by {
                        lemma_idle_push_other(before, self.entries@[n as int], k2);
                    }
                }
                1
            },
        }
    }
}

proof fn lemma_idle_found(s: Seq<(String, u64)>, k: Seq<char>, i: int)
    requires
        0 <= i < s.len(),
        s[i].0@ == k,
        forall|j: int| 0 <= j < i ==> s[j].0@ != k,
    ensures
        idle_get(s, k) == Some(s[i].1),
    decreases i,
{
    if i > 0 {
        let r = s.drop_first();
        assert forall|j: int| 0 <= j < i - 1 implies r[j].0@ != k by {
            assert(r[j] == s[j + 1]);
        }
        assert(s[0].0@ != k);
        lemma_idle_found(r, k, i - 1);
    }
}

proof fn lemma_idle_absent(s: Seq<(String, u64)>, k: Seq<char>)
    requires
        forall|j: int| 0 <= j < s.len() ==> s[j].0@ != k,
    ensures
        idle_get(s, k) is None,
    decreases s.len(),
{
    if s.len() > 0 {
        let r = s.drop_first();
        assert forall|j: int| 0 <= j < r.len() implies r[j].0@ != k by {
            assert(r[j] == s[j + 1]);
        }
        lemma_idle_absent(r, k);
    }
}

proof fn lemma_idle_update_other(s: Seq<(String, u64)>, i: int, e: (String, u64), k2: Seq<char>)
    requires
        0 <= i < s.len(),
        s[i].0@ != k2,
        e.0@ != k2,
    ensures
        idle_get(s.update(i, e), k2) == idle_get(s, k2),
    decreases i,
{
    let u = s.update(i, e);
    if i > 0 {
        lemma_idle_update_other(s.drop_first(), i - 1, e, k2);
        assert(u.drop_first() =~= s.drop_first().update(i - 1, e));
        assert(u[0] == s[0]);
    } else {
        assert(u.drop_first() =~= s.drop_first());
    }
}

proof fn lemma_idle_push_other(s: Seq<(String, u64)>, e: (String, u64), k2: Seq<char>)
    requires
        e.0@ != k2,
    ensures
        idle_get(s.push(e), k2) == idle_get(s, k2),
    decreases s.len(),
{
    let p = s.push(e);
    if s.len() > 0 {
        lemma_idle_push_other(s.drop_first(), e, k2);
        assert(p.drop_first() =~= s.drop_first().push(e));
        assert(p[0] == s[0]);
    } else {
        assert(p.drop_first() =~= s);
    }
}

/// The session shows activity: tokens used, or a live message.
pub open spec fn active_now_v(snap: CodegSnapshot) -> bool {
    (match snap.usage_used {
        Some(u) => u > 0,
        None => false,
    }) || snap.live_message is Some
}

/// The idle count after one more silent poll.
pub open spec fn next_idle(prev: Option<u64>) -> u64 {
    match prev {
        Some(n) => if n == u64::MAX {
            0
        } else {
            (n + 1) as u64
        },
        None => 1,
    }
}

/// Seconds of silence after `polls` silent polls.
pub open spec fn idle_secs_of(polls: u64) -> u64 {
    vstd::wrapping::u64_specs::wrapping_mul(polls, DEFAULT_POLL_SECS)
}

/// The threshold in effect: at least 10 seconds.
pub open spec fn threshold_v(inactivity_timeout_secs: u64) -> u64 {
    if inactivity_timeout_secs < MIN_INACTIVITY_SECS {
        MIN_INACTIVITY_SECS
    } else {
        inactivity_timeout_secs
    }
}

/// The reason given for restarting a stalled session.
pub open spec fn stall_reason(idle_secs: u64) -> Seq<char> {
    "活跃会话 "@ + decimal(idle_secs as nat) + " 秒无输出，触发自动停止并重启"@
}

/// The summary fields other than the idle ones are those of `b`.
pub open spec fn same_but_idle(a: CodegSessionSummary, b: CodegSessionSummary) -> bool {
    &&& a.connection_id == b.connection_id
    &&& a.status == b.status
    &&& a.agent_type == b.agent_type
    &&& a.session_name == b.session_name
    &&& a.latest_reply == b.latest_reply
    &&& a.waiting_for == b.waiting_for
    &&& a.automatic_restart_count == b.automatic_restart_count
    &&& a.last_restart_reason == b.last_restart_reason
}

/// The recovery scan's decision for one session, after its snapshot was read.
/// Only in a scan (`recovery_now`) and for a session that waits for nothing:
/// a failed or stopped session is restarted; a running one that shows
/// activity has its idle count reset; a running silent one counts one more
/// silent poll (5 seconds each), records `now_ms` as its last activity time
/// and is restarted once its silence reaches the threshold (at least 10
/// seconds). Gives the restart reason where the session is to be restarted.
pub fn plan_recovery(
    summary: &mut CodegSessionSummary,
    snap: &CodegSnapshot,
    activity: &mut ActivityMap,
    recovery_now: bool,
    inactivity_timeout_secs: u64,
    now_ms: i64,
) -> (r: Option<String>)
    ensures
        ({
            let st = old(summary).status@;
            let id = old(summary).connection_id@;
            if !(recovery_now && old(summary).waiting_for is None) {
                &&& r is None
                &&& *final(summary) == *old(summary)
                &&& final(activity).entries@ == old(activity).entries@
            } else if restart_reason_v(st) is Some {
                &&& opt_string_v(r) == restart_reason_v(st)
                &&& *final(summary) == *old(summary)
                &&& final(activity).entries@ == old(activity).entries@
            } else if !is_running_v(st) {
                &&& r is None
                &&& *final(summary) == *old(summary)
                &&& final(activity).entries@ == old(activity).entries@
            } else if active_now_v(*snap) {
                &&& r is None
                &&& same_but_idle(*final(summary), *old(summary))
                &&& final(summary).idle_secs == 0
                &&& final(summary).last_activity_at is None
                &&& idle_get(final(activity).entries@, id) == Some(0u64)
            } else {
                let polls = next_idle(idle_get(old(activity).entries@, id));
                let idle = idle_secs_of(polls);
                &&& same_but_idle(*final(summary), *old(summary))
                &&& final(summary).idle_secs == idle
                &&& final(summary).last_activity_at == Some(now_ms)
                &&& idle_get(final(activity).entries@, id) == Some(polls)
                &&& opt_string_v(r) == (if idle >= threshold_v(inactivity_timeout_secs) {
                    Some(stall_reason(idle))
                } else {
                    None
                })
            }
        }),
        forall|k2: Seq<char>|
            k2 != old(summary).connection_id@ ==> #[trigger] idle_get(final(activity).entries@, k2)
                == idle_get(old(activity).entries@, k2),
{
    if !recovery_now || summary.waiting_for.is_some() {
        return None;
    }
    if is_error(summary.status.as_str()) {
        let mut m = to_owned("Codeg 会话进入错误状态（");
        push_str(&mut m, summary.status.as_str());
        push_str(&mut m, "）");
        return Some(m);
    }
    if is_stopped(summary.status.as_str()) {
        let mut m = to_owned("Codeg 会话已停止（");
        push_str(&mut m, summary.status.as_str());
        push_str(&mut m, "），尝试重启");
        return Some(m);
    }
    if !is_running(summary.status.as_str()) {
        return None;
    }
    let used = match snap.usage_used {
        Some(u) => u,
        None => 0,
    };
    let active_now = used > 0 || snap.live_message.is_some();
    let threshold = if inactivity_timeout_secs < MIN_INACTIVITY_SECS {
        MIN_INACTIVITY_SECS
    } else {
        inactivity_timeout_secs
    };
    if active_now {
        activity.reset(summary.connection_id.as_str());
        summary.idle_secs = 0;
        summary.last_activity_at = None;
        None
    } else {
        let polls = activity.bump(summary.connection_id.as_str());
        let idle = polls.wrapping_mul(DEFAULT_POLL_SECS);
        summary.idle_secs = idle;
        summary.last_activity_at = Some(now_ms);
        if idle >= threshold {
            let mut m = to_owned("活跃会话 ");
            push_str(&mut m, crate::text::u64_to_text(idle).as_str());
            push_str(&mut m, " 秒无输出，触发自动停止并重启");
            Some(m)
        } else {
            None
        }
    }
}

/// Records the outcome of a restart. On success the session's idle count is
/// reset, its restart count goes up by one, the reason is kept and the event
/// `[id] reason` is logged; on failure the event `[id] 自动恢复失败：error`
/// is logged and nothing else changes.
pub fn record_restart(
    summary: &mut CodegSessionSummary,
    activity: &mut ActivityMap,
    reason: String,
    outcome: Result<(), String>,
    events: &mut Vec<String>,
)
    requires
        old(summary).automatic_restart_count < u64::MAX,
    ensures
        ({
            let id = old(summary).connection_id@;
            match outcome {
                Ok(_) => {
                    &&& idle_get(final(activity).entries@, id) == Some(0u64)
                    &&& forall|k2: Seq<char>|
                        k2 != id ==> #[trigger] idle_get(final(activity).entries@, k2) == idle_get(
                            old(activity).entries@,
                            k2,
                        )
                    &&& final(summary).automatic_restart_count == old(summary).automatic_restart_count
                        + 1
                    &&& opt_string_v(final(summary).last_restart_reason) == Some(reason@)
                    &&& final(summary).connection_id == old(summary).connection_id
                    &&& final(summary).status == old(summary).status
                    &&& final(summary).agent_type == old(summary).agent_type
                    &&& final(summary).session_name == old(summary).session_name
                    &&& final(summary).latest_reply == old(summary).latest_reply
                    &&& final(summary).waiting_for == old(summary).waiting_for
                    &&& final(summary).idle_secs == old(summary).idle_secs
                    &&& final(summary).last_activity_at == old(summary).last_activity_at
                    &&& final(events)@.map_values(|e: String| e@) == old(events)@.map_values(
                        |e: String| e@,
                    ).push("["@ + id + "] "@ + reason@)
                },
                Err(e) => {
                    &&& *final(summary) == *old(summary)
                    &&& final(activity).entries@ == old(activity).entries@
                    &&& final(events)@.map_values(|e: String| e@) == old(events)@.map_values(
                        |e: String| e@,
                    ).push("["@ + id + "] 自动恢复失败："@ + e@)
                },
            }
        }),
{
    let mut ev = to_owned("[");
    push_str(&mut ev, summary.connection_id.as_str());
    match outcome {
        Ok(_) => {
            activity.reset(summary.connection_id.as_str());
            summary.automatic_restart_count = summary.automatic_restart_count + 1;
            push_str(&mut ev, "] ");
            push_str(&mut ev, reason.as_str());
            summary.last_restart_reason = Some(reason);
        },
        Err(e) => {
            push_str(&mut ev, "] 自动恢复失败：");
            push_str(&mut ev, e.as_str());
        },
    }
    let ghost before = events@;
    let ghost evv = ev@;
    events.push(ev);
    assert(events@.map_values(|e: String| e@) =~= before.map_values(|e: String| e@).push(evv));
}

/// `codeg_status`'s checks before any call: the row must be on and the
/// server configured.
pub fn codeg_precheck(cfg: &CodegConfig) -> (r: Result<(), String>)
    ensures
        match r {
            Ok(_) => cfg.enabled && cfg@.configured(),
            Err(e) => if !cfg.enabled {
                e@ == "Codeg 行显示已关闭"@
            } else {
                !cfg@.configured() && e@ == "Codeg 服务器地址或 Token 未配置"@
            },
        },
{
    if !cfg.enabled {
        return Err(to_owned("Codeg 行显示已关闭"));
    }
    if !cfg.configured() {
        return Err(to_owned("Codeg 服务器地址或 Token 未配置"));
    }
    Ok(())
}

/// The name shown for a session: its session name, or its agent type where
/// that is empty.
pub open spec fn display_name(s: CodegSessionSummary) -> Seq<char> {
    if s.session_name@.len() == 0 {
        s.agent_type@
    } else {
        s.session_name@
    }
}

/// How many sessions satisfy `p`.
pub open spec fn count_where(s: Seq<CodegSessionSummary>, p: spec_fn(CodegSessionSummary) -> bool) -> nat
    decreases s.len(),
{
    if s.len() == 0 {
        0
    } else {
        count_where(s.drop_last(), p) + if p(s.last()) {
            1nat
        } else {
            0nat
        }
    }
}

/// `i` is the first session that satisfies `p`.
pub open spec fn first_where(s: Seq<CodegSessionSummary>, p: spec_fn(CodegSessionSummary) -> bool, i: int) -> bool {
    0 <= i < s.len() && p(s[i]) && forall|j: int| 0 <= j < i ==> !p(#[trigger] s[j])
}

/// The running test of a summary.
pub open spec fn running_p() -> spec_fn(CodegSessionSummary) -> bool {
    |x: CodegSessionSummary| is_running_v(x.status@)
}

/// The stopped test of a summary.
pub open spec fn stopped_p() -> spec_fn(CodegSessionSummary) -> bool {
    |x: CodegSessionSummary| x.status@ == "disconnected"@
}

/// The error test of a summary.
pub open spec fn error_p() -> spec_fn(CodegSessionSummary) -> bool {
    |x: CodegSessionSummary| x.status@ == "error"@
}

/// The waiting test of a summary.
pub open spec fn waiting_p() -> spec_fn(CodegSessionSummary) -> bool {
    |x: CodegSessionSummary| x.waiting_for is Some
}

/// The active session's name: the first running session, else the first
/// waiting one; `(无活跃会话)` where there is neither.
pub open spec fn active_name_v(s: Seq<CodegSessionSummary>) -> Seq<char> {
    if exists|i: int| first_where(s, running_p(), i) {
        display_name(s[choose|i: int| first_where(s, running_p(), i)])
    } else if exists|i: int| first_where(s, waiting_p(), i) {
        display_name(s[choose|i: int| first_where(s, waiting_p(), i)])
    } else {
        "(无活跃会话)"@
    }
}

/// The counts of the status line.
pub struct CodegCounts {
    pub session_count: u64,
    pub running_count: u64,
    pub stopped_count: u64,
    pub error_count: u64,
    pub waiting_input_count: u64,
    pub active_session_name: Option<String>,
}

proof fn lemma_first_unique(s: Seq<CodegSessionSummary>, p: spec_fn(CodegSessionSummary) -> bool, i: int)
    requires
        first_where(s, p, i),
    ensures
        (choose|j: int| first_where(s, p, j)) == i,
{
    let c = choose|j: int| first_where(s, p, j);
    assert(first_where(s, p, c));
    if c < i {
        assert(!p(s[c]));
    }
    if i < c {
        assert(!p(s[i]));
    }
}

proof fn lemma_count_bound(s: Seq<CodegSessionSummary>, p: spec_fn(CodegSessionSummary) -> bool)
    ensures
        count_where(s, p) <= s.len(),
    decreases s.len(),
{
    if s.len() > 0 {
        lemma_count_bound(s.drop_last(), p);
    }
}

fn find_first_running(s: &Vec<CodegSessionSummary>) -> (r: Option<usize>)
    ensures
        match r {
            Some(i) => first_where(s@, running_p(), i as int),
            None => forall|j: int| 0 <= j < s@.len() ==> !(running_p())(#[trigger] s@[j]),
        },
{
    let mut i: usize = 0;
    while i < s.len()
        invariant
            i <= s@.len(),
            forall|j: int| 0 <= j < i ==> !(running_p())(#[trigger] s@[j]),
        decreases s@.len() - i,
    {
        if is_running(s[i].status.as_str()) {
            return Some(i);
        }
        i = i + 1;
    }
    None
}

fn find_first_waiting(s: &Vec<CodegSessionSummary>) -> (r: Option<usize>)
    ensures
        match r {
            Some(i) => first_where(s@, waiting_p(), i as int),
            None => forall|j: int| 0 <= j < s@.len() ==> !(waiting_p())(#[trigger] s@[j]),
        },
{
    let mut i: usize = 0;
    while i < s.len()
        invariant
            i <= s@.len(),
            forall|j: int| 0 <= j < i ==> !(waiting_p())(#[trigger] s@[j]),
        decreases s@.len() - i,
    {
        if s[i].waiting_for.is_some() {
            return Some(i);
        }
        i = i + 1;
    }
    None
}

fn display_name_exec(s: &CodegSessionSummary) -> (r: String)
    ensures
        r@ == display_name(*s),
{
    if s.session_name.unicode_len() == 0 {
        s.agent_type.clone()
    } else {
        s.session_name.clone()
    }
}

/// `codeg_status`'s counts over the session summaries: sessions, running,
/// stopped, failed and waiting ones, and the active session's name.
pub fn session_counts(summaries: &Vec<CodegSessionSummary>) -> (r: CodegCounts)
    ensures
        r.session_count == summaries@.len(),
        r.running_count == count_where(summaries@, running_p()),
        r.stopped_count == count_where(summaries@, stopped_p()),
        r.error_count == count_where(summaries@, error_p()),
        r.waiting_input_count == count_where(summaries@, waiting_p()),
        opt_string_v(r.active_session_name) == Some(active_name_v(summaries@)),
{
    let ghost sv = summaries@;
    let mut running: u64 = 0;
    let mut stopped: u64 = 0;
    let mut failed: u64 = 0;
    let mut waiting: u64 = 0;
    let mut i: usize = 0;
    assert(sv.take(0) =~= Seq::<CodegSessionSummary>::empty());
    while i < summaries.len()
        invariant
            i <= sv.len(),
            sv == summaries@,
            running == count_where(sv.take(i as int), running_p()),
            stopped == count_where(sv.take(i as int), stopped_p()),
            failed == count_where(sv.take(i as int), error_p()),
            waiting == count_where(sv.take(i as int), waiting_p()),
            running <= i && stopped <= i && failed <= i && waiting <= i,
        decreases sv.len() - i,
    {
        let ghost t = sv.take(i as int + 1);
        assert(t.drop_last() =~= sv.take(i as int));
        assert(t.last() == sv[i as int]);
        proof {
            lemma_count_bound(sv.take(i as int), running_p());
        }
        let st = summaries[i].status.as_str();
        if is_running(st) {
            running = running + 1;
        }
        if is_stopped(st) {
            stopped = stopped + 1;
        }
        if is_error(st) {
            failed = failed + 1;
        }
        if summaries[i].waiting_for.is_some() {
            waiting = waiting + 1;
        }
        i = i + 1;
    }
    assert(sv.take(sv.len() as int) =~= sv);
    let name = match find_first_running(summaries) {
        Some(k) => {
            proof {
                lemma_first_unique(sv, running_p(), k as int);
            }
            display_name_exec(&summaries[k])
        },
        None => match find_first_waiting(summaries) {
            Some(k) => {
                proof {
                    lemma_first_unique(sv, waiting_p(), k as int);
                }
                display_name_exec(&summaries[k])
            },
            None => to_owned("(无活跃会话)"),
        },
    };
    CodegCounts {
        session_count: summaries.len() as u64,
        running_count: running,
        stopped_count: stopped,
        error_count: failed,
        waiting_input_count: waiting,
        active_session_name: Some(name),
    }
}

} // verus!
