//! The decisions the three proxy endpoints make around the upstream call:
//! which payload goes upstream, when a request is refused before it is sent,
//! when an upstream attempt is retried, what error bodies say, and which
//! token counts a finished request reports.
use vstd::prelude::*;

use crate::convert::{
    anthropic_to_chat_payload, anthropic_to_chat_payload_v, anthropic_to_responses_payload,
    anthropic_to_responses_payload_v, apply_override, chat_to_anthropic_payload,
    chat_to_anthropic_payload_v, chat_to_responses_payload, chat_to_responses_payload_v,
    responses_to_anthropic_payload, responses_to_anthropic_payload_v, responses_to_chat_payload,
    responses_to_chat_payload_v,
};
use crate::json::{empty_obj, ref_view, Json, JsonV};
use crate::proxy::{ChannelConfig, UpstreamFormat};
use crate::respond::{counts_of, path2, u64_or_zero, u64_or_zero_exec};
use crate::stats::TokenCounts;
use crate::stream::ceil3;
use crate::text::{push_str, str_eq, to_owned, trim, trim_spec};

verus! {

/// The client API of a request.
#[derive(Clone, Copy, Debug, PartialEq, Eq, Structural)]
pub enum ClientApi {
    ChatCompletions,
    Responses,
    Anthropic,
}

/// What goes upstream for one request.
pub struct RequestPlan {
    /// The request body sent upstream.
    pub payload: Json,
    /// The client asked for a stream.
    pub stream: bool,
    /// The model named in the payload (empty where there is none).
    pub model: String,
}

/// `stream` of a request body, false where missing.
pub open spec fn wants_stream(body: JsonV) -> bool {
    match body.get("stream"@) {
        Some(JsonV::Bool(b)) => b,
        _ => false,
    }
}

/// The payload of a request passed on in its own format: the body with the
/// model forced to the override where one is set.
pub open spec fn passthrough_payload(body: JsonV, model_override: Seq<char>) -> JsonV {
    apply_override(body, model_override)
}

/// The payload sent upstream for a request of the client API to a channel.
pub open spec fn plan_payload(api: ClientApi, body: JsonV, ch: ChannelConfig) -> JsonV {
    let st = wants_stream(body);
    let ov = ch.model_override@;
    match api {
        ClientApi::ChatCompletions => match ch.upstream_format {
            UpstreamFormat::Responses => chat_to_responses_payload_v(body, st, ov),
            UpstreamFormat::Anthropic => chat_to_anthropic_payload_v(body, st, ov),
            UpstreamFormat::ChatCompletions => passthrough_payload(body, ov),
        },
        ClientApi::Responses => {
            let b = passthrough_payload(body, ov);
            match ch.upstream_format {
                UpstreamFormat::Responses => b,
                UpstreamFormat::ChatCompletions => responses_to_chat_payload_v(b, st, ov),
                UpstreamFormat::Anthropic => responses_to_anthropic_payload_v(b, st, ov),
            }
        },
        ClientApi::Anthropic => match ch.upstream_format {
            UpstreamFormat::Responses => anthropic_to_responses_payload_v(body, st, ov),
            UpstreamFormat::ChatCompletions => anthropic_to_chat_payload_v(body, st, ov),
            UpstreamFormat::Anthropic => passthrough_payload(body, ov),
        },
    }
}

/// Whether a plan's body must be an object: the body is written to where a
/// model override applies to it.
pub open spec fn body_written(api: ClientApi, ch: ChannelConfig) -> bool {
    ch.model_override@.len() > 0 && match api {
        ClientApi::ChatCompletions => ch.upstream_format == UpstreamFormat::ChatCompletions,
        ClientApi::Responses => true,
        ClientApi::Anthropic => ch.upstream_format == UpstreamFormat::Anthropic,
    }
}

/// Whether the model override is written into the client's body itself
/// (so the body must be a JSON object).
pub fn writes_model_into_body(api: ClientApi, ch: &ChannelConfig) -> (r: bool)
    ensures
        r == body_written(api, *ch),
{
    ch.model_override.unicode_len() > 0 && match api {
        ClientApi::ChatCompletions => ch.upstream_format == UpstreamFormat::ChatCompletions,
        ClientApi::Responses => true,
        ClientApi::Anthropic => ch.upstream_format == UpstreamFormat::Anthropic,
    }
}

/// The body with the model forced to the override where one is set.
fn override_body(body: &Json, model_override: &str) -> (r: Json)
    requires
        model_override@.len() > 0 ==> (body@ is Object || body@ is Null),
    ensures
        r@ == passthrough_payload(body@, model_override@),
{
    let mut b = body.copy();
    if model_override.unicode_len() > 0 {
        b.set("model", Json::string(model_override));
    }
    b
}

/// The payload, stream flag and model of a request to a channel (the part of
/// `chat_completions`, `responses_api` and `anthropic_messages` before the
/// upstream call).
pub fn plan_request(api: ClientApi, body: &Json, ch: &ChannelConfig) -> (r: RequestPlan)
    requires
        body_written(api, *ch) ==> (body@ is Object || body@ is Null),
    ensures
        r.payload@ == plan_payload(api, body@, *ch),
        r.stream == wants_stream(body@),
        r.model@ == plan_payload(api, body@, *ch).str_or("model"@, ""@),
{
    let stream = match body.get("stream") {
        Some(s) => match s.as_bool() {
            Some(b) => b,
            None => false,
        },
        None => false,
    };
    proof {
        match body@.get("stream"@) {
            Some(JsonV::Bool(b)) => {},
            _ => {},
        }
    }
    let ov = ch.model_override.as_str();
    let payload = match api {
        ClientApi::ChatCompletions => match ch.upstream_format {
            UpstreamFormat::Responses => chat_to_responses_payload(body, stream, ov),
            UpstreamFormat::Anthropic => chat_to_anthropic_payload(body, stream, ov),
            UpstreamFormat::ChatCompletions => override_body(body, ov),
        },
        ClientApi::Responses => {
            let b = override_body(body, ov);
            match ch.upstream_format {
                UpstreamFormat::Responses => b,
                UpstreamFormat::ChatCompletions => responses_to_chat_payload(&b, stream, ov),
                UpstreamFormat::Anthropic => responses_to_anthropic_payload(&b, stream, ov),
            }
        },
        ClientApi::Anthropic => match ch.upstream_format {
            UpstreamFormat::Responses => anthropic_to_responses_payload(body, stream, ov),
            UpstreamFormat::ChatCompletions => anthropic_to_chat_payload(body, stream, ov),
            UpstreamFormat::Anthropic => override_body(body, ov),
        },
    };
    let model = to_owned(payload.str_or("model", ""));
    RequestPlan { payload, stream, model }
}

/// How the upstream response is turned into the client's format.
#[derive(Clone, Copy, Debug, PartialEq, Eq, Structural)]
pub enum ReplyPath {
    /// Upstream speaks the client's format: passed on.
    Same,
    /// Upstream Responses, client Chat Completions.
    ResponsesToChat,
    /// Upstream Responses, client Anthropic.
    ResponsesToAnthropic,
    /// Upstream Chat Completions, client Responses.
    ChatToResponses,
    /// Upstream Chat Completions, client Anthropic.
    ChatToAnthropic,
    /// Upstream Anthropic, client Responses.
    AnthropicToResponses,
    /// Upstream Anthropic, client Chat Completions.
    AnthropicToChat,
}

/// The reply path of a client API and an upstream format.
pub open spec fn reply_path_v(api: ClientApi, f: UpstreamFormat) -> ReplyPath {
    match (api, f) {
        (ClientApi::ChatCompletions, UpstreamFormat::Responses) => ReplyPath::ResponsesToChat,
        (ClientApi::ChatCompletions, UpstreamFormat::Anthropic) => ReplyPath::AnthropicToChat,
        (ClientApi::Responses, UpstreamFormat::ChatCompletions) => ReplyPath::ChatToResponses,
        (ClientApi::Responses, UpstreamFormat::Anthropic) => ReplyPath::AnthropicToResponses,
        (ClientApi::Anthropic, UpstreamFormat::Responses) => ReplyPath::ResponsesToAnthropic,
        (ClientApi::Anthropic, UpstreamFormat::ChatCompletions) => ReplyPath::ChatToAnthropic,
        _ => ReplyPath::Same,
    }
}

/// The reply path of a request.
pub fn reply_path(api: ClientApi, f: UpstreamFormat) -> (r: ReplyPath)
    ensures
        r == reply_path_v(api, f),
{
    match (api, f) {
        (ClientApi::ChatCompletions, UpstreamFormat::Responses) => ReplyPath::ResponsesToChat,
        (ClientApi::ChatCompletions, UpstreamFormat::Anthropic) => ReplyPath::AnthropicToChat,
        (ClientApi::Responses, UpstreamFormat::ChatCompletions) => ReplyPath::ChatToResponses,
        (ClientApi::Responses, UpstreamFormat::Anthropic) => ReplyPath::AnthropicToResponses,
        (ClientApi::Anthropic, UpstreamFormat::Responses) => ReplyPath::ResponsesToAnthropic,
        (ClientApi::Anthropic, UpstreamFormat::ChatCompletions) => ReplyPath::ChatToAnthropic,
        _ => ReplyPath::Same,
    }
}

/// Whether the upstream stream is read only up to a `[DONE]` marker: Chat
/// Completions streams and converted Responses streams are; Anthropic
/// streams, and Responses streams passed on as they are, are read to their
/// end.
pub open spec fn ends_at_done_v(api: ClientApi, f: UpstreamFormat) -> bool {
    match f {
        UpstreamFormat::ChatCompletions => true,
        UpstreamFormat::Responses => api != ClientApi::Responses,
        UpstreamFormat::Anthropic => false,
    }
}

/// Whether the upstream stream of a request ends at a `[DONE]` marker.
pub fn stream_ends_at_done(api: ClientApi, f: UpstreamFormat) -> (r: bool)
    ensures
        r == ends_at_done_v(api, f),
{
    match f {
        UpstreamFormat::ChatCompletions => true,
        UpstreamFormat::Responses => match api {
            ClientApi::Responses => false,
            _ => true,
        },
        UpstreamFormat::Anthropic => false,
    }
}

// ──────── error bodies ────────

/// `{"error": {"message": message, "type": kind}}`.
pub open spec fn error_body_v(message: Seq<char>, kind: Seq<char>) -> JsonV {
    empty_obj().set(
        "error"@,
        empty_obj().set("message"@, JsonV::Str(message)).set("type"@, JsonV::Str(kind)),
    )
}

/// An error body.
pub fn error_body(message: &str, kind: &str) -> (r: Json)
    ensures
        r@ == error_body_v(message@, kind@),
{
    let mut e = Json::object();
    e.set("message", Json::string(message));
    e.set("type", Json::string(kind));
    let mut o = Json::object();
    o.set("error", e);
    o
}

/// A refused request: an HTTP status and a JSON body.
pub struct Refusal {
    pub status: u16,
    pub body: Json,
}

/// `too_many_requests`: 429 with a `concurrency_limit_exceeded` error.
pub fn too_many_requests(message: &str) -> (r: Refusal)
    ensures
        r.status == 429,
        r.body@ == error_body_v(message@, "concurrency_limit_exceeded"@),
{
    Refusal { status: 429, body: error_body(message, "concurrency_limit_exceeded") }
}

/// The message when the global gate stayed full: it names the configured
/// limit.
pub open spec fn gate_full_message(max: usize) -> Seq<char> {
    "并发请求已达上限（"@ + crate::text::decimal(max as nat) + "），排队等待 2 分钟仍未获取到槽位，请稍后重试"@
}

/// The refusal when no global slot came free in time (no scheduler yet).
pub fn gate_full_refusal(max: usize) -> (r: Refusal)
    ensures
        r.status == 429,
        r.body@ == error_body_v(gate_full_message(max), "concurrency_limit_exceeded"@),
{
    let mut m = to_owned("并发请求已达上限（");
    push_str(&mut m, crate::text::u64_to_text(max as u64).as_str());
    push_str(&mut m, "），排队等待 2 分钟仍未获取到槽位，请稍后重试");
    too_many_requests(m.as_str())
}

/// The refusal when every channel stayed full.
pub fn channels_full_refusal() -> (r: Refusal)
    ensures
        r.status == 429,
        r.body@ == error_body_v(
            "所有渠道并发均已占满，排队等待 2 分钟仍未获取到槽位，请稍后重试"@,
            "concurrency_limit_exceeded"@,
        ),
{
    too_many_requests("所有渠道并发均已占满，排队等待 2 分钟仍未获取到槽位，请稍后重试")
}

/// The refusal when every channel is disabled: 503 `no_enabled_channel`.
pub fn no_enabled_channel_refusal() -> (r: Refusal)
    ensures
        r.status == 503,
        r.body@ == error_body_v(
            "所有渠道均已禁用：请在设置中至少开启一个渠道参与调度"@,
            "no_enabled_channel"@,
        ),
{
    Refusal {
        status: 503,
        body: error_body("所有渠道均已禁用：请在设置中至少开启一个渠道参与调度", "no_enabled_channel"),
    }
}

/// The key and address used upstream, trimmed.
pub struct Target {
    pub api_key: String,
    pub url: String,
}

/// `send_upstream`'s check before any request: a channel with a blank key or
/// a blank address is refused with 400 `proxy_config_error`; otherwise the
/// trimmed key and address are used.
pub fn upstream_target(ch: &ChannelConfig) -> (r: Result<Target, Refusal>)
    ensures
        match r {
            Ok(t) => t.api_key@ == trim_spec(ch.api_key@) && t.url@ == trim_spec(ch.upstream_url@)
                && t.api_key@.len() > 0 && t.url@.len() > 0,
            Err(e) => e.status == 400 && (if trim_spec(ch.api_key@).len() == 0 {
                e.body@ == error_body_v(
                    "渠道 API Key 未配置：请在设置面板的该渠道中填写"@,
                    "proxy_config_error"@,
                )
            } else {
                trim_spec(ch.upstream_url@).len() == 0 && e.body@ == error_body_v(
                    "渠道转发目标地址未配置：请在设置面板的该渠道中填写"@,
                    "proxy_config_error"@,
                )
            }),
        },
{
    let key = trim(ch.api_key.as_str());
    let url = trim(ch.upstream_url.as_str());
    if key.unicode_len() == 0 {
        return Err(
            Refusal {
                status: 400,
                body: error_body("渠道 API Key 未配置：请在设置面板的该渠道中填写", "proxy_config_error"),
            },
        );
    }
    if url.unicode_len() == 0 {
        return Err(
            Refusal {
                status: 400,
                body: error_body(
                    "渠道转发目标地址未配置：请在设置面板的该渠道中填写",
                    "proxy_config_error",
                ),
            },
        );
    }
    Ok(Target { api_key: to_owned(key), url: to_owned(url) })
}

/// Attempts made upstream before giving up.
pub const MAX_RETRIES: usize = 3;

/// How one upstream attempt ended.
pub enum Attempt {
    /// A response with this status.
    Status(u16),
    /// No response (connection or protocol failure).
    Failed,
}

/// What to do after an attempt.
#[derive(Clone, Copy, Debug, PartialEq, Eq, Structural)]
pub enum NextStep {
    /// Hand the response on.
    Deliver,
    /// Wait this many milliseconds and try again.
    Retry(u64),
    /// Stop: no response to hand on.
    GiveUp,
}

/// After attempt `attempt` (from 0): a server error (5xx) or a failure is
/// retried after `1000 * (attempt + 1)` ms while attempts remain; a response
/// on the last attempt is handed on whatever its status; a failure on the
/// last attempt gives up.
pub open spec fn next_step_v(attempt: usize, outcome: Attempt) -> NextStep {
    let last = attempt + 1 >= MAX_RETRIES;
    match outcome {
        Attempt::Status(s) => if 500 <= s <= 599 && !last {
            NextStep::Retry((1000 * (attempt + 1)) as u64)
        } else {
            NextStep::Deliver
        },
        Attempt::Failed => if !last {
            NextStep::Retry((1000 * (attempt + 1)) as u64)
        } else {
            NextStep::GiveUp
        },
    }
}

/// The retry rule of `send_upstream`.
pub fn next_step(attempt: usize, outcome: Attempt) -> (r: NextStep)
    requires
        attempt < MAX_RETRIES,
    ensures
        r == next_step_v(attempt, outcome),
{
    let last = attempt + 1 >= MAX_RETRIES;
    let delay: u64 = 1000 * (attempt as u64 + 1);
    match outcome {
        Attempt::Status(s) => {
            if 500 <= s && s <= 599 && !last {
                NextStep::Retry(delay)
            } else {
                NextStep::Deliver
            }
        },
        Attempt::Failed => {
            if !last {
                NextStep::Retry(delay)
            } else {
                NextStep::GiveUp
            }
        },
    }
}

/// No more than three attempts are made: the last attempt never asks for
/// another, and a response that is not a server error is handed on at once.
pub proof fn law_retries_are_bounded(attempt: usize, outcome: Attempt)
    requires
        attempt < MAX_RETRIES,
    ensures
        attempt + 1 == MAX_RETRIES ==> !(next_step_v(attempt, outcome) is Retry),
        (outcome matches Attempt::Status(s) && !(500 <= s && s <= 599)) ==> next_step_v(attempt, outcome)
            == NextStep::Deliver,
        next_step_v(attempt, outcome) is GiveUp ==> outcome is Failed && attempt + 1 == MAX_RETRIES,
{
}

/// The refusal after giving up: 502 with the last failure's text.
pub open spec fn gave_up_message(last_error: Seq<char>) -> Seq<char> {
    "上游网关错误（已重试 3 次）："@ + last_error
}

/// `send_upstream`'s error once every attempt failed.
pub fn gave_up_refusal(last_error: &str) -> (r: Refusal)
    ensures
        r.status == 502,
        r.body@ == error_body_v(gave_up_message(last_error@), "upstream_error"@),
{
    let mut m = to_owned("上游网关错误（已重试 3 次）：");
    push_str(&mut m, last_error);
    Refusal { status: 502, body: error_body(m.as_str(), "upstream_error") }
}

/// The reply to an upstream error: its status is passed on (502
/// where it is no valid status), the body quoted in an `upstream_error`.
pub fn upstream_error_reply(status: u16, body: &str) -> (r: Refusal)
    ensures
        r.status == (if 100 <= status <= 999 {
            status
        } else {
            502
        }),
        r.body@ == error_body_v("上游错误："@ + body@, "upstream_error"@),
{
    let mut m = to_owned("上游错误：");
    push_str(&mut m, body);
    let s = if 100 <= status && status <= 999 {
        status
    } else {
        502
    };
    Refusal { status: s, body: error_body(m.as_str(), "upstream_error") }
}

/// The client's user agent, or the proxy's own where it sent none.
pub fn request_user_agent(header: Option<&str>) -> (r: String)
    ensures
        r@ == (match header {
            Some(h) => h@,
            None => "trae-proxy/1.0"@,
        }),
{
    match header {
        Some(h) => to_owned(h),
        None => to_owned("trae-proxy/1.0"),
    }
}

// ──────── token counts of non-streaming replies ────────

/// Whether a reply body is a JSON object rather than an event stream: it
/// starts, after white space, with `{`.
pub open spec fn looks_like_json_v(body: Seq<char>) -> bool {
    let t = crate::text::trim_start_spec(body);
    t.len() > 0 && t[0] == '{'
}

/// Whether a reply body is JSON (else it is read as an event stream).
pub fn looks_like_json(body: &str) -> (r: bool)
    ensures
        r == looks_like_json_v(body@),
{
    let t = crate::text::trim_start(body);
    t.unicode_len() > 0 && t.get_char(0) == '{'
}

/// Usage of a non-streaming Responses reply to the Responses API: output
/// tokens where given, else estimated from the output text.
pub open spec fn responses_reply_usage_v(v: JsonV) -> TokenCounts {
    let u = v.get("usage"@);
    let out = match crate::json::opt_u64(crate::json::opt_get(u, "output_tokens"@)) {
        Some(n) => n,
        None => ceil3(crate::respond::estimate_response_output_chars_v(v)),
    };
    let base = counts_of(crate::respond::responses_usage_v(u));
    TokenCounts { output: out, ..base }
}

/// Usage of a non-streaming Responses reply to the Responses API.
pub fn responses_reply_usage(v: &Json) -> (r: TokenCounts)
    ensures
        r == responses_reply_usage_v(v@),
{
    let u = v.get("usage");
    let base = crate::respond::responses_usage(u);
    let given = match u {
        Some(x) => match x.get("output_tokens") {
            Some(o) => o.as_u64(),
            None => None,
        },
        None => None,
    };
    let out = match given {
        Some(n) => n,
        None => crate::stream::div_ceil3(crate::respond::estimate_response_output_chars(v)),
    };
    TokenCounts { input: base.input, output: out, cached: base.cached }
}

/// Usage of a non-streaming Chat reply relayed as Anthropic: prompt and
/// completion tokens, no cached count.
pub open spec fn chat_reply_uncached_v(v: JsonV) -> TokenCounts {
    let t = crate::respond::chat_usage_v(v.get("usage"@));
    TokenCounts { input: t.0, output: t.1, cached: 0 }
}

/// Usage of a non-streaming Chat reply relayed as Anthropic.
pub fn chat_reply_uncached(v: &Json) -> (r: TokenCounts)
    ensures
        r == chat_reply_uncached_v(v@),
{
    let t = crate::respond::chat_usage(v.get("usage"));
    TokenCounts { input: t.input, output: t.output, cached: 0 }
}

// ──────── non-streamed replies ────────

/// What a non-streamed upstream reply becomes for the client, with the
/// usage counted for the request and the next request id. `full` is the
/// reply's text, `parsed` that text read as JSON (an empty object where it
/// is not JSON) and `events` the data events of the text read as an event
/// stream, up to its end marker.
/// - Responses upstream, Chat client: a JSON reply is converted, with its
///   `usage`; an event stream is aggregated into one completion, usage as
///   reported at the end of a request.
/// - Responses upstream, Anthropic client: the event stream aggregated, then
///   written as an Anthropic message carrying that usage.
/// - Chat or Anthropic upstream, another client: the JSON reply converted,
///   with the usage that upstream's format gives (cached tokens dropped for
///   a Chat reply sent to an Anthropic client).
/// - Same format: a Chat reply is passed on as its text (`None`) with its
///   `usage`; Responses and Anthropic replies are passed on as parsed.
pub open spec fn reply_v(
    api: ClientApi,
    path: ReplyPath,
    full: Seq<char>,
    parsed: JsonV,
    events: Seq<JsonV>,
    model: Seq<char>,
    id: u64,
) -> (Option<JsonV>, TokenCounts, u64) {
    let usage = parsed.get("usage"@);
    match path {
        ReplyPath::ResponsesToChat => if looks_like_json_v(full) {
            (
                Some(crate::respond::responses_to_chat_json_v(parsed, model, id)),
                counts_of(crate::respond::responses_usage_v(usage)),
                crate::stream::next_id(id),
            )
        } else {
            let (cc, chars, u, n) = crate::stream::responses_aggregate(events, model, id);
            (Some(cc), crate::stream::final_counts(u, chars), n)
        },
        ReplyPath::ResponsesToAnthropic => {
            let (cc, chars, u, n) = crate::stream::responses_aggregate(events, model, id);
            let tc = crate::stream::final_counts(u, chars);
            (
                Some(
                    crate::respond::anthropic_message_v(
                        cc,
                        crate::respond::io_usage(tc.input, tc.output),
                        n,
                    ),
                ),
                tc,
                crate::stream::next_id(n),
            )
        },
        ReplyPath::AnthropicToChat => (
            Some(crate::respond::anthropic_json_to_chat_v(parsed, id)),
            counts_of(crate::respond::anthropic_usage_v(usage)),
            crate::stream::next_id(id),
        ),
        ReplyPath::ChatToResponses => (
            Some(crate::respond::chat_json_to_responses_v(parsed, model, id)),
            counts_of(crate::respond::chat_usage_v(usage)),
            crate::stream::next_id(id),
        ),
        ReplyPath::AnthropicToResponses => (
            Some(crate::respond::anthropic_json_to_responses_v(parsed, model, id)),
            counts_of(crate::respond::anthropic_usage_v(usage)),
            crate::stream::next_id(id),
        ),
        ReplyPath::ChatToAnthropic => (
            Some(crate::respond::chat_json_to_anthropic_v(parsed, id)),
            chat_reply_uncached_v(parsed),
            crate::stream::next_id(id),
        ),
        ReplyPath::Same => match api {
            ClientApi::ChatCompletions => (None, counts_of(crate::respond::chat_usage_v(usage)), id),
            ClientApi::Responses => (Some(parsed), responses_reply_usage_v(parsed), id),
            ClientApi::Anthropic => (
                Some(parsed),
                counts_of(crate::respond::anthropic_usage_v(usage)),
                id,
            ),
        },
    }
}

/// A non-streamed upstream reply for the client (`None`: pass the reply's
/// text on as it is) and the usage counted for the request.
pub fn reply_for(
    api: ClientApi,
    path: ReplyPath,
    full: &str,
    parsed: &Json,
    events: &Vec<Json>,
    model: &str,
    ids: &mut crate::respond::RequestIds,
) -> (r: (Option<Json>, TokenCounts))
    ensures
        ({
            let (j, tc, n) = reply_v(
                api,
                path,
                full@,
                parsed@,
                events@.map_values(|e: Json| e@),
                model@,
                old(ids).next,
            );
            &&& match r.0 {
                Some(x) => j == Some(x@),
                None => j is None,
            }
            &&& r.1 == tc
            &&& final(ids).next == n
        }),
{
    match path {
        ReplyPath::ResponsesToChat => if looks_like_json(full) {
            let tc = crate::respond::responses_usage(parsed.get("usage"));
            (Some(crate::respond::responses_to_chat_json(parsed, model, ids)), tc)
        } else {
            let (cc, chars, u) = crate::stream::aggregate_chat_completion(events, model, ids);
            (Some(cc), crate::stream::final_token_counts(&u, chars))
        },
        ReplyPath::ResponsesToAnthropic => {
            let (cc, chars, u) = crate::stream::aggregate_chat_completion(events, model, ids);
            let tc = crate::stream::final_token_counts(&u, chars);
            let m = crate::respond::chat_completion_to_anthropic(&cc, &tc, ids);
            (Some(m), tc)
        },
        ReplyPath::AnthropicToChat => {
            let tc = crate::respond::anthropic_usage(parsed.get("usage"));
            (Some(crate::respond::anthropic_json_to_chat(parsed, ids)), tc)
        },
        ReplyPath::ChatToResponses => {
            let tc = crate::respond::chat_usage(parsed.get("usage"));
            (Some(crate::respond::chat_json_to_responses(parsed, model, ids)), tc)
        },
        ReplyPath::AnthropicToResponses => {
            let tc = crate::respond::anthropic_usage(parsed.get("usage"));
            (Some(crate::respond::anthropic_json_to_responses(parsed, model, ids)), tc)
        },
        ReplyPath::ChatToAnthropic => {
            let tc = chat_reply_uncached(parsed);
            (Some(crate::respond::chat_json_to_anthropic(parsed, ids)), tc)
        },
        ReplyPath::Same => match api {
            ClientApi::ChatCompletions => (None, crate::respond::chat_usage(parsed.get("usage"))),
            ClientApi::Responses => (Some(parsed.copy()), responses_reply_usage(parsed)),
            ClientApi::Anthropic => (
                Some(parsed.copy()),
                crate::respond::anthropic_usage(parsed.get("usage")),
            ),
        },
    }
}

} // verus!
