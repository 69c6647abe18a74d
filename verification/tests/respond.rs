use serde_json::Value;
use token_monitor::json::{parse_or_empty, Json};
use token_monitor::respond::{
    anthropic_json_to_chat, anthropic_json_to_responses, anthropic_usage, chat_completion_to_anthropic,
    chat_json_to_anthropic, chat_json_to_responses, chat_usage, estimate_response_output_chars,
    responses_to_chat_json, responses_usage, RequestIds,
};
use token_monitor::route::{
    reply_for, writes_model_into_body,
    stream_ends_at_done,
    channels_full_refusal, chat_reply_uncached, error_body, gate_full_refusal, gave_up_refusal,
    looks_like_json, next_step, no_enabled_channel_refusal, plan_request, reply_path,
    request_user_agent, responses_reply_usage, too_many_requests, upstream_error_reply,
    upstream_target, Attempt, ClientApi, NextStep, ReplyPath,
};
use token_monitor::proxy::{ChannelConfig, UpstreamFormat};
use token_monitor::sse::{anthropic_sse, frame_payload, read_frame, sse_frame, Payload, SseBuffer};
use token_monitor::stats::TokenCounts;
use token_monitor::text::{eq_ignore_ascii_case, to_ascii_uppercase, trim, trim_start};

fn conv(v: &Value) -> Json {
    match v {
        Value::Null => Json::Null,
        Value::Bool(b) => Json::Bool(*b),
        Value::Number(n) => Json::Number(n.to_string()),
        Value::String(s) => Json::Str(s.clone()),
        Value::Array(a) => Json::Array(a.iter().map(conv).collect()),
        Value::Object(m) => Json::Object(m.iter().map(|(k, x)| (k.clone(), conv(x))).collect()),
    }
}

fn j(text: &str) -> Json {
    conv(&serde_json::from_str::<Value>(text).expect("test JSON"))
}

fn v(x: &Json) -> Value {
    serde_json::from_str(&x.to_text()).expect("library JSON text")
}

fn counts(t: &TokenCounts) -> (u64, u64, u64) {
    (t.input, t.output, t.cached)
}

#[test]
fn request_ids_count_up_from_1000() {
    let mut ids = RequestIds::new();
    assert_eq!(ids.next_request_id(), 1000);
    assert_eq!(ids.next_request_id(), 1001);
}

#[test]
fn chat_reply_becomes_responses_object() {
    let mut ids = RequestIds::new();
    let reply = j(r#"{"choices":[{"message":{"content":"hi","tool_calls":[{"id":"c","function":{"name":"f","arguments":"{}"}}]}}],
        "usage":{"prompt_tokens":3,"completion_tokens":4,"prompt_tokens_details":{"cached_tokens":1}}}"#);
    let out = chat_json_to_responses(&reply, "m", &mut ids);
    assert_eq!(
        out.to_text(),
        r#"{"id":"resp-1000","model":"m","object":"response","output":[{"content":[{"text":"hi","type":"output_text"}],"role":"assistant","type":"message"},{"arguments":"{}","call_id":"c","name":"f","type":"function_call"}],"usage":{"cached_tokens":1,"input_tokens":3,"output_tokens":4}}"#
    );
    assert_eq!(counts(&chat_usage(reply.get("usage"))), (3, 4, 1));
}

#[test]
fn anthropic_reply_becomes_responses_and_chat() {
    let mut ids = RequestIds::new();
    let reply = j(r#"{"model":"a","content":[{"type":"text","text":"x"},{"type":"tool_use","id":"t","name":"f","input":{"q":1}}],
        "stop_reason":"tool_use","usage":{"input_tokens":5,"output_tokens":6}}"#);
    let r = v(&anthropic_json_to_responses(&reply, "m", &mut ids));
    assert_eq!(r["output"][1]["arguments"], r#"{"q":1}"#);
    assert_eq!(r["usage"]["input_tokens"], 5);
    let c = v(&anthropic_json_to_chat(&reply, &mut ids));
    assert_eq!(c["id"], "chatcmpl-1001");
    assert_eq!(c["choices"][0]["finish_reason"], "tool_calls");
    assert_eq!(c["choices"][0]["message"]["content"], "x");
    assert_eq!(c["model"], "a");
    assert_eq!(c["usage"]["output_tokens"], 6);
    assert_eq!(counts(&anthropic_usage(reply.get("usage"))), (5, 6, 0));
}

#[test]
fn responses_reply_becomes_chat_completion() {
    let mut ids = RequestIds::new();
    let reply = j(r#"{"output":[{"type":"message","content":[{"type":"output_text","text":"你好"},{"type":"output_text","text":"世界"}]}],
        "usage":{"input_tokens":10,"output_tokens":20,"input_tokens_details":{"cached_tokens":4}}}"#);
    let c = v(&responses_to_chat_json(&reply, "m", &mut ids));
    assert_eq!(c["choices"][0]["message"]["content"], "你好世界", "上游返回纯 JSON 时内容丢失");
    assert_eq!(c["usage"]["prompt_tokens"], 10, "JSON 分支的 usage 未正确透传");
    assert_eq!(c["usage"]["total_tokens"], 30);
    assert_eq!(c["choices"][0]["finish_reason"], "stop");
    assert_eq!(counts(&responses_usage(reply.get("usage"))), (10, 20, 4));
    assert_eq!(estimate_response_output_chars(&reply), 4);
    assert_eq!(counts(&responses_reply_usage(&reply)), (10, 20, 4));
    let no_usage = j(r#"{"output":[{"type":"message","content":[{"type":"output_text","text":"abcdefg"}]}]}"#);
    assert_eq!(counts(&responses_reply_usage(&no_usage)), (0, 3, 0));
}

#[test]
fn chat_reply_becomes_anthropic_message() {
    let mut ids = RequestIds::new();
    let reply = j(r#"{"model":"m","choices":[{"message":{"content":"","tool_calls":[{"id":"c","function":{"name":"f","arguments":"{\"a\":2}"}}]},"finish_reason":"tool_calls"}],
        "usage":{"prompt_tokens":1,"completion_tokens":2}}"#);
    let a = v(&chat_json_to_anthropic(&reply, &mut ids));
    assert_eq!(a["id"], "msg_1000");
    assert_eq!(a["stop_reason"], "tool_use");
    assert_eq!(a["content"][0]["type"], "tool_use");
    assert_eq!(a["content"][0]["input"]["a"], 2);
    assert_eq!(a["usage"]["output_tokens"], 2);
    assert!(a["stop_sequence"].is_null());
    assert_eq!(counts(&chat_reply_uncached(&reply)), (1, 2, 0));

    let empty = j(r#"{"choices":[{"message":{}}]}"#);
    let usage = TokenCounts { input: 7, output: 8, cached: 0 };
    let b = v(&chat_completion_to_anthropic(&empty, &usage, &mut ids));
    assert_eq!(b["content"][0]["text"], "");
    assert_eq!(b["stop_reason"], "end_turn");
    assert_eq!(b["usage"]["input_tokens"], 7);
}

#[test]
fn plans_follow_the_channel_format() {
    let ch = |f: UpstreamFormat, over: &str| ChannelConfig {
        api_key: "k".to_string(),
        upstream_url: "u".to_string(),
        upstream_format: f,
        model_override: over.to_string(),
    };
    let body = j(r#"{"model":"orig","stream":true,"messages":[{"role":"user","content":"hi"}]}"#);
    let p = plan_request(ClientApi::ChatCompletions, &body, &ch(UpstreamFormat::ChatCompletions, "forced"));
    assert!(p.stream);
    assert_eq!(p.model, "forced");
    assert_eq!(v(&p.payload)["messages"][0]["content"], "hi");
    let p = plan_request(ClientApi::ChatCompletions, &body, &ch(UpstreamFormat::Responses, ""));
    assert_eq!(v(&p.payload)["input"][0]["type"], "message");
    assert_eq!(p.model, "orig");
    assert!(reply_path(ClientApi::ChatCompletions, UpstreamFormat::Responses) == ReplyPath::ResponsesToChat);
    assert!(reply_path(ClientApi::Anthropic, UpstreamFormat::ChatCompletions) == ReplyPath::ChatToAnthropic);
    assert!(reply_path(ClientApi::Responses, UpstreamFormat::Responses) == ReplyPath::Same);
}

#[test]
fn refusals_carry_status_and_kind() {
    let r = too_many_requests("busy");
    assert_eq!(r.status, 429);
    assert_eq!(r.body.to_text(), r#"{"error":{"message":"busy","type":"concurrency_limit_exceeded"}}"#);
    assert_eq!(
        v(&gate_full_refusal(20).body)["error"]["message"],
        "并发请求已达上限（20），排队等待 2 分钟仍未获取到槽位，请稍后重试"
    );
    assert_eq!(channels_full_refusal().status, 429);
    let d = no_enabled_channel_refusal();
    assert_eq!(d.status, 503);
    assert_eq!(v(&d.body)["error"]["type"], "no_enabled_channel");
    let g = gave_up_refusal("timeout");
    assert_eq!(g.status, 502);
    assert_eq!(v(&g.body)["error"]["message"], "上游网关错误（已重试 3 次）：timeout");
    let u = upstream_error_reply(429, "slow down");
    assert_eq!(u.status, 429);
    assert_eq!(v(&u.body)["error"]["message"], "上游错误：slow down");
    assert_eq!(upstream_error_reply(42, "x").status, 502);
    assert_eq!(error_body("m", "t").to_text(), r#"{"error":{"message":"m","type":"t"}}"#);
}

#[test]
fn blank_channel_settings_are_refused_before_sending() {
    let mut ch = ChannelConfig {
        api_key: "  ".to_string(),
        upstream_url: " https://u ".to_string(),
        upstream_format: UpstreamFormat::Responses,
        model_override: String::new(),
    };
    let e = upstream_target(&ch).err().unwrap();
    assert_eq!(e.status, 400);
    assert_eq!(v(&e.body)["error"]["message"], "渠道 API Key 未配置：请在设置面板的该渠道中填写");
    ch.api_key = " sk ".to_string();
    let t = upstream_target(&ch).ok().unwrap();
    assert_eq!((t.api_key.as_str(), t.url.as_str()), ("sk", "https://u"));
    ch.upstream_url = String::new();
    let e = upstream_target(&ch).err().unwrap();
    assert_eq!(v(&e.body)["error"]["message"], "渠道转发目标地址未配置：请在设置面板的该渠道中填写");
}

#[test]
fn retries_server_errors_and_failures_three_times() {
    assert!(next_step(0, Attempt::Status(503)) == NextStep::Retry(1000));
    assert!(next_step(1, Attempt::Status(500)) == NextStep::Retry(2000));
    assert!(next_step(2, Attempt::Status(500)) == NextStep::Deliver);
    assert!(next_step(0, Attempt::Status(429)) == NextStep::Deliver);
    assert!(next_step(0, Attempt::Failed) == NextStep::Retry(1000));
    assert!(next_step(2, Attempt::Failed) == NextStep::GiveUp);
}

#[test]
fn user_agent_and_body_kind() {
    assert_eq!(request_user_agent(Some("x/1")), "x/1");
    assert_eq!(request_user_agent(None), "trae-proxy/1.0");
    assert!(looks_like_json("  {\"a\":1}"));
    assert!(!looks_like_json("data: {}"));
    assert!(!looks_like_json(""));
}

#[test]
fn frames_are_split_decoded_and_encoded() {
    let mut buf = SseBuffer::new();
    buf.push(b"event: x\r\ndata: {\"a\":1}\r\n\r\ndata: [DO");
    let first = buf.next_frame().unwrap();
    assert!(matches!(read_frame(&first), Payload::Data(ref t) if t == "{\"a\":1}"));
    assert!(buf.next_frame().is_none());
    buf.push(b"NE]\n\n");
    assert!(matches!(read_frame(&buf.next_frame().unwrap()), Payload::Done));
    assert!(matches!(read_frame(b"event: ping\n\n"), Payload::Nothing));
    // invalid UTF-8 is decoded with replacement characters, not dropped
    assert!(matches!(read_frame(b"data: \xff\n\n"), Payload::Data(ref t) if t == "\u{FFFD}"));
    assert_eq!(frame_payload("data: 1\ndata:  2 \n"), Some("2".to_string()));
    let body = j(r#"{"b":1,"a":"x"}"#);
    assert_eq!(sse_frame(&body), "data: {\"a\":\"x\",\"b\":1}\n\n");
    assert_eq!(anthropic_sse("ping", &Json::object()), "event: ping\ndata: {}\n\n");
}

#[test]
fn json_text_and_parsing() {
    let mut o = Json::object();
    o.set("z", Json::string("q\"\n"));
    o.set("a", Json::number_i64(-3));
    assert_eq!(o.to_text(), r#"{"a":-3,"z":"q\"\n"}"#);
    assert_eq!(o.get("a").unwrap().as_i64(), Some(-3));
    assert!(matches!(parse_or_empty("{\"k\": [1, 2.50]}"), Json::Raw(ref t) if t == "{\"k\":[1,2.5]}"));
    assert_eq!(parse_or_empty("not json").to_text(), "{}");
}

#[test]
fn text_helpers() {
    assert_eq!(trim("  a b \t"), "a b");
    assert_eq!(trim_start("  a "), "a ");
    assert_eq!(to_ascii_uppercase("usd-é"), "USD-é");
    assert!(eq_ignore_ascii_case("CnY", "cny"));
    assert!(!eq_ignore_ascii_case("cny", "usd"));
}

#[test]
fn which_streams_end_at_done() {
    assert!(stream_ends_at_done(ClientApi::ChatCompletions, UpstreamFormat::ChatCompletions));
    assert!(stream_ends_at_done(ClientApi::Responses, UpstreamFormat::ChatCompletions));
    assert!(stream_ends_at_done(ClientApi::ChatCompletions, UpstreamFormat::Responses));
    assert!(stream_ends_at_done(ClientApi::Anthropic, UpstreamFormat::Responses));
    assert!(!stream_ends_at_done(ClientApi::Responses, UpstreamFormat::Responses));
    assert!(!stream_ends_at_done(ClientApi::ChatCompletions, UpstreamFormat::Anthropic));
    assert!(!stream_ends_at_done(ClientApi::Anthropic, UpstreamFormat::Anthropic));
}

#[test]
fn non_streamed_replies_by_path() {
    let mut ids = RequestIds::new();
    // Same format, Chat: passed on as text, usage read.
    let text = r#"{"choices":[],"usage":{"prompt_tokens":3,"completion_tokens":4}}"#;
    let parsed = Json::object();
    let (r, tc) = reply_for(ClientApi::ChatCompletions, ReplyPath::Same, text, &parsed, &Vec::new(), "m", &mut ids);
    assert!(r.is_none());
    assert_eq!((tc.input, tc.output), (0, 0), "usage is read from the parsed reply");
    // A reply that is not JSON counts nothing.
    let (r, tc) = reply_for(ClientApi::ChatCompletions, ReplyPath::Same, "oops", &Json::object(), &Vec::new(), "m", &mut ids);
    assert!(r.is_none());
    assert_eq!((tc.input, tc.output, tc.cached), (0, 0, 0));
    // Same format, Anthropic: passed on as parsed.
    let mut msg = Json::object();
    msg.set("type", Json::string("message"));
    let (r, _) = reply_for(ClientApi::Anthropic, ReplyPath::Same, "{}", &msg, &Vec::new(), "m", &mut ids);
    assert_eq!(r.unwrap().to_text(), r#"{"type":"message"}"#);
}

#[test]
fn model_written_into_body_where_overridden() {
    let mut ch = ChannelConfig {
        api_key: "k".to_string(),
        upstream_url: "u".to_string(),
        upstream_format: UpstreamFormat::Responses,
        model_override: String::new(),
    };
    assert!(!writes_model_into_body(ClientApi::Responses, &ch));
    ch.model_override = "x".to_string();
    assert!(writes_model_into_body(ClientApi::Responses, &ch));
    assert!(!writes_model_into_body(ClientApi::ChatCompletions, &ch));
    ch.upstream_format = UpstreamFormat::Anthropic;
    assert!(writes_model_into_body(ClientApi::Anthropic, &ch));
}
