use serde_json::Value;
use token_monitor::json::Json;
use token_monitor::respond::{chat_usage, responses_to_chat_json, RequestIds};
use token_monitor::route::{looks_like_json, ClientApi, ReplyPath};
use token_monitor::scheduler::Scheduler;
use token_monitor::sse::{read_frame, Payload, SseBuffer};
use token_monitor::stream::{
    aggregate_chat_completion, div_ceil3, StreamConv, final_token_counts, make_chunk, request_token_total, Aggregate, AnthropicOut,
    AnthropicToChat, AnthropicToResponses, ChatToResponses, ResponsesToChat, StreamCount,
};
use token_monitor::stats::TokenCounts;

fn conv(v: &Value) -> Json {
    match v {
        Value::Null => Json::Null,
        Value::Bool(b) => Json::Bool(*b),
        Value::Number(n) => Json::Number(n.to_string()),
        Value::String(s) => Json::Str(s.clone()),
        Value::Array(a) => Json::Array(a.iter().map(conv).collect()),
        Value::Object(m) => Json::Object(m.iter().map(|(k, x)| (k.clone(), conv(x))).collect()),
    }
}

fn j(text: &str) -> Json {
    conv(&serde_json::from_str::<Value>(text).expect("test JSON"))
}

fn data(frames: &[String]) -> Vec<Value> {
    frames
        .iter()
        .flat_map(|f| f.lines())
        .filter_map(|l| l.strip_prefix("data: "))
        .filter_map(|p| serde_json::from_str::<Value>(p).ok())
        .collect()
}

#[test]
fn streaming_anthropic_with_chat_upstream_emits_complete_tool_calls() {
    let mut ids = RequestIds::new();
    let mut s = AnthropicOut::new("m");
    let frame_a = j(r#"{"choices":[{"delta":{"tool_calls":[
        {"index":0,"id":"call_a","function":{"name":"get_weather","arguments":""}},
        {"index":1,"id":"call_b","function":{"name":"get_stock","arguments":""}}]}}]}"#);
    let frame_b = j(r#"{"choices":[{"delta":{"tool_calls":[
        {"index":0,"function":{"arguments":"{\"city\":"}},
        {"index":1,"function":{"arguments":"{\"sym\":"}}]}}]}"#);
    let mut out: Vec<String> = Vec::new();
    for f in s.on_chat_event(&frame_a, &mut ids) {
        out.push(f.encode());
    }
    for f in s.on_chat_event(&frame_b, &mut ids) {
        out.push(f.encode());
    }
    let (tail, _, _) = s.finish(&mut ids);
    for f in tail {
        out.push(f.encode());
    }
    let events = data(&out);
    assert!(!events.is_empty(), "未解析到任何 SSE 事件");

    let starts: Vec<i64> = events
        .iter()
        .filter(|e| e["type"] == "content_block_start")
        .filter_map(|e| e["index"].as_i64())
        .collect();
    let stops: Vec<i64> = events
        .iter()
        .filter(|e| e["type"] == "content_block_stop")
        .filter_map(|e| e["index"].as_i64())
        .collect();
    assert_eq!(starts.len(), 2, "应打开两个工具块，实际 {starts:?}");
    for i in &starts {
        assert!(stops.contains(i), "块 {i} 缺少 content_block_stop，Anthropic SDK 无法解析工具调用");
    }
    let json_deltas: Vec<(i64, String)> = events
        .iter()
        .filter(|e| e["type"] == "content_block_delta")
        .filter(|e| e["delta"]["type"] == "input_json_delta")
        .filter_map(|e| Some((e["index"].as_i64()?, e["delta"]["partial_json"].as_str()?.to_string())))
        .collect();
    let city = json_deltas.iter().find(|(_, j)| j.contains("city")).expect("缺少 city 参数分片");
    let sym = json_deltas.iter().find(|(_, j)| j.contains("sym")).expect("缺少 sym 参数分片");
    assert_ne!(city.0, sym.0, "两个并行工具的参数被打到同一个块上，客户端会拿到非法 JSON");
    let stop = events
        .iter()
        .find(|e| e["type"] == "message_delta")
        .and_then(|e| e["delta"]["stop_reason"].as_str())
        .unwrap_or("");
    assert_eq!(stop, "tool_use", "有工具调用却报 end_turn，客户端会认为模型自然结束、不执行工具");
}

#[test]
fn streaming_chat_with_anthropic_upstream_keeps_parallel_tool_indices() {
    let mut ids = RequestIds::new();
    let mut s = AnthropicToChat::new("m");
    let frames = [
        r#"{"type":"content_block_start","index":0,"content_block":{"type":"text","text":""}}"#,
        r#"{"type":"content_block_delta","index":0,"delta":{"type":"text_delta","text":"hi"}}"#,
        r#"{"type":"content_block_start","index":1,"content_block":{"type":"tool_use","id":"toolu_a","name":"get_weather","input":{}}}"#,
        r#"{"type":"content_block_delta","index":1,"delta":{"type":"input_json_delta","partial_json":"{\"city\":"}}"#,
        r#"{"type":"content_block_start","index":2,"content_block":{"type":"tool_use","id":"toolu_b","name":"get_stock","input":{}}}"#,
        r#"{"type":"content_block_delta","index":2,"delta":{"type":"input_json_delta","partial_json":"{\"sym\":"}}"#,
        r#"{"type":"message_delta","delta":{"stop_reason":"tool_use"}}"#,
        r#"{"type":"message_stop"}"#,
    ];
    let mut out: Vec<String> = Vec::new();
    for f in frames {
        for fr in s.on_event(&j(f), &mut ids) {
            out.push(fr.encode());
        }
    }
    let (_, used, _) = s.finish();
    let finish = make_chunk("m", Json::object(), Some(if used { "tool_calls" } else { "stop" }), &mut ids);
    out.push(format!("data: {}\n\n", finish.to_text()));
    let body = out.concat();
    let events = data(&out);
    assert!(body.contains("hi"), "正文未透传：{body}");

    let mut named: Vec<(String, i64)> = Vec::new();
    let mut args: Vec<(String, i64)> = Vec::new();
    for e in &events {
        let Some(tc) = e["choices"][0]["delta"]["tool_calls"].as_array().and_then(|a| a.first()) else {
            continue;
        };
        let idx = tc["index"].as_i64().unwrap_or(-1);
        if let Some(n) = tc["function"]["name"].as_str().filter(|n| !n.is_empty()) {
            named.push((n.to_string(), idx));
        }
        if let Some(a) = tc["function"]["arguments"].as_str().filter(|a| !a.is_empty()) {
            args.push((a.to_string(), idx));
        }
    }
    assert_eq!(named.len(), 2, "应声明两个工具，实际 {named:?}");
    assert_eq!(named[0].1, 0, "第一个工具应拿到 Chat 索引 0，实际 {named:?}");
    assert_eq!(named[1].1, 1, "第二个工具应与第一个分开（上游 index 2 应映射为 Chat 索引 1），实际 {named:?}");
    let city = args.iter().find(|(a, _)| a.contains("city")).expect("缺 city 分片");
    let sym = args.iter().find(|(a, _)| a.contains("sym")).expect("缺 sym 分片");
    assert_eq!(city.1, 0, "city 参数打到了错误的工具索引，客户端会拿到非法 JSON");
    assert_eq!(sym.1, 1, "sym 参数打到了错误的工具索引，客户端会拿到非法 JSON");
    let finish = events.iter().find_map(|e| e["choices"][0]["finish_reason"].as_str());
    assert_eq!(finish, Some("tool_calls"), "有工具调用却报 stop，OpenAI 客户端会跳过工具执行");
}

fn frames_of(body: &str) -> Vec<Json> {
    let mut buf = SseBuffer::new();
    buf.push(body.as_bytes());
    let mut out = Vec::new();
    while let Some(f) = buf.next_frame() {
        match read_frame(&f) {
            Payload::Data(t) => out.push(j(&t)),
            Payload::Done => break,
            Payload::Nothing => {}
        }
    }
    out
}

#[test]
fn crlf_framed_upstream_still_delivers_content() {
    let body = "event: response.output_text.delta\r\n\
data: {\"type\":\"response.output_text.delta\",\"delta\":\"你好\"}\r\n\r\n\
data: {\"type\":\"response.output_text.delta\",\"delta\":\"世界\"}\r\n\r\n\
data: [DONE]\r\n\r\n";
    let mut ids = RequestIds::new();
    let mut s = ResponsesToChat::new("m");
    let mut text = String::new();
    for evt in frames_of(body) {
        let (frames, _) = s.on_event(&evt, &mut ids);
        for f in frames {
            let v: Value = serde_json::from_str(&f.data.to_text()).unwrap();
            if let Some(c) = v["choices"][0]["delta"]["content"].as_str() {
                text.push_str(c);
            }
        }
    }
    assert_eq!(text, "你好世界", "CRLF 分帧的上游导致内容整段丢失（帧边界识别不到）");
}

#[test]
fn responses_stream_aggregates_to_one_completion() {
    let body = "event: response.output_text.delta\n\
data: {\"type\":\"response.output_text.delta\",\"delta\":\"你好\"}\n\n\
data: {\"type\":\"response.output_text.delta\",\"delta\":\"世界\"}\n\n\
event: response.completed\n\
data: {\"type\":\"response.completed\",\"response\":{\"usage\":{\"input_tokens\":7,\"output_tokens\":2}}}\n\n\
data: [DONE]\n\n";
    let mut ids = RequestIds::new();
    let mut s = ResponsesToChat::new("m");
    let mut agg = Aggregate::new();
    for evt in frames_of(body) {
        let (frames, _) = s.on_event(&evt, &mut ids);
        for f in frames.iter() {
            agg.on_chunk(&f.data);
        }
    }
    let (chars, used, usage) = s.finish();
    assert_eq!(chars, 4);
    assert!(!used);
    assert_eq!((usage.input, usage.output), (7, 2));
    let (cc, n, u) = agg.finish("m", &usage, &mut ids);
    assert_eq!(n, 4);
    assert_eq!(u.output, 2);
    let v: Value = serde_json::from_str(&cc.to_text()).unwrap();
    assert_eq!(v["choices"][0]["message"]["content"], "你好世界", "非流式请求 + Responses 上游返回了空内容");
    assert_eq!(v["choices"][0]["finish_reason"], "stop");
    assert_eq!(v["object"], "chat.completion");
}

#[test]
fn responses_function_calls_become_chat_tool_calls() {
    let mut ids = RequestIds::new();
    let mut s = ResponsesToChat::new("m");
    let added = j(r#"{"type":"response.output_item.added","output_index":1,"item":{"type":"function_call","call_id":"c9","name":"f"}}"#);
    let delta = j(r#"{"type":"response.function_call_arguments.delta","output_index":1,"delta":"{\"x\":1}"}"#);
    let (f1, stop1) = s.on_event(&added, &mut ids);
    let (f2, _) = s.on_event(&delta, &mut ids);
    assert!(!stop1);
    let a: Value = serde_json::from_str(&f1[0].data.to_text()).unwrap();
    assert_eq!(a["choices"][0]["delta"]["tool_calls"][0]["id"], "c9");
    assert_eq!(a["choices"][0]["delta"]["tool_calls"][0]["index"], 1);
    let b: Value = serde_json::from_str(&f2[0].data.to_text()).unwrap();
    assert_eq!(b["choices"][0]["delta"]["tool_calls"][0]["function"]["arguments"], "{\"x\":1}");
    let (chars, used, usage) = s.finish();
    assert_eq!(chars, 7);
    assert!(used);
    assert_eq!(usage.output, 3);
    let (frames, stop) = s.on_event(&j(r#"{"type":"error"}"#), &mut ids);
    assert!(stop);
    let e: Value = serde_json::from_str(&frames[0].data.to_text()).unwrap();
    assert_eq!(e["choices"][0]["finish_reason"], "stop");
}

#[test]
fn chat_and_anthropic_upstreams_become_responses_events() {
    let mut s = ChatToResponses::new();
    let f = s.on_event(&j(r#"{"choices":[{"delta":{"content":"ab"}}],"usage":{"prompt_tokens":3,"completion_tokens":1}}"#));
    assert!(!f.is_empty());
    assert!(f.iter().all(|x| x.event.is_none()));
    let (chars, used, usage) = s.finish();
    assert_eq!((chars, used, usage.input, usage.output), (2, false, 3, 1));

    let mut a = AnthropicToResponses::new();
    a.on_event(&j(r#"{"type":"message_start","message":{"usage":{"input_tokens":5,"cache_read_input_tokens":2}}}"#));
    a.on_event(&j(r#"{"type":"content_block_delta","index":0,"delta":{"type":"text_delta","text":"xyz"}}"#));
    let (chars, _, usage) = a.finish();
    assert_eq!(chars, 3);
    assert_eq!((usage.input, usage.cached, usage.output), (5, 2, 1));
}

#[test]
fn passthrough_counting() {
    let mut c = StreamCount::new();
    c.on_chat_event(&j(r#"{"choices":[{"delta":{"content":"hello"}}]}"#));
    let (chars, u) = c.finish();
    assert_eq!((chars, u.input, u.output, u.cached), (5, 0, 2, 0));
    c.on_chat_event(&j(r#"{"choices":[],"usage":{"prompt_tokens":4,"completion_tokens":6,"prompt_tokens_details":{"cached_tokens":1}}}"#));
    let (_, u) = c.finish();
    assert_eq!((u.input, u.output, u.cached), (4, 6, 1));

    let mut r = StreamCount::new();
    r.on_responses_event(&j(r#"{"type":"response.output_text.delta","delta":"abcd"}"#));
    r.on_responses_event(&j(r#"{"type":"response.completed","response":{"usage":{"input_tokens":9,"output_tokens":8}}}"#));
    let (chars, u) = r.finish();
    assert_eq!((chars, u.input, u.output), (4, 9, 8));

    let mut a = StreamCount::new();
    a.on_anthropic_event(&j(r#"{"type":"content_block_delta","delta":{"text":"xy"}}"#));
    a.on_anthropic_event(&j(r#"{"type":"message_delta","usage":{"output_tokens":3}}"#));
    let (chars, u) = a.finish();
    assert_eq!((chars, u.output), (2, 3));
}

#[test]
fn token_estimates() {
    assert_eq!(div_ceil3(0), 0);
    assert_eq!(div_ceil3(7), 3);
    assert_eq!(div_ceil3(9), 3);
    let given = TokenCounts { input: 10, output: 0, cached: 1 };
    let f = final_token_counts(&given, 9);
    assert_eq!((f.input, f.output, f.cached), (10, 0, 1));
    let none = TokenCounts { input: 0, output: 0, cached: 4 };
    let f = final_token_counts(&none, 10);
    assert_eq!((f.input, f.output, f.cached), (0, 4, 0));
    assert_eq!(request_token_total(&TokenCounts { input: 100, output: 50, cached: 9 }), 150);
}

#[test]
fn chunks_carry_increasing_ids() {
    let mut ids = RequestIds::new();
    let a = make_chunk("m", Json::object(), None, &mut ids);
    let b = make_chunk("m", Json::object(), Some("stop"), &mut ids);
    let va: Value = serde_json::from_str(&a.to_text()).unwrap();
    let vb: Value = serde_json::from_str(&b.to_text()).unwrap();
    assert_eq!(va["id"], "chatcmpl-1000");
    assert_eq!(vb["id"], "chatcmpl-1001");
    assert_eq!(vb["choices"][0]["finish_reason"], "stop");
    assert!(va["choices"][0]["finish_reason"].is_null());
    assert_eq!(va["created"], 1_700_000_000u64);
}

#[test]
fn whole_responses_stream_becomes_completion_with_tool_calls() {
    let body = "data: {\"type\":\"response.output_text.delta\",\"delta\":\"Hel\"}\n\n\
data: {\"type\":\"response.output_text.delta\",\"delta\":\"lo\"}\n\n\
data: {\"type\":\"response.output_item.added\",\"output_index\":2,\"item\":{\"type\":\"function_call\",\"call_id\":\"c1\",\"name\":\"f\"}}\n\n\
data: {\"type\":\"response.function_call_arguments.delta\",\"output_index\":2,\"delta\":\"{}\"}\n\n\
data: {\"type\":\"response.completed\",\"response\":{\"usage\":{\"input_tokens\":5,\"output_tokens\":0}}}\n\n\
data: [DONE]\n\n";
    let mut ids = RequestIds::new();
    let (cc, chars, usage) = aggregate_chat_completion(&frames_of(body), "m", &mut ids);
    let v: Value = serde_json::from_str(&cc.to_text()).unwrap();
    assert_eq!(v["object"], "chat.completion");
    assert_eq!(v["model"], "m");
    assert_eq!(v["choices"][0]["message"]["content"], "Hello");
    assert_eq!(v["choices"][0]["message"]["tool_calls"][0]["id"], "c1");
    // Every chunk of the call carries the name and name pieces are joined,
    // so the start chunk and the argument chunk give it twice.
    assert_eq!(v["choices"][0]["message"]["tool_calls"][0]["function"]["name"], "ff");
    assert_eq!(v["choices"][0]["message"]["tool_calls"][0]["function"]["arguments"], "{}");
    assert_eq!(v["choices"][0]["finish_reason"], "tool_calls");
    assert_eq!(chars, 5);
    // output estimated from the 7 characters sent (text and arguments)
    assert_eq!((usage.input, usage.output, usage.cached), (5, 3, 0));
}

#[test]
fn whole_responses_stream_stops_at_error_event() {
    let events = vec![
        j(r#"{"type":"response.output_text.delta","delta":"abcd"}"#),
        j(r#"{"type":"response.failed"}"#),
        j(r#"{"type":"response.output_text.delta","delta":"zz"}"#),
    ];
    let mut ids = RequestIds::new();
    let (cc, chars, usage) = aggregate_chat_completion(&events, "m", &mut ids);
    let v: Value = serde_json::from_str(&cc.to_text()).unwrap();
    assert_eq!(v["choices"][0]["message"]["content"], "abcd");
    assert_eq!(v["choices"][0]["finish_reason"], "stop");
    assert_eq!(chars, 4);
    assert_eq!((usage.input, usage.output), (0, 2));
}

const RESPONSES_SSE: &str = "event: response.output_text.delta\n\
data: {\"type\":\"response.output_text.delta\",\"delta\":\"你好\"}\n\n\
event: response.output_text.delta\n\
data: {\"type\":\"response.output_text.delta\",\"delta\":\"世界\"}\n\n\
event: response.completed\n\
data: {\"type\":\"response.completed\",\"response\":{\"usage\":{\"input_tokens\":10,\"output_tokens\":5}}}\n\n\
data: [DONE]\n\n";

#[test]
fn non_streaming_chat_with_responses_upstream_accepts_plain_json() {
    let body = r#"{"id":"resp_1","object":"response","output":[{"type":"message","role":"assistant","content":[{"type":"output_text","text":"你好世界"}]}],"usage":{"input_tokens":10,"output_tokens":5}}"#;
    assert!(looks_like_json(body), "a plain JSON reply takes the JSON branch");
    let mut ids = RequestIds::new();
    let cc = responses_to_chat_json(&j(body), "m", &mut ids);
    let v: Value = serde_json::from_str(&cc.to_text()).unwrap();
    assert_eq!(v.pointer("/choices/0/message/content").and_then(|c| c.as_str()), Some("你好世界"));
    assert_eq!(v.pointer("/usage/prompt_tokens").and_then(|t| t.as_u64()), Some(10));
}

#[test]
fn non_streaming_chat_with_responses_upstream_returns_content() {
    assert!(!looks_like_json(RESPONSES_SSE), "an event stream is not read as JSON");
    let mut ids = RequestIds::new();
    let (cc, _, usage) = aggregate_chat_completion(&frames_of(RESPONSES_SSE), "m", &mut ids);
    let v: Value = serde_json::from_str(&cc.to_text()).unwrap();
    assert_eq!(v.pointer("/choices/0/message/content").and_then(|c| c.as_str()), Some("你好世界"));
    assert_eq!((usage.input, usage.output), (10, 5));
}

#[test]
fn streaming_chat_with_responses_upstream_returns_content() {
    let mut ids = RequestIds::new();
    let mut s = ResponsesToChat::new("m");
    let mut body = String::new();
    for evt in frames_of(RESPONSES_SSE) {
        let (frames, _) = s.on_event(&evt, &mut ids);
        for f in frames {
            body.push_str(&f.encode());
        }
    }
    assert!(body.contains("你好") && body.contains("世界"), "converted stream: {body}");
}

#[test]
fn non_streaming_request_records_input_and_output_tokens() {
    let reply = j(r#"{"id":"cmpl-1","object":"chat.completion","choices":[{"index":0,"message":{"role":"assistant","content":"hi"},"finish_reason":"stop"}],"usage":{"prompt_tokens":100,"completion_tokens":50}}"#);
    let tc = chat_usage(reply.get("usage"));
    let mut sched = Scheduler::new();
    sched.upsert_channel("tpm-ch", true, 4, 0, 1_000_000, 100);
    sched.record_request("tpm-ch", request_token_total(&tc));
    let snap = sched.snapshot();
    let ch = snap.iter().find(|c| c.profile_id == "tpm-ch").unwrap();
    assert_eq!(ch.current_tpm, 150, "TPM counts input (100) and output (50)");
}

#[test]
fn streaming_request_records_input_and_output_tokens() {
    let body = "data: {\"id\":\"c1\",\"object\":\"chat.completion.chunk\",\"choices\":[{\"index\":0,\"delta\":{\"role\":\"assistant\",\"content\":\"He\"},\"finish_reason\":null}]}\n\n\
data: {\"id\":\"c1\",\"object\":\"chat.completion.chunk\",\"choices\":[{\"index\":0,\"delta\":{\"content\":\"llo\"},\"finish_reason\":null}]}\n\n\
data: {\"id\":\"c1\",\"object\":\"chat.completion.chunk\",\"choices\":[{\"index\":0,\"delta\":{},\"finish_reason\":\"stop\"}],\"usage\":{\"prompt_tokens\":100,\"completion_tokens\":50}}\n\n\
data: [DONE]\n\n";
    let mut count = StreamCount::new();
    for evt in frames_of(body) {
        count.on_chat_event(&evt);
    }
    let (chars, usage) = count.finish();
    let tc = final_token_counts(&usage, chars);
    let mut sched = Scheduler::new();
    sched.upsert_channel("sse-ch", true, 4, 0, 1_000_000, 100);
    sched.record_request("sse-ch", request_token_total(&tc));
    assert_eq!(sched.snapshot()[0].current_tpm, 150, "TPM counts input (100) and output (50)");
}

#[test]
fn error_event_ends_streams_without_estimates() {
    let mut ids = RequestIds::new();
    let mut a = AnthropicOut::new("m");
    let _ = a.on_responses_event(&j(r#"{"type":"response.output_text.delta","delta":"abcdef"}"#), &mut ids);
    let (frames, stop) = a.on_responses_event(&j(r#"{"type":"error","error":{"message":"boom"}}"#), &mut ids);
    assert!(stop);
    let sent: Vec<String> = frames.iter().map(|f| f.encode()).collect();
    let events = data(&sent);
    assert_eq!(events[events.len() - 2]["error"]["message"], "boom");
    assert_eq!(events[events.len() - 1]["type"], "message_stop");
    let (chars, usage) = a.finish_stopped();
    assert_eq!(chars, 6);
    assert_eq!((usage.input, usage.output), (0, 0), "nothing is estimated after an error");

    let mut c = ResponsesToChat::new("m");
    let _ = c.on_event(&j(r#"{"type":"response.output_text.delta","delta":"abc"}"#), &mut ids);
    let (_, stop) = c.on_event(&j(r#"{"type":"response.failed"}"#), &mut ids);
    assert!(stop);
    assert_eq!(c.finish_stopped().2.output, 0);
    assert_eq!(c.finish().2.output, 1);
}

#[test]
fn stream_converters_by_reply_path() {
    let mut ids = RequestIds::new();
    // Responses upstream, Anthropic client, ended by an error event.
    let mut c = StreamConv::new(ClientApi::Anthropic, ReplyPath::ResponsesToAnthropic, "m");
    assert!(!c.passes_bytes());
    let _ = c.on_event(&j(r#"{"type":"response.output_text.delta","delta":"abc"}"#), &mut ids);
    assert_eq!(c.chars(), 3);
    let (_, stop) = c.on_event(&j(r#"{"type":"error"}"#), &mut ids);
    assert!(stop);
    let (tail, chars, _, usage) = c.finish(true, &mut ids);
    assert!(tail.is_empty(), "nothing more after the error");
    assert_eq!((chars, usage.output), (3, 0));

    // Chat upstream, Anthropic client: closing frames end with message_stop.
    let mut c = StreamConv::new(ClientApi::Anthropic, ReplyPath::ChatToAnthropic, "m");
    let _ = c.on_event(&j(r#"{"choices":[{"delta":{"content":"hello!"}}]}"#), &mut ids);
    let (tail, chars, _, usage) = c.finish(false, &mut ids);
    let sent: Vec<String> = tail.iter().map(|f| f.encode()).collect();
    assert_eq!(data(&sent).last().unwrap()["type"], "message_stop");
    assert_eq!((chars, usage.output), (6, 2));

    // A passed-on Responses stream: bytes pass, usage as given, kept on a cut-off.
    let mut c = StreamConv::new(ClientApi::Responses, ReplyPath::Same, "m");
    assert!(c.passes_bytes());
    let (frames, _) = c.on_event(&j(r#"{"type":"response.output_text.delta","delta":"abcd"}"#), &mut ids);
    assert!(frames.is_empty());
    let (chars, _, usage) = c.cut_off();
    assert_eq!((chars, usage.output), (4, 0));
    let (_, chars, _, usage) = c.finish(false, &mut ids);
    assert_eq!((chars, usage.output), (4, 0));

    // A conversion cut off counts nothing.
    let mut c = StreamConv::new(ClientApi::ChatCompletions, ReplyPath::AnthropicToChat, "m");
    let _ = c.on_event(&j(r#"{"type":"content_block_delta","index":0,"delta":{"type":"text_delta","text":"xyz"}}"#), &mut ids);
    assert_eq!(c.chars(), 3);
    let (chars, used, usage) = c.cut_off();
    assert_eq!((chars, used, usage.output), (0, false, 0));
}
