use serde_json::Value;
use token_monitor::convert::{
    anthropic_to_chat_payload, anthropic_to_responses_payload, chat_to_anthropic_payload,
    chat_to_responses_payload, responses_to_anthropic_payload, responses_to_chat_payload,
};
use token_monitor::json::Json;

fn conv(v: &Value) -> Json {
    match v {
        Value::Null => Json::Null,
        Value::Bool(b) => Json::Bool(*b),
        Value::Number(n) => Json::Number(n.to_string()),
        Value::String(s) => Json::Str(s.clone()),
        Value::Array(a) => Json::Array(a.iter().map(conv).collect()),
        Value::Object(m) => Json::Object(m.iter().map(|(k, x)| (k.clone(), conv(x))).collect()),
    }
}

fn j(text: &str) -> Json {
    conv(&serde_json::from_str::<Value>(text).expect("test JSON"))
}

fn v(x: &Json) -> Value {
    serde_json::from_str(&x.to_text()).expect("library JSON text")
}

#[test]
fn chat_request_becomes_responses_input() {
    let body = j(r#"{"model":"gpt","messages":[
        {"role":"system","content":"be nice"},
        {"role":"user","content":[{"type":"text","text":"hi"},{"type":"image_url","image_url":{"url":"u"}}]},
        {"role":"assistant","content":"","tool_calls":[{"id":"c1","function":{"name":"f","arguments":"{\"a\":1}"}}]},
        {"role":"tool","tool_call_id":"c1","content":"42"}],
        "tools":[{"type":"function","function":{"name":"f","description":"d","parameters":{"type":"object"}}}],
        "temperature":0.5,"max_tokens":100,"reasoning_effort":"none"}"#);
    let out = chat_to_responses_payload(&body, false, "");
    assert_eq!(
        out.to_text(),
        r#"{"input":[{"content":"be nice","role":"system","type":"message"},{"content":[{"text":"hi","type":"input_text"},{"image_url":{"url":"u"},"type":"image_url"}],"role":"user","type":"message"},{"arguments":"{\"a\":1}","call_id":"c1","name":"f","type":"function_call"},{"call_id":"c1","output":"42","type":"function_call_output"}],"max_output_tokens":100,"model":"gpt","reasoning_effort":"high","stream":false,"temperature":0.5,"tools":[{"description":"d","name":"f","parameters":{"type":"object"},"type":"function"}]}"#
    );
    let over = chat_to_responses_payload(&body, true, "forced");
    assert_eq!(v(&over)["model"], "forced");
    assert_eq!(v(&over)["stream"], true);
}

#[test]
fn anthropic_request_becomes_responses_input() {
    let body = j(r#"{"model":"m-x","system":[{"type":"text","text":"s1"},{"type":"text","text":"s2"}],
        "messages":[
          {"role":"user","content":[{"type":"text","text":"look"},{"type":"image","source":{"media_type":"image/jpeg","data":"AAA"}}]},
          {"role":"assistant","content":[{"type":"tool_use","id":"t1","name":"f","input":{"b":"x","a":1}}]},
          {"role":"user","content":[{"type":"tool_result","tool_use_id":"t1","content":"done"}]}],
        "tools":[{"name":"f","description":"d","input_schema":{"type":"object"}}],
        "max_tokens":64}"#);
    let out = v(&anthropic_to_responses_payload(&body, false, ""));
    let input = out["input"].as_array().unwrap();
    assert_eq!(input[0]["role"], "system");
    assert_eq!(input[0]["content"][0]["text"], "s1\ns2");
    assert_eq!(input[0]["content"][0]["type"], "input_text");
    assert_eq!(input[1]["content"][0]["text"], "look");
    assert_eq!(input[2]["content"][0]["type"], "input_image");
    assert_eq!(input[2]["content"][0]["image_url"], "data:image/jpeg;base64,AAA");
    assert_eq!(input[3]["type"], "function_call");
    assert_eq!(input[3]["arguments"], r#"{"a":1,"b":"x"}"#);
    assert_eq!(input[4]["type"], "function_call_output");
    assert_eq!(input[4]["output"], "done");
    assert_eq!(out["max_output_tokens"], 64);
    assert_eq!(out["tools"][0]["parameters"]["type"], "object");
    assert_eq!(out["tools"][0]["type"], "function");
}

#[test]
fn responses_request_becomes_chat_messages() {
    let body = j(r#"{"model":"m","input":[
        {"type":"message","role":"user","content":[{"type":"input_text","text":"a"},{"type":"input_text","text":"b"}]},
        {"type":"function_call","call_id":"c","name":"f","arguments":"{}"},
        {"type":"function_call_output","call_id":"c","output":"ok"}],
        "tools":[{"type":"function","name":"f","parameters":{"type":"object"}},{"type":"web_search"}],
        "max_output_tokens":9}"#);
    let out = v(&responses_to_chat_payload(&body, true, ""));
    let m = out["messages"].as_array().unwrap();
    assert_eq!(m[0]["content"], "ab");
    assert_eq!(m[1]["tool_calls"][0]["function"]["name"], "f");
    assert_eq!(m[1]["tool_calls"][0]["type"], "function");
    assert_eq!(m[2]["role"], "tool");
    assert_eq!(m[2]["content"], "ok");
    assert_eq!(out["tools"].as_array().unwrap().len(), 1);
    assert_eq!(out["max_tokens"], 9);
    assert_eq!(out["stream"], true);
}

#[test]
fn chat_request_becomes_anthropic_messages() {
    let body = j(r#"{"model":"m","messages":[
        {"role":"system","content":"sys"},
        {"role":"user","content":"q"},
        {"role":"assistant","content":"","tool_calls":[
            {"id":"c1","function":{"name":"f","arguments":"{\"city\":\"x\"}"}},
            {"id":"c2","function":{"name":"g","arguments":"oops"}}]},
        {"role":"tool","tool_call_id":"c1","content":"r1"},
        {"role":"tool","tool_call_id":"c2","content":"r2"}],
        "max_completion_tokens":50}"#);
    let out = v(&chat_to_anthropic_payload(&body, false, ""));
    assert_eq!(out["system"], "sys");
    let m = out["messages"].as_array().unwrap();
    assert_eq!(m.len(), 3);
    assert_eq!(m[0]["content"], "q");
    assert_eq!(m[1]["content"][0]["type"], "tool_use");
    assert_eq!(m[1]["content"][0]["input"]["city"], "x");
    assert_eq!(m[1]["content"][1]["input"], serde_json::from_str::<Value>("{}").unwrap());
    let results = m[2]["content"].as_array().unwrap();
    assert_eq!(results.len(), 2, "连续的工具结果应合并进同一条 user 消息");
    assert_eq!(results[1]["tool_use_id"], "c2");
    assert_eq!(out["max_tokens"], 50);
}

#[test]
fn anthropic_request_becomes_chat_messages() {
    let body = j(r#"{"model":"m","system":"sys","messages":[
        {"role":"user","content":"hello"},
        {"role":"assistant","content":[{"type":"text","text":"calling"},{"type":"tool_use","id":"t1","name":"f","input":{"k":2}}]},
        {"role":"user","content":[{"type":"tool_result","tool_use_id":"t1","content":"res"}]}],
        "tools":[{"name":"f","input_schema":{"type":"object"}}],"max_tokens":7}"#);
    let out = v(&anthropic_to_chat_payload(&body, false, "over"));
    let m = out["messages"].as_array().unwrap();
    assert_eq!(m[0]["role"], "system");
    assert_eq!(m[0]["content"], "sys");
    assert_eq!(m[1]["content"], "hello");
    assert_eq!(m[2]["tool_calls"][0]["function"]["arguments"], r#"{"k":2}"#);
    assert_eq!(m[3]["role"], "tool");
    assert_eq!(m[3]["tool_call_id"], "t1");
    assert_eq!(out["model"], "over");
    assert_eq!(out["tools"][0]["function"]["name"], "f");
}

#[test]
fn responses_request_becomes_anthropic_messages() {
    let body = j(r#"{"model":"m","instructions":"be brief","input":[
        {"type":"message","role":"user","content":"hey"},
        {"type":"function_call","call_id":"c","name":"f","arguments":"{\"z\":0}"},
        {"type":"function_call_output","call_id":"c","output":"done"}],
        "max_output_tokens":5}"#);
    let out = v(&responses_to_anthropic_payload(&body, true, ""));
    let m = out["messages"].as_array().unwrap();
    assert_eq!(m.len(), 3);
    assert_eq!(m[0]["role"], "user");
    assert_eq!(m[0]["content"], "hey");
    assert_eq!(m[1]["content"][0]["type"], "tool_use");
    assert_eq!(m[1]["content"][0]["input"]["z"], 0);
    assert_eq!(m[2]["content"][0]["type"], "tool_result");
    assert_eq!(m[2]["content"][0]["content"], "done");
    assert_eq!(out["max_tokens"], 5);
    assert_eq!(out["stream"], true);
    assert!(out.get("system").is_none());
}
