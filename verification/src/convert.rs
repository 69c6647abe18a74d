//! Request conversion between the Chat Completions, Responses and Anthropic
//! Messages formats.
//!
//! Each conversion is stated as a spec function over `JsonV` that says, item
//! by item, what the converted request holds; the executable function is
//! proved to build exactly that value.
use vstd::prelude::*;

use crate::json::{
    empty_obj, json_text, opt_json_view, opt_seq, or_null, parse_or_empty, parsed_or_empty, ref_view,
    set_opt, Json, JsonV, law_set_keeps_others, law_set_then_get, lemma_set_opt_keeps,
};
use crate::text::{empty_string, join, join_spec, push_str, str_eq, to_owned};

verus! {

// ──────── shared pieces ────────

/// `{"type": "input_text" | "output_text", "text": text}`: assistant text is
/// output, everything else input.
pub open spec fn text_part_v(role: Seq<char>, text: Seq<char>) -> JsonV {
    empty_obj().set(
        "type"@,
        JsonV::Str(
            if role == "assistant"@ {
                "output_text"@
            } else {
                "input_text"@
            },
        ),
    ).set("text"@, JsonV::Str(text))
}

/// A text part for the Responses API.
pub fn text_part(role: &str, text: &str) -> (r: Json)
    ensures
        r@ == text_part_v(role@, text@),
{
    let mut o = Json::object();
    if str_eq(role, "assistant") {
        o.set("type", Json::string("output_text"));
    } else {
        o.set("type", Json::string("input_text"));
    }
    o.set("text", Json::string(text));
    o
}

/// A value as tool output text: a string as it is, anything else as its
/// JSON text, a missing value as `null`.
pub open spec fn output_text_v(o: Option<JsonV>) -> Seq<char> {
    match o {
        Some(JsonV::Str(s)) => s,
        Some(v) => json_text(v),
        None => "null"@,
    }
}

/// Tool output text of an optional value.
pub fn output_text(o: Option<&Json>) -> (r: String)
    ensures
        r@ == output_text_v(ref_view(o)),
{
    match o {
        Some(v) => match v.as_str() {
            Some(s) => to_owned(s),
            None => v.to_text(),
        },
        None => to_owned("null"),
    }
}

/// Whether a part type is one of the text part types.
pub open spec fn is_text_type(t: Seq<char>) -> bool {
    t == "text"@ || t == "input_text"@ || t == "output_text"@
}

fn is_text_type_exec(t: &str) -> (r: bool)
    ensures
        r == is_text_type(t@),
{
    str_eq(t, "text") || str_eq(t, "input_text") || str_eq(t, "output_text")
}

// ──────── Chat Completions → Responses ────────

/// One Chat tool as a Responses tool: a `function` tool is flattened, other
/// tools stay as they are; tools without a string `type`, or whose result has
/// no string `name`, are dropped.
pub open spec fn chat_tool_to_responses(t: JsonV) -> Option<JsonV> {
    match t.get_str("type"@) {
        None => None,
        Some(ty) => {
            let r = if ty == "function"@ && t.get("function"@) is Some {
                let f = t.get("function"@)->0;
                match f.get("name"@) {
                    None => None,
                    Some(n) => Some(
                        empty_obj().set("type"@, JsonV::Str("function"@)).set("name"@, n).set(
                            "description"@,
                            or_null(f.get("description"@)),
                        ).set("parameters"@, or_null(f.get("parameters"@))),
                    ),
                }
            } else {
                Some(t)
            };
            match r {
                Some(x) => if x.get("name"@) matches Some(JsonV::Str(_)) {
                    Some(x)
                } else {
                    None
                },
                None => None,
            }
        },
    }
}

/// The converted tools of a list, in order.
pub open spec fn chat_tools_to_responses_list(ts: Seq<JsonV>) -> Seq<JsonV>
    decreases ts.len(),
{
    if ts.len() == 0 {
        Seq::empty()
    } else {
        chat_tools_to_responses_list(ts.drop_last()) + opt_seq(chat_tool_to_responses(ts.last()))
    }
}

/// A tools array converted, or `None` where there is no array or nothing is
/// left of it.
pub open spec fn convert_tools_v(tools: Option<JsonV>) -> Option<JsonV> {
    match tools {
        Some(JsonV::Array(ts)) => {
            let out = chat_tools_to_responses_list(ts);
            if out.len() == 0 {
                None
            } else {
                Some(JsonV::Array(out))
            }
        },
        _ => None,
    }
}

fn chat_tool_to_responses_exec(t: &Json) -> (r: Option<Json>)
    ensures
        opt_json_view(r) == chat_tool_to_responses(t@),
{
    let ty = match t.get_str("type") {
        None => return None,
        Some(ty) => ty,
    };
    let r = if str_eq(ty, "function") && t.get("function").is_some() {
        let f = t.get("function").unwrap();
        match f.get("name") {
            None => None,
            Some(n) => {
                let mut o = Json::object();
                o.set("type", Json::string("function"));
                o.set("name", n.copy());
                o.set("description", f.member_or_null("description"));
                o.set("parameters", f.member_or_null("parameters"));
                Some(o)
            },
        }
    } else {
        Some(t.copy())
    };
    match r {
        Some(x) => {
            let keep = match x.get("name") {
                Some(n) => n.is_string(),
                None => false,
            };
            if keep {
                Some(x)
            } else {
                None
            }
        },
        None => None,
    }
}

/// `convert_tools`: Chat tools to Responses tools.
pub fn convert_tools(tools: Option<&Json>) -> (r: Option<Json>)
    ensures
        opt_json_view(r) == convert_tools_v(ref_view(tools)),
{
    let arr = match tools {
        Some(t) => match t.as_array() {
            Some(a) => a,
            None => return None,
        },
        None => return None,
    };
    let ghost tv = arr@.map_values(|j: Json| j@);
    let mut out: Vec<Json> = Vec::new();
    let mut i: usize = 0;
    assert(tv.take(0) =~= Seq::<JsonV>::empty());
    while i < arr.len()
        invariant
            i <= arr@.len(),
            tv == arr@.map_values(|j: Json| j@),
            out@.map_values(|j: Json| j@) == chat_tools_to_responses_list(tv.take(i as int)),
        decreases arr@.len() - i,
    {
        assert(tv.take(i as int + 1).drop_last() =~= tv.take(i as int));
        let c = chat_tool_to_responses_exec(&arr[i]);
        match c {
            Some(x) => {
                out.push(x);
            },
            None => {},
        }
        assert(out@.map_values(|j: Json| j@) =~= chat_tools_to_responses_list(
            tv.take(i as int + 1),
        ));
        i = i + 1;
    }
    assert(tv.take(arr@.len() as int) =~= tv);
    if out.len() == 0 {
        None
    } else {
        Some(Json::array(out))
    }
}

/// The text parts of an assistant message's part list (parts of a text type;
/// parts without a string `type` are dropped).
pub open spec fn assistant_parts_list(list: Seq<JsonV>, role: Seq<char>) -> Seq<JsonV>
    decreases list.len(),
{
    if list.len() == 0 {
        Seq::empty()
    } else {
        let p = list.last();
        assistant_parts_list(list.drop_last(), role) + match p.get_str("type"@) {
            Some(ty) => if is_text_type(ty) {
                seq![text_part_v(role, p.str_or("text"@, ""@))]
            } else {
                Seq::empty()
            },
            None => Seq::empty(),
        }
    }
}

/// One converted part of a plain message: text parts become text parts,
/// `image_url` parts keep their URL, other parts are dropped.
pub open spec fn message_part_v(p: JsonV, role: Seq<char>) -> Option<JsonV> {
    match p.get_str("type"@) {
        Some(ty) => if is_text_type(ty) {
            Some(text_part_v(role, p.str_or("text"@, ""@)))
        } else if ty == "image_url"@ {
            Some(
                empty_obj().set("type"@, JsonV::Str("image_url"@)).set(
                    "image_url"@,
                    empty_obj().set(
                        "url"@,
                        JsonV::Str(
                            match p.get("image_url"@) {
                                Some(iu) => iu.str_or("url"@, ""@),
                                None => ""@,
                            },
                        ),
                    ),
                ),
            )
        } else {
            None
        },
        None => None,
    }
}

/// The converted parts of a plain message.
pub open spec fn message_parts_list(list: Seq<JsonV>, role: Seq<char>) -> Seq<JsonV>
    decreases list.len(),
{
    if list.len() == 0 {
        Seq::empty()
    } else {
        message_parts_list(list.drop_last(), role) + opt_seq(message_part_v(list.last(), role))
    }
}

/// One `function_call` item of a Chat tool call.
pub open spec fn tool_call_item_v(tc: JsonV) -> JsonV {
    let f = match tc.get("function"@) {
        Some(f) => f,
        None => empty_obj(),
    };
    empty_obj().set("type"@, JsonV::Str("function_call"@)).set(
        "call_id"@,
        JsonV::Str(tc.str_or("id"@, ""@)),
    ).set("name"@, JsonV::Str(f.str_or("name"@, ""@))).set(
        "arguments"@,
        JsonV::Str(f.str_or("arguments"@, "{}"@)),
    )
}

/// The `function_call` items of a list of tool calls.
pub open spec fn tool_call_items_list(tcs: Seq<JsonV>) -> Seq<JsonV>
    decreases tcs.len(),
{
    if tcs.len() == 0 {
        Seq::empty()
    } else {
        tool_call_items_list(tcs.drop_last()) + seq![tool_call_item_v(tcs.last())]
    }
}

/// The Responses input items of one Chat message:
/// - a `tool` message is a `function_call_output`;
/// - an assistant message with `tool_calls` is its text (if any) as a message,
///   then one `function_call` per call;
/// - any other message is a message with its content converted.
pub open spec fn chat_message_items(m: JsonV) -> Seq<JsonV> {
    let role = m.str_or("role"@, ""@);
    let content = m.get("content"@);
    if role == "tool"@ {
        seq![
            empty_obj().set("type"@, JsonV::Str("function_call_output"@)).set(
                "call_id"@,
                JsonV::Str(m.str_or("tool_call_id"@, ""@)),
            ).set("output"@, JsonV::Str(output_text_v(content))),
        ]
    } else if role == "assistant"@ && m.get("tool_calls"@) is Some {
        let parts = match content {
            Some(JsonV::Str(s)) => if s.len() > 0 {
                seq![text_part_v(role, s)]
            } else {
                Seq::empty()
            },
            Some(JsonV::Array(list)) => assistant_parts_list(list, role),
            _ => Seq::empty(),
        };
        let msg = if parts.len() > 0 {
            seq![
                empty_obj().set("type"@, JsonV::Str("message"@)).set(
                    "role"@,
                    JsonV::Str("assistant"@),
                ).set("content"@, JsonV::Array(parts)),
            ]
        } else {
            Seq::empty()
        };
        let calls = match m.get("tool_calls"@)->0 {
            JsonV::Array(tcs) => tool_call_items_list(tcs),
            _ => Seq::empty(),
        };
        msg + calls
    } else {
        let converted = match content {
            Some(JsonV::Array(list)) => JsonV::Array(message_parts_list(list, role)),
            Some(v) => v,
            None => JsonV::Null,
        };
        seq![
            empty_obj().set("type"@, JsonV::Str("message"@)).set("role"@, JsonV::Str(role)).set(
                "content"@,
                converted,
            ),
        ]
    }
}

/// The items of all messages, in order.
pub open spec fn chat_messages_items(ms: Seq<JsonV>) -> Seq<JsonV>
    decreases ms.len(),
{
    if ms.len() == 0 {
        Seq::empty()
    } else {
        chat_messages_items(ms.drop_last()) + chat_message_items(ms.last())
    }
}

/// `convert_messages`: the input items of a Chat message list (none where it
/// is not an array).
pub open spec fn convert_messages_v(messages: JsonV) -> Seq<JsonV> {
    match messages {
        JsonV::Array(ms) => chat_messages_items(ms),
        _ => Seq::empty(),
    }
}

fn assistant_parts(list: &Vec<Json>, role: &str) -> (r: Vec<Json>)
    ensures
        r@.map_values(|j: Json| j@) == assistant_parts_list(list@.map_values(|j: Json| j@), role@),
{
    let ghost lv = list@.map_values(|j: Json| j@);
    let mut out: Vec<Json> = Vec::new();
    let mut i: usize = 0;
    assert(lv.take(0) =~= Seq::<JsonV>::empty());
    while i < list.len()
        invariant
            i <= list@.len(),
            lv == list@.map_values(|j: Json| j@),
            out@.map_values(|j: Json| j@) == assistant_parts_list(lv.take(i as int), role@),
        decreases list@.len() - i,
    {
        assert(lv.take(i as int + 1).drop_last() =~= lv.take(i as int));
        let p = &list[i];
        match p.get_str("type") {
            Some(ty) => {
                if is_text_type_exec(ty) {
                    out.push(text_part(role, p.str_or("text", "")));
                }
            },
            None => {},
        }
        assert(out@.map_values(|j: Json| j@) =~= assistant_parts_list(lv.take(i as int + 1), role@));
        i = i + 1;
    }
    assert(lv.take(list@.len() as int) =~= lv);
    out
}

fn message_part(p: &Json, role: &str) -> (r: Option<Json>)
    ensures
        opt_json_view(r) == message_part_v(p@, role@),
{
    match p.get_str("type") {
        Some(ty) => {
            if is_text_type_exec(ty) {
                Some(text_part(role, p.str_or("text", "")))
            } else if str_eq(ty, "image_url") {
                let url = match p.get("image_url") {
                    Some(iu) => iu.str_or("url", ""),
                    None => "",
                };
                let mut inner = Json::object();
                inner.set("url", Json::string(url));
                let mut o = Json::object();
                o.set("type", Json::string("image_url"));
                o.set("image_url", inner);
                Some(o)
            } else {
                None
            }
        },
        None => None,
    }
}

fn message_parts(list: &Vec<Json>, role: &str) -> (r: Vec<Json>)
    ensures
        r@.map_values(|j: Json| j@) == message_parts_list(list@.map_values(|j: Json| j@), role@),
{
    let ghost lv = list@.map_values(|j: Json| j@);
    let mut out: Vec<Json> = Vec::new();
    let mut i: usize = 0;
    assert(lv.take(0) =~= Seq::<JsonV>::empty());
    while i < list.len()
        invariant
            i <= list@.len(),
            lv == list@.map_values(|j: Json| j@),
            out@.map_values(|j: Json| j@) == message_parts_list(lv.take(i as int), role@),
        decreases list@.len() - i,
    {
        assert(lv.take(i as int + 1).drop_last() =~= lv.take(i as int));
        match message_part(&list[i], role) {
            Some(x) => out.push(x),
            None => {},
        }
        assert(out@.map_values(|j: Json| j@) =~= message_parts_list(lv.take(i as int + 1), role@));
        i = i + 1;
    }
    assert(lv.take(list@.len() as int) =~= lv);
    out
}

fn tool_call_item(tc: &Json) -> (r: Json)
    ensures
        r@ == tool_call_item_v(tc@),
{
    let empty = Json::object();
    let f = match tc.get("function") {
        Some(f) => f,
        None => &empty,
    };
    let mut o = Json::object();
    o.set("type", Json::string("function_call"));
    o.set("call_id", Json::string(tc.str_or("id", "")));
    o.set("name", Json::string(f.str_or("name", "")));
    o.set("arguments", Json::string(f.str_or("arguments", "{}")));
    o
}

/// Appends the items of one Chat message.
fn push_chat_message_items(m: &Json, items: &mut Vec<Json>)
    ensures
        final(items)@.map_values(|j: Json| j@) == old(items)@.map_values(|j: Json| j@)
            + chat_message_items(m@),
{
    let ghost before = items@.map_values(|j: Json| j@);
    let role = m.str_or("role", "");
    let content = m.get("content");
    if str_eq(role, "tool") {
        let mut o = Json::object();
        o.set("type", Json::string("function_call_output"));
        o.set("call_id", Json::string(m.str_or("tool_call_id", "")));
        o.set("output", Json::from_string(output_text(content)));
        items.push(o);
        assert(items@.map_values(|j: Json| j@) =~= before + chat_message_items(m@));
        return;
    }
    if str_eq(role, "assistant") && m.get("tool_calls").is_some() {
        let parts: Vec<Json> = match content {
            Some(c) => match c {
                Json::Str(s) => {
                    let mut v: Vec<Json> = Vec::new();
                    if s.unicode_len() > 0 {
                        v.push(text_part(role, s.as_str()));
                    }
                    v
                },
                Json::Array(list) => {
                    proof {
                        Json::lemma_array_elements(*list);
                    }
                    assistant_parts(list, role)
                },
                _ => Vec::new(),
            },
            None => Vec::new(),
        };
        let ghost pv = parts@.map_values(|j: Json| j@);
        assert(pv == match m@.get("content"@) {
            Some(JsonV::Str(s)) => if s.len() > 0 {
                seq![text_part_v(role@, s)]
            } else {
                Seq::empty()
            },
            Some(JsonV::Array(list)) => assistant_parts_list(list, role@),
            _ => Seq::empty(),
        }) by {
            match content {
                Some(c) => match c {
                    Json::Str(s) => {
                        if s@.len() > 0 {
                            assert(pv =~= seq![text_part_v(role@, s@)]);
                        } else {
                            assert(pv =~= Seq::<JsonV>::empty());
                        }
                    },
                    Json::Array(list) => {},
                    _ => {
                        assert(pv =~= Seq::<JsonV>::empty());
                    },
                },
                None => {
                    assert(pv =~= Seq::<JsonV>::empty());
                },
            }
        }
        if parts.len() > 0 {
            let mut o = Json::object();
            o.set("type", Json::string("message"));
            o.set("role", Json::string("assistant"));
            o.set("content", Json::array(parts));
            items.push(o);
        }
        let ghost mid = items@.map_values(|j: Json| j@);
        assert(mid == before + (if pv.len() > 0 {
            seq![
                empty_obj().set("type"@, JsonV::Str("message"@)).set(
                    "role"@,
                    JsonV::Str("assistant"@),
                ).set("content"@, JsonV::Array(pv)),
            ]
        } else {
            Seq::<JsonV>::empty()
        }));
        let tcs = m.get("tool_calls").unwrap();
        match tcs.as_array() {
            Some(list) => {
                let ghost lv = list@.map_values(|j: Json| j@);
                let mut i: usize = 0;
                assert(lv.take(0) =~= Seq::<JsonV>::empty());
                assert(mid =~= mid + tool_call_items_list(lv.take(0)));
                while i < list.len()
                    invariant
                        i <= list@.len(),
                        lv == list@.map_values(|j: Json| j@),
                        items@.map_values(|j: Json| j@) == mid + tool_call_items_list(
                            lv.take(i as int),
                        ),
                    decreases list@.len() - i,
                {
                    assert(lv.take(i as int + 1).drop_last() =~= lv.take(i as int));
                    assert(lv.take(i as int + 1).last() == list@[i as int]@);
                    let ghost cur = items@.map_values(|j: Json| j@);
                    let it = tool_call_item(&list[i]);
                    let ghost itv = it@;
                    items.push(it);
                    assert(items@.map_values(|j: Json| j@) =~= cur.push(itv));
                    assert(items@.map_values(|j: Json| j@) =~= mid + tool_call_items_list(
                        lv.take(i as int + 1),
                    ));
                    i = i + 1;
                }
                assert(lv.take(list@.len() as int) =~= lv);
            },
            None => {
                assert(mid =~= mid + Seq::<JsonV>::empty());
            },
        }
        assert(items@.map_values(|j: Json| j@) =~= before + chat_message_items(m@));
        return;
    }
    let converted = match content {
        Some(c) => match c {
            Json::Array(list) => {
                proof {
                    Json::lemma_array_elements(*list);
                }
                Json::array(message_parts(list, role))
            },
            _ => c.copy(),
        },
        None => Json::null(),
    };
    let mut o = Json::object();
    o.set("type", Json::string("message"));
    o.set("role", Json::string(role));
    o.set("content", converted);
    items.push(o);
    assert(items@.map_values(|j: Json| j@) =~= before + chat_message_items(m@));
}

/// `convert_messages`: Chat messages to Responses input items.
pub fn convert_messages(messages: &Json) -> (r: Vec<Json>)
    ensures
        r@.map_values(|j: Json| j@) == convert_messages_v(messages@),
{
    let mut items: Vec<Json> = Vec::new();
    let arr = match messages.as_array() {
        Some(a) => a,
        None => {
            assert(items@.map_values(|j: Json| j@) =~= Seq::<JsonV>::empty());
            return items;
        },
    };
    let ghost mv = arr@.map_values(|j: Json| j@);
    let mut i: usize = 0;
    assert(mv.take(0) =~= Seq::<JsonV>::empty());
    assert(items@.map_values(|j: Json| j@) =~= Seq::<JsonV>::empty());
    while i < arr.len()
        invariant
            i <= arr@.len(),
            mv == arr@.map_values(|j: Json| j@),
            items@.map_values(|j: Json| j@) == chat_messages_items(mv.take(i as int)),
        decreases arr@.len() - i,
    {
        assert(mv.take(i as int + 1).drop_last() =~= mv.take(i as int));
        push_chat_message_items(&arr[i], &mut items);
        i = i + 1;
    }
    assert(mv.take(arr@.len() as int) =~= mv);
    items
}

/// Sampling settings copied as they are.
pub open spec fn copy_sampling(payload: JsonV, body: JsonV) -> JsonV {
    set_opt(set_opt(payload, "temperature"@, body.get("temperature"@)), "top_p"@, body.get("top_p"@))
}

/// `model` forced to the override where one is set.
pub open spec fn apply_override(payload: JsonV, model_override: Seq<char>) -> JsonV {
    if model_override.len() > 0 {
        payload.set("model"@, JsonV::Str(model_override))
    } else {
        payload
    }
}

/// The first of two optional values that is present.
pub open spec fn or_else(a: Option<JsonV>, b: Option<JsonV>) -> Option<JsonV> {
    match a {
        Some(x) => Some(x),
        None => b,
    }
}

/// The Responses payload for a Chat Completions request.
pub open spec fn chat_to_responses_payload_v(
    body: JsonV,
    stream: bool,
    model_override: Seq<char>,
) -> JsonV {
    let p0 = empty_obj().set(
        "input"@,
        JsonV::Array(convert_messages_v(or_null(body.get("messages"@)))),
    ).set("stream"@, JsonV::Bool(stream));
    let p1 = set_opt(p0, "model"@, body.get("model"@));
    let p2 = set_opt(p1, "tools"@, convert_tools_v(body.get("tools"@)));
    let p3 = copy_sampling(p2, body);
    let p4 = set_opt(
        p3,
        "max_output_tokens"@,
        or_else(body.get("max_tokens"@), body.get("max_completion_tokens"@)),
    );
    let p5 = match body.get_str("reasoning_effort"@) {
        Some(r) => p4.set(
            "reasoning_effort"@,
            JsonV::Str(
                if r == "none"@ {
                    "high"@
                } else {
                    r
                },
            ),
        ),
        None => p4,
    };
    apply_override(p5, model_override)
}

/// Copies `temperature` and `top_p` where the body has them.
fn copy_sampling_exec(payload: &mut Json, body: &Json)
    requires
        old(payload)@ is Object,
    ensures
        final(payload)@ == copy_sampling(old(payload)@, body@),
        final(payload)@ is Object,
{
    payload.set_opt("temperature", copy_ref(body.get("temperature")));
    payload.set_opt("top_p", copy_ref(body.get("top_p")));
}

/// Forces `model` to the override where one is set.
fn apply_override_exec(payload: &mut Json, model_override: &str)
    requires
        old(payload)@ is Object,
    ensures
        final(payload)@ == apply_override(old(payload)@, model_override@),
        final(payload)@ is Object,
{
    if model_override.unicode_len() > 0 {
        payload.set("model", Json::string(model_override));
    }
}

/// A copy of an optional value.
pub fn copy_ref(o: Option<&Json>) -> (r: Option<Json>)
    ensures
        opt_json_view(r) == ref_view(o),
{
    match o {
        Some(v) => Some(v.copy()),
        None => None,
    }
}

/// `chat_to_responses_payload`: a Chat Completions request as a Responses
/// request.
pub fn chat_to_responses_payload(chat_body: &Json, stream: bool, model_override: &str) -> (r: Json)
    ensures
        r@ == chat_to_responses_payload_v(chat_body@, stream, model_override@),
{
    let null = Json::null();
    let messages = match chat_body.get("messages") {
        Some(m) => m,
        None => &null,
    };
    let mut payload = Json::object();
    payload.set("input", Json::array(convert_messages(messages)));
    payload.set("stream", Json::boolean(stream));
    payload.set_opt("model", copy_ref(chat_body.get("model")));
    payload.set_opt("tools", convert_tools(chat_body.get("tools")));
    copy_sampling_exec(&mut payload, chat_body);
    let mt = match chat_body.get("max_tokens") {
        Some(v) => Some(v),
        None => chat_body.get("max_completion_tokens"),
    };
    payload.set_opt("max_output_tokens", copy_ref(mt));
    match chat_body.get_str("reasoning_effort") {
        Some(r) => {
            if str_eq(r, "none") {
                payload.set("reasoning_effort", Json::string("high"));
            } else {
                payload.set("reasoning_effort", Json::string(r));
            }
        },
        None => {},
    }
    apply_override_exec(&mut payload, model_override);
    payload
}

// ──────── Anthropic Messages → Responses ────────

/// The `text` strings of a block list, in order (blocks without one skipped).
pub open spec fn block_texts(blocks: Seq<JsonV>) -> Seq<Seq<char>>
    decreases blocks.len(),
{
    if blocks.len() == 0 {
        Seq::empty()
    } else {
        block_texts(blocks.drop_last()) + match blocks.last().get_str("text"@) {
            Some(t) => seq![t],
            None => Seq::empty(),
        }
    }
}

/// Anthropic content as plain text: a string as it is, a block list as its
/// block texts joined by newlines, anything else empty.
pub open spec fn anthropic_content_to_text_v(content: Option<JsonV>) -> Seq<char> {
    match content {
        Some(JsonV::Str(s)) => s,
        Some(JsonV::Array(blocks)) => join_spec(block_texts(blocks), "\n"@),
        _ => Seq::empty(),
    }
}

/// The `text` strings of a block list.
fn collect_block_texts(blocks: &Vec<Json>) -> (r: Vec<String>)
    ensures
        r@.map_values(|p: String| p@) == block_texts(blocks@.map_values(|j: Json| j@)),
{
    let ghost bv = blocks@.map_values(|j: Json| j@);
    let mut out: Vec<String> = Vec::new();
    let mut i: usize = 0;
    assert(bv.take(0) =~= Seq::<JsonV>::empty());
    while i < blocks.len()
        invariant
            i <= blocks@.len(),
            bv == blocks@.map_values(|j: Json| j@),
            out@.map_values(|p: String| p@) == block_texts(bv.take(i as int)),
        decreases blocks@.len() - i,
    {
        assert(bv.take(i as int + 1).drop_last() =~= bv.take(i as int));
        match blocks[i].get_str("text") {
            Some(t) => out.push(to_owned(t)),
            None => {},
        }
        assert(out@.map_values(|p: String| p@) =~= block_texts(bv.take(i as int + 1)));
        i = i + 1;
    }
    assert(bv.take(blocks@.len() as int) =~= bv);
    out
}

/// `anthropic_content_to_text`.
pub fn anthropic_content_to_text(content: Option<&Json>) -> (r: String)
    ensures
        r@ == anthropic_content_to_text_v(ref_view(content)),
{
    match content {
        Some(c) => match c {
            Json::Str(s) => s.clone(),
            Json::Array(blocks) => {
                proof {
                    Json::lemma_array_elements(*blocks);
                }
                join(&collect_block_texts(blocks), "\n")
            },
            _ => empty_string(),
        },
        None => empty_string(),
    }
}

/// One Anthropic tool as a Responses function tool (dropped without a string
/// `name`).
pub open spec fn anthropic_tool_v(t: JsonV) -> Option<JsonV> {
    match t.get("name"@) {
        None => None,
        Some(n) => if n is Str {
            Some(
                empty_obj().set("type"@, JsonV::Str("function"@)).set("name"@, n).set(
                    "description"@,
                    or_null(t.get("description"@)),
                ).set("parameters"@, or_null(t.get("input_schema"@))),
            )
        } else {
            None
        },
    }
}

/// The converted tools of a list.
pub open spec fn anthropic_tools_list(ts: Seq<JsonV>) -> Seq<JsonV>
    decreases ts.len(),
{
    if ts.len() == 0 {
        Seq::empty()
    } else {
        anthropic_tools_list(ts.drop_last()) + opt_seq(anthropic_tool_v(ts.last()))
    }
}

/// `anthropic_tools`: the converted tools, `None` where nothing is left.
pub open spec fn anthropic_tools_v(tools: Option<JsonV>) -> Option<JsonV> {
    match tools {
        Some(JsonV::Array(ts)) => {
            let out = anthropic_tools_list(ts);
            if out.len() == 0 {
                None
            } else {
                Some(JsonV::Array(out))
            }
        },
        _ => None,
    }
}

/// `anthropic_tools`.
pub fn anthropic_tools(tools: Option<&Json>) -> (r: Option<Json>)
    ensures
        opt_json_view(r) == anthropic_tools_v(ref_view(tools)),
{
    let arr = match tools {
        Some(t) => match t.as_array() {
            Some(a) => a,
            None => return None,
        },
        None => return None,
    };
    let ghost tv = arr@.map_values(|j: Json| j@);
    let mut out: Vec<Json> = Vec::new();
    let mut i: usize = 0;
    assert(tv.take(0) =~= Seq::<JsonV>::empty());
    while i < arr.len()
        invariant
            i <= arr@.len(),
            tv == arr@.map_values(|j: Json| j@),
            out@.map_values(|j: Json| j@) == anthropic_tools_list(tv.take(i as int)),
        decreases arr@.len() - i,
    {
        assert(tv.take(i as int + 1).drop_last() =~= tv.take(i as int));
        let t = &arr[i];
        match t.get("name") {
            Some(n) => {
                if n.is_string() {
                    let mut o = Json::object();
                    o.set("type", Json::string("function"));
                    o.set("name", n.copy());
                    o.set("description", t.member_or_null("description"));
                    o.set("parameters", t.member_or_null("input_schema"));
                    out.push(o);
                }
            },
            None => {},
        }
        assert(out@.map_values(|j: Json| j@) =~= anthropic_tools_list(tv.take(i as int + 1)));
        i = i + 1;
    }
    assert(tv.take(arr@.len() as int) =~= tv);
    if out.len() == 0 {
        None
    } else {
        Some(Json::array(out))
    }
}

/// `{"type": "message", "role": role, "content": [text part]}`.
pub open spec fn anthropic_message_item_v(role: Seq<char>, text: Seq<char>) -> JsonV {
    empty_obj().set("type"@, JsonV::Str("message"@)).set("role"@, JsonV::Str(role)).set(
        "content"@,
        JsonV::Array(seq![text_part_v(role, text)]),
    )
}

/// `anthropic_message_item`.
pub fn anthropic_message_item(role: &str, text: &str) -> (r: Json)
    ensures
        r@ == anthropic_message_item_v(role@, text@),
{
    let mut parts: Vec<Json> = Vec::new();
    parts.push(text_part(role, text));
    let ghost pv = parts@.map_values(|j: Json| j@);
    assert(pv =~= seq![text_part_v(role@, text@)]);
    let mut o = Json::object();
    o.set("type", Json::string("message"));
    o.set("role", Json::string(role));
    o.set("content", Json::array(parts));
    o
}

/// `v[k1][k2]` as a string, `d` where any step is missing.
pub open spec fn path_str_or(v: JsonV, k1: Seq<char>, k2: Seq<char>, d: Seq<char>) -> Seq<char> {
    match v.get(k1) {
        Some(x) => x.str_or(k2, d),
        None => d,
    }
}

fn path_str_or_exec<'a>(v: &'a Json, k1: &str, k2: &str, d: &'a str) -> (r: &'a str)
    ensures
        r@ == path_str_or(v@, k1@, k2@, d@),
{
    match v.get(k1) {
        Some(x) => x.str_or(k2, d),
        None => d,
    }
}

/// The member `k`, or an empty object where it is missing.
pub open spec fn or_empty_obj(o: Option<JsonV>) -> JsonV {
    match o {
        Some(v) => v,
        None => empty_obj(),
    }
}

/// The Responses item of one Anthropic content block of a message with `role`.
pub open spec fn anthropic_block_item(b: JsonV, role: Seq<char>) -> Option<JsonV> {
    let ty = b.str_or("type"@, ""@);
    if ty == "text"@ {
        let text = b.str_or("text"@, ""@);
        if text.len() > 0 {
            Some(anthropic_message_item_v(role, text))
        } else {
            None
        }
    } else if ty == "image"@ {
        let media = path_str_or(b, "source"@, "media_type"@, "image/png"@);
        let data = path_str_or(b, "source"@, "data"@, ""@);
        if data.len() > 0 {
            Some(
                empty_obj().set("type"@, JsonV::Str("message"@)).set("role"@, JsonV::Str(role)).set(
                    "content"@,
                    JsonV::Array(
                        seq![
                            empty_obj().set("type"@, JsonV::Str("input_image"@)).set(
                                "image_url"@,
                                JsonV::Str("data:"@ + media + ";base64,"@ + data),
                            ),
                        ],
                    ),
                ),
            )
        } else {
            None
        }
    } else if ty == "tool_use"@ {
        Some(
            empty_obj().set("type"@, JsonV::Str("function_call"@)).set(
                "call_id"@,
                JsonV::Str(b.str_or("id"@, ""@)),
            ).set("name"@, JsonV::Str(b.str_or("name"@, ""@))).set(
                "arguments"@,
                JsonV::Str(json_text(or_empty_obj(b.get("input"@)))),
            ),
        )
    } else if ty == "tool_result"@ {
        Some(
            empty_obj().set("type"@, JsonV::Str("function_call_output"@)).set(
                "call_id"@,
                JsonV::Str(b.str_or("tool_use_id"@, ""@)),
            ).set("output"@, JsonV::Str(output_text_v(b.get("content"@)))),
        )
    } else {
        None
    }
}

/// The items of a block list.
pub open spec fn anthropic_block_items_list(blocks: Seq<JsonV>, role: Seq<char>) -> Seq<JsonV>
    decreases blocks.len(),
{
    if blocks.len() == 0 {
        Seq::empty()
    } else {
        anthropic_block_items_list(blocks.drop_last(), role) + opt_seq(
            anthropic_block_item(blocks.last(), role),
        )
    }
}

/// The Responses items of one Anthropic message (role `user` by default).
pub open spec fn anthropic_message_items(m: JsonV) -> Seq<JsonV> {
    let role = m.str_or("role"@, "user"@);
    match m.get("content"@) {
        Some(JsonV::Str(s)) => if s.len() > 0 {
            seq![anthropic_message_item_v(role, s)]
        } else {
            Seq::empty()
        },
        Some(JsonV::Array(blocks)) => anthropic_block_items_list(blocks, role),
        _ => Seq::empty(),
    }
}

/// The items of all messages.
pub open spec fn anthropic_messages_items(ms: Seq<JsonV>) -> Seq<JsonV>
    decreases ms.len(),
{
    if ms.len() == 0 {
        Seq::empty()
    } else {
        anthropic_messages_items(ms.drop_last()) + anthropic_message_items(ms.last())
    }
}

/// The Responses payload for an Anthropic Messages request: the system text
/// (if not empty) as a system message, then the items of every message.
pub open spec fn anthropic_to_responses_payload_v(
    body: JsonV,
    stream: bool,
    model_override: Seq<char>,
) -> JsonV {
    let sys_items = match body.get("system"@) {
        Some(sys) => {
            let text = anthropic_content_to_text_v(Some(sys));
            if text.len() > 0 {
                seq![anthropic_message_item_v("system"@, text)]
            } else {
                Seq::empty()
            }
        },
        None => Seq::empty(),
    };
    let msg_items = match body.get("messages"@) {
        Some(JsonV::Array(ms)) => anthropic_messages_items(ms),
        _ => Seq::empty(),
    };
    let p0 = empty_obj().set("input"@, JsonV::Array(sys_items + msg_items)).set(
        "stream"@,
        JsonV::Bool(stream),
    );
    let p1 = set_opt(p0, "model"@, body.get("model"@));
    let p2 = set_opt(p1, "tools"@, anthropic_tools_v(body.get("tools"@)));
    let p3 = copy_sampling(p2, body);
    let p4 = set_opt(p3, "max_output_tokens"@, body.get("max_tokens"@));
    apply_override(p4, model_override)
}

fn anthropic_block_item_exec(b: &Json, role: &str) -> (r: Option<Json>)
    ensures
        opt_json_view(r) == anthropic_block_item(b@, role@),
{
    let ty = b.str_or("type", "");
    if str_eq(ty, "text") {
        let text = b.str_or("text", "");
        if text.unicode_len() > 0 {
            Some(anthropic_message_item(role, text))
        } else {
            None
        }
    } else if str_eq(ty, "image") {
        let media = path_str_or_exec(b, "source", "media_type", "image/png");
        let data = path_str_or_exec(b, "source", "data", "");
        if data.unicode_len() > 0 {
            let mut url = to_owned("data:");
            push_str(&mut url, media);
            push_str(&mut url, ";base64,");
            push_str(&mut url, data);
            let mut img = Json::object();
            img.set("type", Json::string("input_image"));
            img.set("image_url", Json::from_string(url));
            let mut parts: Vec<Json> = Vec::new();
            let ghost iv = img@;
            parts.push(img);
            assert(parts@.map_values(|j: Json| j@) =~= seq![iv]);
            let mut o = Json::object();
            o.set("type", Json::string("message"));
            o.set("role", Json::string(role));
            o.set("content", Json::array(parts));
            Some(o)
        } else {
            None
        }
    } else if str_eq(ty, "tool_use") {
        let args = match b.get("input") {
            Some(v) => v.to_text(),
            None => Json::object().to_text(),
        };
        let mut o = Json::object();
        o.set("type", Json::string("function_call"));
        o.set("call_id", Json::string(b.str_or("id", "")));
        o.set("name", Json::string(b.str_or("name", "")));
        o.set("arguments", Json::from_string(args));
        Some(o)
    } else if str_eq(ty, "tool_result") {
        let mut o = Json::object();
        o.set("type", Json::string("function_call_output"));
        o.set("call_id", Json::string(b.str_or("tool_use_id", "")));
        o.set("output", Json::from_string(output_text(b.get("content"))));
        Some(o)
    } else {
        None
    }
}

/// Appends the items of one Anthropic message.
fn push_anthropic_message_items(m: &Json, items: &mut Vec<Json>)
    ensures
        final(items)@.map_values(|j: Json| j@) == old(items)@.map_values(|j: Json| j@)
            + anthropic_message_items(m@),
{
    let ghost before = items@.map_values(|j: Json| j@);
    let role = m.str_or("role", "user");
    match m.get("content") {
        Some(c) => match c {
            Json::Str(s) => {
                if s.unicode_len() > 0 {
                    items.push(anthropic_message_item(role, s.as_str()));
                }
                assert(items@.map_values(|j: Json| j@) =~= before + anthropic_message_items(m@));
            },
            Json::Array(blocks) => {
                proof {
                    Json::lemma_array_elements(*blocks);
                }
                let ghost bv = blocks@.map_values(|j: Json| j@);
                let mut i: usize = 0;
                assert(bv.take(0) =~= Seq::<JsonV>::empty());
                assert(before =~= before + anthropic_block_items_list(bv.take(0), role@));
                while i < blocks.len()
                    invariant
                        i <= blocks@.len(),
                        bv == blocks@.map_values(|j: Json| j@),
                        items@.map_values(|j: Json| j@) == before + anthropic_block_items_list(
                            bv.take(i as int),
                            role@,
                        ),
                    decreases blocks@.len() - i,
                {
                    assert(bv.take(i as int + 1).drop_last() =~= bv.take(i as int));
                    assert(bv.take(i as int + 1).last() == blocks@[i as int]@);
                    let ghost cur = items@.map_values(|j: Json| j@);
                    match anthropic_block_item_exec(&blocks[i], role) {
                        Some(x) => {
                            let ghost xv = x@;
                            items.push(x);
                            assert(items@.map_values(|j: Json| j@) =~= cur.push(xv));
                        },
                        None => {},
                    }
                    assert(items@.map_values(|j: Json| j@) =~= before + anthropic_block_items_list(
                        bv.take(i as int + 1),
                        role@,
                    ));
                    i = i + 1;
                }
                assert(bv.take(blocks@.len() as int) =~= bv);
            },
            _ => {
                assert(items@.map_values(|j: Json| j@) =~= before + anthropic_message_items(m@));
            },
        },
        None => {
            assert(items@.map_values(|j: Json| j@) =~= before + anthropic_message_items(m@));
        },
    }
}

/// `anthropic_to_responses_payload`: an Anthropic Messages request as a
/// Responses request.
pub fn anthropic_to_responses_payload(body: &Json, stream: bool, model_override: &str) -> (r: Json)
    ensures
        r@ == anthropic_to_responses_payload_v(body@, stream, model_override@),
{
    let mut items: Vec<Json> = Vec::new();
    match body.get("system") {
        Some(sys) => {
            let text = anthropic_content_to_text(Some(sys));
            if text.unicode_len() > 0 {
                items.push(anthropic_message_item("system", text.as_str()));
                assert(items@.map_values(|j: Json| j@) =~= seq![
                    anthropic_message_item_v("system"@, text@),
                ]);
            } else {
                assert(items@.map_values(|j: Json| j@) =~= Seq::<JsonV>::empty());
            }
        },
        None => {
            assert(items@.map_values(|j: Json| j@) =~= Seq::<JsonV>::empty());
        },
    }
    let ghost sys_items = items@.map_values(|j: Json| j@);
    match body.get("messages") {
        Some(msgs) => match msgs.as_array() {
            Some(arr) => {
                let ghost mv = arr@.map_values(|j: Json| j@);
                let mut i: usize = 0;
                assert(mv.take(0) =~= Seq::<JsonV>::empty());
                assert(sys_items =~= sys_items + anthropic_messages_items(mv.take(0)));
                while i < arr.len()
                    invariant
                        i <= arr@.len(),
                        mv == arr@.map_values(|j: Json| j@),
                        items@.map_values(|j: Json| j@) == sys_items + anthropic_messages_items(
                            mv.take(i as int),
                        ),
                    decreases arr@.len() - i,
                {
                    assert(mv.take(i as int + 1).drop_last() =~= mv.take(i as int));
                    push_anthropic_message_items(&arr[i], &mut items);
                    assert(items@.map_values(|j: Json| j@) =~= sys_items + anthropic_messages_items(
                        mv.take(i as int + 1),
                    ));
                    i = i + 1;
                }
                assert(mv.take(arr@.len() as int) =~= mv);
            },
            None => {
                assert(sys_items =~= sys_items + Seq::<JsonV>::empty());
            },
        },
        None => {
            assert(sys_items =~= sys_items + Seq::<JsonV>::empty());
        },
    }
    let mut payload = Json::object();
    payload.set("input", Json::array(items));
    payload.set("stream", Json::boolean(stream));
    payload.set_opt("model", copy_ref(body.get("model")));
    payload.set_opt("tools", anthropic_tools(body.get("tools")));
    copy_sampling_exec(&mut payload, body);
    payload.set_opt("max_output_tokens", copy_ref(body.get("max_tokens")));
    apply_override_exec(&mut payload, model_override);
    payload
}

// ──────── Responses → Chat Completions ────────

/// The texts of the text parts of a Responses message (parts without a string
/// `type` skipped).
pub open spec fn resp_part_texts(parts: Seq<JsonV>) -> Seq<Seq<char>>
    decreases parts.len(),
{
    if parts.len() == 0 {
        Seq::empty()
    } else {
        let p = parts.last();
        resp_part_texts(parts.drop_last()) + match p.get_str("type"@) {
            Some(ty) => if is_text_type(ty) {
                seq![p.str_or("text"@, ""@)]
            } else {
                Seq::empty()
            },
            None => Seq::empty(),
        }
    }
}

/// The text of a Responses message's content: its text parts concatenated,
/// or the string itself; `None` for other content.
pub open spec fn resp_message_text(content: Option<JsonV>) -> Option<Seq<char>> {
    match content {
        Some(JsonV::Array(parts)) => Some(join_spec(resp_part_texts(parts), ""@)),
        Some(JsonV::Str(s)) => Some(s),
        _ => None,
    }
}

fn resp_message_text_exec(content: Option<&Json>) -> (r: Option<String>)
    ensures
        match r {
            Some(t) => resp_message_text(ref_view(content)) == Some(t@),
            None => resp_message_text(ref_view(content)) is None,
        },
{
    match content {
        Some(c) => match c {
            Json::Array(parts) => {
                proof {
                    Json::lemma_array_elements(*parts);
                }
                let ghost pv = parts@.map_values(|j: Json| j@);
                let mut texts: Vec<String> = Vec::new();
                let mut i: usize = 0;
                assert(pv.take(0) =~= Seq::<JsonV>::empty());
                while i < parts.len()
                    invariant
                        i <= parts@.len(),
                        pv == parts@.map_values(|j: Json| j@),
                        texts@.map_values(|p: String| p@) == resp_part_texts(pv.take(i as int)),
                    decreases parts@.len() - i,
                {
                    assert(pv.take(i as int + 1).drop_last() =~= pv.take(i as int));
                    let p = &parts[i];
                    match p.get_str("type") {
                        Some(ty) => {
                            if is_text_type_exec(ty) {
                                texts.push(to_owned(p.str_or("text", "")));
                            }
                        },
                        None => {},
                    }
                    assert(texts@.map_values(|p: String| p@) =~= resp_part_texts(
                        pv.take(i as int + 1),
                    ));
                    i = i + 1;
                }
                assert(pv.take(parts@.len() as int) =~= pv);
                Some(join(&texts, ""))
            },
            Json::Str(s) => Some(s.clone()),
            _ => None,
        },
        None => None,
    }
}

/// `{"id": id, "type": "function", "function": {"name": name, "arguments": args}}`.
pub open spec fn chat_tool_call_v(id: Seq<char>, name: Seq<char>, args: Seq<char>) -> JsonV {
    empty_obj().set("id"@, JsonV::Str(id)).set("type"@, JsonV::Str("function"@)).set(
        "function"@,
        empty_obj().set("name"@, JsonV::Str(name)).set("arguments"@, JsonV::Str(args)),
    )
}

fn chat_tool_call(id: &str, name: &str, args: String) -> (r: Json)
    ensures
        r@ == chat_tool_call_v(id@, name@, args@),
{
    let mut f = Json::object();
    f.set("name", Json::string(name));
    f.set("arguments", Json::from_string(args));
    let mut o = Json::object();
    o.set("id", Json::string(id));
    o.set("type", Json::string("function"));
    o.set("function", f);
    o
}

/// The Chat message of one Responses input item (`None` for items that have
/// none).
pub open spec fn resp_item_to_chat(item: JsonV) -> Option<JsonV> {
    let ty = item.str_or("type"@, ""@);
    if ty == "message"@ {
        match resp_message_text(item.get("content"@)) {
            Some(text) => Some(
                empty_obj().set("role"@, JsonV::Str(item.str_or("role"@, "user"@))).set(
                    "content"@,
                    JsonV::Str(text),
                ),
            ),
            None => None,
        }
    } else if ty == "function_call"@ {
        Some(
            empty_obj().set("role"@, JsonV::Str("assistant"@)).set(
                "tool_calls"@,
                JsonV::Array(
                    seq![
                        chat_tool_call_v(
                            item.str_or("call_id"@, ""@),
                            item.str_or("name"@, ""@),
                            item.str_or("arguments"@, "{}"@),
                        ),
                    ],
                ),
            ),
        )
    } else if ty == "function_call_output"@ {
        Some(
            empty_obj().set("role"@, JsonV::Str("tool"@)).set(
                "tool_call_id"@,
                JsonV::Str(item.str_or("call_id"@, ""@)),
            ).set("content"@, JsonV::Str(item.str_or("output"@, ""@))),
        )
    } else {
        None
    }
}

/// The Chat messages of a list of Responses input items.
pub open spec fn resp_items_to_chat_list(items: Seq<JsonV>) -> Seq<JsonV>
    decreases items.len(),
{
    if items.len() == 0 {
        Seq::empty()
    } else {
        resp_items_to_chat_list(items.drop_last()) + opt_seq(resp_item_to_chat(items.last()))
    }
}

fn resp_item_to_chat_exec(item: &Json) -> (r: Option<Json>)
    ensures
        opt_json_view(r) == resp_item_to_chat(item@),
{
    let ty = item.str_or("type", "");
    if str_eq(ty, "message") {
        match resp_message_text_exec(item.get("content")) {
            Some(text) => {
                let mut o = Json::object();
                o.set("role", Json::string(item.str_or("role", "user")));
                o.set("content", Json::from_string(text));
                Some(o)
            },
            None => None,
        }
    } else if str_eq(ty, "function_call") {
        let tc = chat_tool_call(
            item.str_or("call_id", ""),
            item.str_or("name", ""),
            to_owned(item.str_or("arguments", "{}")),
        );
        let ghost tv = tc@;
        let mut calls: Vec<Json> = Vec::new();
        calls.push(tc);
        assert(calls@.map_values(|j: Json| j@) =~= seq![tv]);
        let mut o = Json::object();
        o.set("role", Json::string("assistant"));
        o.set("tool_calls", Json::array(calls));
        Some(o)
    } else if str_eq(ty, "function_call_output") {
        let mut o = Json::object();
        o.set("role", Json::string("tool"));
        o.set("tool_call_id", Json::string(item.str_or("call_id", "")));
        o.set("content", Json::string(item.str_or("output", "")));
        Some(o)
    } else {
        None
    }
}

/// `responses_items_to_chat_messages`.
pub fn responses_items_to_chat_messages(items: &Vec<Json>) -> (r: Vec<Json>)
    ensures
        r@.map_values(|j: Json| j@) == resp_items_to_chat_list(items@.map_values(|j: Json| j@)),
{
    let ghost iv = items@.map_values(|j: Json| j@);
    let mut out: Vec<Json> = Vec::new();
    let mut i: usize = 0;
    assert(iv.take(0) =~= Seq::<JsonV>::empty());
    while i < items.len()
        invariant
            i <= items@.len(),
            iv == items@.map_values(|j: Json| j@),
            out@.map_values(|j: Json| j@) == resp_items_to_chat_list(iv.take(i as int)),
        decreases items@.len() - i,
    {
        assert(iv.take(i as int + 1).drop_last() =~= iv.take(i as int));
        match resp_item_to_chat_exec(&items[i]) {
            Some(x) => out.push(x),
            None => {},
        }
        assert(out@.map_values(|j: Json| j@) =~= resp_items_to_chat_list(iv.take(i as int + 1)));
        i = i + 1;
    }
    assert(iv.take(items@.len() as int) =~= iv);
    out
}

/// One Responses tool as a Chat tool: only `function` tools with a string
/// `name` are kept.
pub open spec fn resp_tool_to_chat(t: JsonV) -> Option<JsonV> {
    match t.get_str("type"@) {
        Some(ty) => if ty == "function"@ {
            match t.get("name"@) {
                Some(n) => if n is Str {
                    Some(
                        empty_obj().set("type"@, JsonV::Str("function"@)).set(
                            "function"@,
                            empty_obj().set("name"@, n).set(
                                "description"@,
                                or_null(t.get("description"@)),
                            ).set("parameters"@, or_null(t.get("parameters"@))),
                        ),
                    )
                } else {
                    None
                },
                None => None,
            }
        } else {
            None
        },
        None => None,
    }
}

/// The converted tools of a list.
pub open spec fn resp_tools_to_chat_list(ts: Seq<JsonV>) -> Seq<JsonV>
    decreases ts.len(),
{
    if ts.len() == 0 {
        Seq::empty()
    } else {
        resp_tools_to_chat_list(ts.drop_last()) + opt_seq(resp_tool_to_chat(ts.last()))
    }
}

/// `responses_tools_to_chat`: the converted tools, `None` where nothing is left.
pub open spec fn responses_tools_to_chat_v(tools: Option<JsonV>) -> Option<JsonV> {
    match tools {
        Some(JsonV::Array(ts)) => {
            let out = resp_tools_to_chat_list(ts);
            if out.len() == 0 {
                None
            } else {
                Some(JsonV::Array(out))
            }
        },
        _ => None,
    }
}

/// `responses_tools_to_chat`.
pub fn responses_tools_to_chat(tools: Option<&Json>) -> (r: Option<Json>)
    ensures
        opt_json_view(r) == responses_tools_to_chat_v(ref_view(tools)),
{
    let arr = match tools {
        Some(t) => match t.as_array() {
            Some(a) => a,
            None => return None,
        },
        None => return None,
    };
    let ghost tv = arr@.map_values(|j: Json| j@);
    let mut out: Vec<Json> = Vec::new();
    let mut i: usize = 0;
    assert(tv.take(0) =~= Seq::<JsonV>::empty());
    while i < arr.len()
        invariant
            i <= arr@.len(),
            tv == arr@.map_values(|j: Json| j@),
            out@.map_values(|j: Json| j@) == resp_tools_to_chat_list(tv.take(i as int)),
        decreases arr@.len() - i,
    {
        assert(tv.take(i as int + 1).drop_last() =~= tv.take(i as int));
        let t = &arr[i];
        match t.get_str("type") {
            Some(ty) => {
                if str_eq(ty, "function") {
                    match t.get("name") {
                        Some(n) => {
                            if n.is_string() {
                                let mut f = Json::object();
                                f.set("name", n.copy());
                                f.set("description", t.member_or_null("description"));
                                f.set("parameters", t.member_or_null("parameters"));
                                let mut o = Json::object();
                                o.set("type", Json::string("function"));
                                o.set("function", f);
                                out.push(o);
                            }
                        },
                        None => {},
                    }
                }
            },
            None => {},
        }
        assert(out@.map_values(|j: Json| j@) =~= resp_tools_to_chat_list(tv.take(i as int + 1)));
        i = i + 1;
    }
    assert(tv.take(arr@.len() as int) =~= tv);
    if out.len() == 0 {
        None
    } else {
        Some(Json::array(out))
    }
}

/// The Chat Completions payload for a Responses request.
pub open spec fn responses_to_chat_payload_v(
    body: JsonV,
    stream: bool,
    model_override: Seq<char>,
) -> JsonV {
    let messages = match body.get("input"@) {
        Some(JsonV::Array(items)) => resp_items_to_chat_list(items),
        _ => Seq::empty(),
    };
    let p0 = empty_obj().set("messages"@, JsonV::Array(messages)).set(
        "stream"@,
        JsonV::Bool(stream),
    );
    let p1 = set_opt(p0, "model"@, body.get("model"@));
    let p2 = set_opt(p1, "tools"@, responses_tools_to_chat_v(body.get("tools"@)));
    let p3 = copy_sampling(p2, body);
    let p4 = set_opt(p3, "max_tokens"@, body.get("max_output_tokens"@));
    apply_override(p4, model_override)
}

/// `responses_to_chat_payload`: a Responses request as a Chat Completions
/// request.
pub fn responses_to_chat_payload(body: &Json, stream: bool, model_override: &str) -> (r: Json)
    ensures
        r@ == responses_to_chat_payload_v(body@, stream, model_override@),
{
    let empty: Vec<Json> = Vec::new();
    assert(empty@.map_values(|j: Json| j@) =~= Seq::<JsonV>::empty());
    let messages = match body.get("input") {
        Some(inp) => match inp.as_array() {
            Some(items) => responses_items_to_chat_messages(items),
            None => empty,
        },
        None => empty,
    };
    let mut payload = Json::object();
    payload.set("messages", Json::array(messages));
    payload.set("stream", Json::boolean(stream));
    payload.set_opt("model", copy_ref(body.get("model")));
    payload.set_opt("tools", responses_tools_to_chat(body.get("tools")));
    copy_sampling_exec(&mut payload, body);
    payload.set_opt("max_tokens", copy_ref(body.get("max_output_tokens")));
    apply_override_exec(&mut payload, model_override);
    payload
}

// ──────── Responses → Anthropic Messages ────────

/// The system text with one more piece: separated by a newline from what is
/// already there.
pub open spec fn append_line(sys: Seq<char>, text: Seq<char>) -> Seq<char> {
    if sys.len() > 0 {
        sys + "\n"@ + text
    } else {
        sys + text
    }
}

fn append_line_exec(sys: &mut String, text: &str)
    ensures
        final(sys)@ == append_line(old(sys)@, text@),
{
    if sys.unicode_len() > 0 {
        push_str(sys, "\n");
    }
    push_str(sys, text);
}

/// `{"role": role, "content": [block]}`.
pub open spec fn single_block_message(role: Seq<char>, block: JsonV) -> JsonV {
    empty_obj().set("role"@, JsonV::Str(role)).set("content"@, JsonV::Array(seq![block]))
}

fn single_block_message_exec(role: &str, block: Json) -> (r: Json)
    ensures
        r@ == single_block_message(role@, block@),
{
    let ghost bv = block@;
    let mut v: Vec<Json> = Vec::new();
    v.push(block);
    assert(v@.map_values(|j: Json| j@) =~= seq![bv]);
    let mut o = Json::object();
    o.set("role", Json::string(role));
    o.set("content", Json::array(v));
    o
}

/// A `tool_use` block.
pub open spec fn tool_use_block(id: Seq<char>, name: Seq<char>, input: JsonV) -> JsonV {
    empty_obj().set("type"@, JsonV::Str("tool_use"@)).set("id"@, JsonV::Str(id)).set(
        "name"@,
        JsonV::Str(name),
    ).set("input"@, input)
}

fn tool_use_block_exec(id: &str, name: &str, input: Json) -> (r: Json)
    ensures
        r@ == tool_use_block(id@, name@, input@),
{
    let mut o = Json::object();
    o.set("type", Json::string("tool_use"));
    o.set("id", Json::string(id));
    o.set("name", Json::string(name));
    o.set("input", input);
    o
}

/// A `tool_result` block.
pub open spec fn tool_result_block(id: Seq<char>, content: Seq<char>) -> JsonV {
    empty_obj().set("type"@, JsonV::Str("tool_result"@)).set("tool_use_id"@, JsonV::Str(id)).set(
        "content"@,
        JsonV::Str(content),
    )
}

fn tool_result_block_exec(id: &str, content: String) -> (r: Json)
    ensures
        r@ == tool_result_block(id@, content@),
{
    let mut o = Json::object();
    o.set("type", Json::string("tool_result"));
    o.set("tool_use_id", Json::string(id));
    o.set("content", Json::from_string(content));
    o
}

/// System text and messages after one more Responses input item.
pub open spec fn r2a_step(st: (Seq<char>, Seq<JsonV>), item: JsonV) -> (Seq<char>, Seq<JsonV>) {
    let ty = item.str_or("type"@, ""@);
    if ty == "message"@ {
        let role = item.str_or("role"@, "user"@);
        match resp_message_text(item.get("content"@)) {
            Some(text) => if role == "system"@ {
                (append_line(st.0, text), st.1)
            } else {
                (
                    st.0,
                    st.1.push(
                        empty_obj().set("role"@, JsonV::Str(role)).set("content"@, JsonV::Str(text)),
                    ),
                )
            },
            None => st,
        }
    } else if ty == "function_call"@ {
        let input = match item.get_str("arguments"@) {
            Some(a) => parsed_or_empty(a),
            None => empty_obj(),
        };
        (
            st.0,
            st.1.push(
                single_block_message(
                    "assistant"@,
                    tool_use_block(item.str_or("call_id"@, ""@), item.str_or("name"@, ""@), input),
                ),
            ),
        )
    } else if ty == "function_call_output"@ {
        (
            st.0,
            st.1.push(
                single_block_message(
                    "user"@,
                    tool_result_block(item.str_or("call_id"@, ""@), item.str_or("output"@, ""@)),
                ),
            ),
        )
    } else {
        st
    }
}

/// System text and messages of a list of Responses input items.
pub open spec fn r2a_fold(items: Seq<JsonV>) -> (Seq<char>, Seq<JsonV>)
    decreases items.len(),
{
    if items.len() == 0 {
        (Seq::empty(), Seq::empty())
    } else {
        r2a_step(r2a_fold(items.drop_last()), items.last())
    }
}

/// One Responses tool as an Anthropic tool: only `function` tools with a
/// string `name`.
pub open spec fn resp_tool_to_anthropic(t: JsonV) -> Option<JsonV> {
    match t.get_str("type"@) {
        Some(ty) => if ty == "function"@ {
            match t.get("name"@) {
                Some(n) => if n is Str {
                    Some(
                        empty_obj().set("name"@, n).set("description"@, or_null(t.get("description"@))).set(
                            "input_schema"@,
                            or_null(t.get("parameters"@)),
                        ),
                    )
                } else {
                    None
                },
                None => None,
            }
        } else {
            None
        },
        None => None,
    }
}

/// The converted tools of a list.
pub open spec fn resp_tools_to_anthropic_list(ts: Seq<JsonV>) -> Seq<JsonV>
    decreases ts.len(),
{
    if ts.len() == 0 {
        Seq::empty()
    } else {
        resp_tools_to_anthropic_list(ts.drop_last()) + opt_seq(resp_tool_to_anthropic(ts.last()))
    }
}

/// The Anthropic payload for a Responses request.
pub open spec fn responses_to_anthropic_payload_v(
    body: JsonV,
    stream: bool,
    model_override: Seq<char>,
) -> JsonV {
    let st = match body.get("input"@) {
        Some(JsonV::Array(items)) => r2a_fold(items),
        _ => (Seq::empty(), Seq::empty()),
    };
    let p0 = empty_obj().set("messages"@, JsonV::Array(st.1)).set("stream"@, JsonV::Bool(stream));
    let p1 = set_opt(p0, "model"@, body.get("model"@));
    let p2 = if st.0.len() > 0 {
        p1.set("system"@, JsonV::Str(st.0))
    } else {
        p1
    };
    let p3 = match body.get("tools"@) {
        Some(JsonV::Array(ts)) => {
            let out = resp_tools_to_anthropic_list(ts);
            if out.len() > 0 {
                p2.set("tools"@, JsonV::Array(out))
            } else {
                p2
            }
        },
        _ => p2,
    };
    let p4 = copy_sampling(p3, body);
    let p5 = set_opt(p4, "max_tokens"@, body.get("max_output_tokens"@));
    apply_override(p5, model_override)
}

fn r2a_step_exec(item: &Json, sys: &mut String, msgs: &mut Vec<Json>)
    ensures
        (final(sys)@, final(msgs)@.map_values(|j: Json| j@)) == r2a_step(
            (old(sys)@, old(msgs)@.map_values(|j: Json| j@)),
            item@,
        ),
{
    let ghost before = msgs@.map_values(|j: Json| j@);
    let ty = item.str_or("type", "");
    if str_eq(ty, "message") {
        let role = item.str_or("role", "user");
        match resp_message_text_exec(item.get("content")) {
            Some(text) => {
                if str_eq(role, "system") {
                    append_line_exec(sys, text.as_str());
                } else {
                    let mut o = Json::object();
                    o.set("role", Json::string(role));
                    o.set("content", Json::from_string(text));
                    let ghost ov = o@;
                    msgs.push(o);
                    assert(msgs@.map_values(|j: Json| j@) =~= before.push(ov));
                }
            },
            None => {},
        }
    } else if str_eq(ty, "function_call") {
        let input = match item.get_str("arguments") {
            Some(a) => parse_or_empty(a),
            None => Json::object(),
        };
        let block = tool_use_block_exec(item.str_or("call_id", ""), item.str_or("name", ""), input);
        let m = single_block_message_exec("assistant", block);
        let ghost mv = m@;
        msgs.push(m);
        assert(msgs@.map_values(|j: Json| j@) =~= before.push(mv));
    } else if str_eq(ty, "function_call_output") {
        let block = tool_result_block_exec(
            item.str_or("call_id", ""),
            to_owned(item.str_or("output", "")),
        );
        let m = single_block_message_exec("user", block);
        let ghost mv = m@;
        msgs.push(m);
        assert(msgs@.map_values(|j: Json| j@) =~= before.push(mv));
    }
}

/// `responses_to_anthropic_payload`: a Responses request as an Anthropic
/// Messages request.
pub fn responses_to_anthropic_payload(body: &Json, stream: bool, model_override: &str) -> (r: Json)
    ensures
        r@ == responses_to_anthropic_payload_v(body@, stream, model_override@),
{
    let mut sys = empty_string();
    let mut msgs: Vec<Json> = Vec::new();
    assert(msgs@.map_values(|j: Json| j@) =~= Seq::<JsonV>::empty());
    match body.get("input") {
        Some(inp) => match inp.as_array() {
            Some(items) => {
                let ghost iv = items@.map_values(|j: Json| j@);
                let mut i: usize = 0;
                assert(iv.take(0) =~= Seq::<JsonV>::empty());
                while i < items.len()
                    invariant
                        i <= items@.len(),
                        iv == items@.map_values(|j: Json| j@),
                        (sys@, msgs@.map_values(|j: Json| j@)) == r2a_fold(iv.take(i as int)),
                    decreases items@.len() - i,
                {
                    assert(iv.take(i as int + 1).drop_last() =~= iv.take(i as int));
                    r2a_step_exec(&items[i], &mut sys, &mut msgs);
                    i = i + 1;
                }
                assert(iv.take(items@.len() as int) =~= iv);
            },
            None => {},
        },
        None => {},
    }
    let mut payload = Json::object();
    payload.set("messages", Json::array(msgs));
    payload.set("stream", Json::boolean(stream));
    payload.set_opt("model", copy_ref(body.get("model")));
    if sys.unicode_len() > 0 {
        payload.set("system", Json::from_string(sys));
    }
    match body.get("tools") {
        Some(t) => match t.as_array() {
            Some(arr) => {
                let ghost tv = arr@.map_values(|j: Json| j@);
                let mut out: Vec<Json> = Vec::new();
                let mut i: usize = 0;
                assert(tv.take(0) =~= Seq::<JsonV>::empty());
                while i < arr.len()
                    invariant
                        i <= arr@.len(),
                        tv == arr@.map_values(|j: Json| j@),
                        out@.map_values(|j: Json| j@) == resp_tools_to_anthropic_list(
                            tv.take(i as int),
                        ),
                    decreases arr@.len() - i,
                {
                    assert(tv.take(i as int + 1).drop_last() =~= tv.take(i as int));
                    let t = &arr[i];
                    match t.get_str("type") {
                        Some(ty) => {
                            if str_eq(ty, "function") {
                                match t.get("name") {
                                    Some(n) => {
                                        if n.is_string() {
                                            let mut o = Json::object();
                                            o.set("name", n.copy());
                                            o.set("description", t.member_or_null("description"));
                                            o.set("input_schema", t.member_or_null("parameters"));
                                            out.push(o);
                                        }
                                    },
                                    None => {},
                                }
                            }
                        },
                        None => {},
                    }
                    assert(out@.map_values(|j: Json| j@) =~= resp_tools_to_anthropic_list(
                        tv.take(i as int + 1),
                    ));
                    i = i + 1;
                }
                assert(tv.take(arr@.len() as int) =~= tv);
                if out.len() > 0 {
                    payload.set("tools", Json::array(out));
                }
            },
            None => {},
        },
        None => {},
    }
    copy_sampling_exec(&mut payload, body);
    payload.set_opt("max_tokens", copy_ref(body.get("max_output_tokens")));
    apply_override_exec(&mut payload, model_override);
    payload
}

// ──────── Chat Completions → Anthropic Messages ────────

/// One Chat tool as an Anthropic tool (dropped without `function` or a
/// string `name`).
pub open spec fn chat_tool_to_anthropic(t: JsonV) -> Option<JsonV> {
    match t.get("function"@) {
        Some(f) => match f.get("name"@) {
            Some(n) => if n is Str {
                Some(
                    empty_obj().set("name"@, n).set("description"@, or_null(f.get("description"@))).set(
                        "input_schema"@,
                        or_null(f.get("parameters"@)),
                    ),
                )
            } else {
                None
            },
            None => None,
        },
        None => None,
    }
}

/// The converted tools of a list.
pub open spec fn chat_tools_to_anthropic_list(ts: Seq<JsonV>) -> Seq<JsonV>
    decreases ts.len(),
{
    if ts.len() == 0 {
        Seq::empty()
    } else {
        chat_tools_to_anthropic_list(ts.drop_last()) + opt_seq(chat_tool_to_anthropic(ts.last()))
    }
}

/// `chat_tools_to_anthropic`: the converted tools, `None` where nothing is left.
pub open spec fn chat_tools_to_anthropic_v(tools: Option<JsonV>) -> Option<JsonV> {
    match tools {
        Some(JsonV::Array(ts)) => {
            let out = chat_tools_to_anthropic_list(ts);
            if out.len() == 0 {
                None
            } else {
                Some(JsonV::Array(out))
            }
        },
        _ => None,
    }
}

/// `chat_tools_to_anthropic`.
pub fn chat_tools_to_anthropic(tools: Option<&Json>) -> (r: Option<Json>)
    ensures
        opt_json_view(r) == chat_tools_to_anthropic_v(ref_view(tools)),
{
    let arr = match tools {
        Some(t) => match t.as_array() {
            Some(a) => a,
            None => return None,
        },
        None => return None,
    };
    let ghost tv = arr@.map_values(|j: Json| j@);
    let mut out: Vec<Json> = Vec::new();
    let mut i: usize = 0;
    assert(tv.take(0) =~= Seq::<JsonV>::empty());
    while i < arr.len()
        invariant
            i <= arr@.len(),
            tv == arr@.map_values(|j: Json| j@),
            out@.map_values(|j: Json| j@) == chat_tools_to_anthropic_list(tv.take(i as int)),
        decreases arr@.len() - i,
    {
        assert(tv.take(i as int + 1).drop_last() =~= tv.take(i as int));
        match arr[i].get("function") {
            Some(f) => match f.get("name") {
                Some(n) => {
                    if n.is_string() {
                        let mut o = Json::object();
                        o.set("name", n.copy());
                        o.set("description", f.member_or_null("description"));
                        o.set("input_schema", f.member_or_null("parameters"));
                        out.push(o);
                    }
                },
                None => {},
            },
            None => {},
        }
        assert(out@.map_values(|j: Json| j@) =~= chat_tools_to_anthropic_list(
            tv.take(i as int + 1),
        ));
        i = i + 1;
    }
    assert(tv.take(arr@.len() as int) =~= tv);
    if out.len() == 0 {
        None
    } else {
        Some(Json::array(out))
    }
}

/// Text of Chat content for Anthropic: a string, or the part texts joined by
/// newlines; `None` for other content.
pub open spec fn chat_content_text(content: Option<JsonV>) -> Option<Seq<char>> {
    match content {
        Some(JsonV::Str(s)) => Some(s),
        Some(JsonV::Array(parts)) => Some(join_spec(block_texts(parts), "\n"@)),
        _ => None,
    }
}

fn chat_content_text_exec(content: Option<&Json>) -> (r: Option<String>)
    ensures
        match r {
            Some(t) => chat_content_text(ref_view(content)) == Some(t@),
            None => chat_content_text(ref_view(content)) is None,
        },
{
    match content {
        Some(c) => match c {
            Json::Str(s) => Some(s.clone()),
            Json::Array(parts) => {
                proof {
                    Json::lemma_array_elements(*parts);
                }
                Some(join(&collect_block_texts(parts), "\n"))
            },
            _ => None,
        },
        None => None,
    }
}

/// The `tool_use` block of one Chat tool call; its `input` is the arguments
/// text parsed, an empty object where that fails.
pub open spec fn chat_call_to_tool_use(tc: JsonV) -> JsonV {
    let input = match tc.get("function"@) {
        Some(f) => match f.get_str("arguments"@) {
            Some(a) => parsed_or_empty(a),
            None => empty_obj(),
        },
        None => empty_obj(),
    };
    tool_use_block(tc.str_or("id"@, ""@), path_str_or(tc, "function"@, "name"@, ""@), input)
}

/// The `tool_use` blocks of a list of tool calls.
pub open spec fn chat_calls_to_tool_uses(tcs: Seq<JsonV>) -> Seq<JsonV>
    decreases tcs.len(),
{
    if tcs.len() == 0 {
        Seq::empty()
    } else {
        chat_calls_to_tool_uses(tcs.drop_last()) + seq![chat_call_to_tool_use(tcs.last())]
    }
}

/// `{"type": "text", "text": t}`.
pub open spec fn text_block(t: Seq<char>) -> JsonV {
    empty_obj().set("type"@, JsonV::Str("text"@)).set("text"@, JsonV::Str(t))
}

fn text_block_exec(t: &str) -> (r: Json)
    ensures
        r@ == text_block(t@),
{
    let mut o = Json::object();
    o.set("type", Json::string("text"));
    o.set("text", Json::string(t));
    o
}

/// The content blocks of an assistant message with tool calls: its text (if a
/// non-empty string) then one `tool_use` per call; a single empty text block
/// where that leaves nothing.
pub open spec fn assistant_tool_blocks(m: JsonV) -> Seq<JsonV> {
    let text = match m.get("content"@) {
        Some(JsonV::Str(s)) => if s.len() > 0 {
            seq![text_block(s)]
        } else {
            Seq::empty()
        },
        _ => Seq::empty(),
    };
    let calls = match m.get("tool_calls"@) {
        Some(JsonV::Array(tcs)) => chat_calls_to_tool_uses(tcs),
        _ => Seq::empty(),
    };
    let blocks = text + calls;
    if blocks.len() == 0 {
        seq![text_block(""@)]
    } else {
        blocks
    }
}

/// Messages after one more `tool_result` block: it joins the last message
/// where that is a user message whose content is a block list, else it
/// starts a user message of its own.
pub open spec fn add_tool_result(msgs: Seq<JsonV>, block: JsonV) -> Seq<JsonV> {
    if msgs.len() > 0 && msgs.last().get_str("role"@) == Some("user"@)
        && msgs.last().get("content"@) matches Some(JsonV::Array(_)) {
        let last = msgs.last();
        let blocks = last.get("content"@)->0->Array_0;
        msgs.update(msgs.len() - 1, last.set("content"@, JsonV::Array(blocks.push(block))))
    } else {
        msgs.push(single_block_message("user"@, block))
    }
}

/// System text and messages after one more Chat message.
pub open spec fn c2a_step(st: (Seq<char>, Seq<JsonV>), m: JsonV) -> (Seq<char>, Seq<JsonV>) {
    let role = m.str_or("role"@, ""@);
    let content = m.get("content"@);
    if role == "system"@ {
        match chat_content_text(content) {
            Some(text) => (append_line(st.0, text), st.1),
            None => st,
        }
    } else if role == "assistant"@ && m.get("tool_calls"@) is Some {
        (
            st.0,
            st.1.push(
                empty_obj().set("role"@, JsonV::Str("assistant"@)).set(
                    "content"@,
                    JsonV::Array(assistant_tool_blocks(m)),
                ),
            ),
        )
    } else if role == "tool"@ {
        (
            st.0,
            add_tool_result(
                st.1,
                tool_result_block(m.str_or("tool_call_id"@, ""@), output_text_v(content)),
            ),
        )
    } else {
        match chat_content_text(content) {
            Some(text) => if text.len() > 0 {
                (
                    st.0,
                    st.1.push(
                        empty_obj().set("role"@, JsonV::Str(role)).set("content"@, JsonV::Str(text)),
                    ),
                )
            } else {
                st
            },
            None => st,
        }
    }
}

/// System text and messages of a list of Chat messages.
pub open spec fn c2a_fold(ms: Seq<JsonV>) -> (Seq<char>, Seq<JsonV>)
    decreases ms.len(),
{
    if ms.len() == 0 {
        (Seq::empty(), Seq::empty())
    } else {
        c2a_step(c2a_fold(ms.drop_last()), ms.last())
    }
}

/// The Anthropic payload for a Chat Completions request.
pub open spec fn chat_to_anthropic_payload_v(
    body: JsonV,
    stream: bool,
    model_override: Seq<char>,
) -> JsonV {
    let st = match body.get("messages"@) {
        Some(JsonV::Array(ms)) => c2a_fold(ms),
        _ => (Seq::empty(), Seq::empty()),
    };
    let p0 = empty_obj().set("messages"@, JsonV::Array(st.1)).set("stream"@, JsonV::Bool(stream));
    let p1 = set_opt(p0, "model"@, body.get("model"@));
    let p2 = if st.0.len() > 0 {
        p1.set("system"@, JsonV::Str(st.0))
    } else {
        p1
    };
    let p3 = set_opt(p2, "tools"@, chat_tools_to_anthropic_v(body.get("tools"@)));
    let p4 = copy_sampling(p3, body);
    let p5 = set_opt(
        p4,
        "max_tokens"@,
        or_else(body.get("max_tokens"@), body.get("max_completion_tokens"@)),
    );
    apply_override(p5, model_override)
}

fn assistant_tool_blocks_exec(m: &Json) -> (r: Vec<Json>)
    ensures
        r@.map_values(|j: Json| j@) == assistant_tool_blocks(m@),
{
    let mut blocks: Vec<Json> = Vec::new();
    match m.get("content") {
        Some(c) => match c {
            Json::Str(s) => {
                if s.unicode_len() > 0 {
                    blocks.push(text_block_exec(s.as_str()));
                }
            },
            _ => {},
        },
        None => {},
    }
    let ghost tb = blocks@.map_values(|j: Json| j@);
    assert(tb =~= match m@.get("content"@) {
        Some(JsonV::Str(s)) => if s.len() > 0 {
            seq![text_block(s)]
        } else {
            Seq::<JsonV>::empty()
        },
        _ => Seq::<JsonV>::empty(),
    });
    match m.get("tool_calls") {
        Some(t) => match t.as_array() {
            Some(tcs) => {
                let ghost cv = tcs@.map_values(|j: Json| j@);
                let mut i: usize = 0;
                assert(cv.take(0) =~= Seq::<JsonV>::empty());
                assert(tb =~= tb + chat_calls_to_tool_uses(cv.take(0)));
                while i < tcs.len()
                    invariant
                        i <= tcs@.len(),
                        cv == tcs@.map_values(|j: Json| j@),
                        blocks@.map_values(|j: Json| j@) == tb + chat_calls_to_tool_uses(
                            cv.take(i as int),
                        ),
                    decreases tcs@.len() - i,
                {
                    assert(cv.take(i as int + 1).drop_last() =~= cv.take(i as int));
                    assert(cv.take(i as int + 1).last() == tcs@[i as int]@);
                    let tc = &tcs[i];
                    let input = match tc.get("function") {
                        Some(f) => match f.get_str("arguments") {
                            Some(a) => parse_or_empty(a),
                            None => Json::object(),
                        },
                        None => Json::object(),
                    };
                    let b = tool_use_block_exec(
                        tc.str_or("id", ""),
                        path_str_or_exec(tc, "function", "name", ""),
                        input,
                    );
                    let ghost cur = blocks@.map_values(|j: Json| j@);
                    let ghost bv = b@;
                    blocks.push(b);
                    assert(blocks@.map_values(|j: Json| j@) =~= cur.push(bv));
                    assert(blocks@.map_values(|j: Json| j@) =~= tb + chat_calls_to_tool_uses(
                        cv.take(i as int + 1),
                    ));
                    i = i + 1;
                }
                assert(cv.take(tcs@.len() as int) =~= cv);
            },
            None => {
                assert(tb =~= tb + Seq::<JsonV>::empty());
            },
        },
        None => {
            assert(tb =~= tb + Seq::<JsonV>::empty());
        },
    }
    if blocks.len() == 0 {
        blocks.push(text_block_exec(""));
        assert(blocks@.map_values(|j: Json| j@) =~= seq![text_block(""@)]);
    }
    blocks
}

fn add_tool_result_exec(msgs: &mut Vec<Json>, block: Json)
    ensures
        final(msgs)@.map_values(|j: Json| j@) == add_tool_result(
            old(msgs)@.map_values(|j: Json| j@),
            block@,
        ),
{
    let ghost before = msgs@.map_values(|j: Json| j@);
    let ghost bv = block@;
    let n = msgs.len();
    let mergeable = if n > 0 {
        let is_user = match msgs[n - 1].get_str("role") {
            Some(r) => str_eq(r, "user"),
            None => false,
        };
        let is_list = match msgs[n - 1].get("content") {
            Some(c) => c.as_array().is_some(),
            None => false,
        };
        is_user && is_list
    } else {
        false
    };
    if mergeable {
        let mut last = msgs.pop().unwrap();
        assert(msgs@.map_values(|j: Json| j@) =~= before.drop_last());
        let list = last.get("content").unwrap().as_array().unwrap();
        let mut blocks: Vec<Json> = Vec::new();
        let mut i: usize = 0;
        while i < list.len()
            invariant
                i <= list@.len(),
                blocks@.len() == i,
                forall|k: int| 0 <= k < i ==> (#[trigger] blocks@[k])@ == list@[k]@,
            decreases list@.len() - i,
        {
            blocks.push(list[i].copy());
            i = i + 1;
        }
        blocks.push(block);
        assert(blocks@.map_values(|j: Json| j@) =~= list@.map_values(|j: Json| j@).push(bv));
        last.set("content", Json::array(blocks));
        let ghost newv = last@;
        msgs.push(last);
        assert(msgs@.map_values(|j: Json| j@) =~= before.update(before.len() - 1, newv));
    } else {
        let m = single_block_message_exec("user", block);
        let ghost mv = m@;
        msgs.push(m);
        assert(msgs@.map_values(|j: Json| j@) =~= before.push(mv));
    }
}

fn c2a_step_exec(m: &Json, sys: &mut String, msgs: &mut Vec<Json>)
    ensures
        (final(sys)@, final(msgs)@.map_values(|j: Json| j@)) == c2a_step(
            (old(sys)@, old(msgs)@.map_values(|j: Json| j@)),
            m@,
        ),
{
    let ghost before = msgs@.map_values(|j: Json| j@);
    let role = m.str_or("role", "");
    let content = m.get("content");
    if str_eq(role, "system") {
        match chat_content_text_exec(content) {
            Some(text) => append_line_exec(sys, text.as_str()),
            None => {},
        }
    } else if str_eq(role, "assistant") && m.get("tool_calls").is_some() {
        let blocks = assistant_tool_blocks_exec(m);
        let mut o = Json::object();
        o.set("role", Json::string("assistant"));
        o.set("content", Json::array(blocks));
        let ghost ov = o@;
        msgs.push(o);
        assert(msgs@.map_values(|j: Json| j@) =~= before.push(ov));
    } else if str_eq(role, "tool") {
        let block = tool_result_block_exec(m.str_or("tool_call_id", ""), output_text(content));
        add_tool_result_exec(msgs, block);
    } else {
        match chat_content_text_exec(content) {
            Some(text) => {
                if text.unicode_len() > 0 {
                    let mut o = Json::object();
                    o.set("role", Json::string(role));
                    o.set("content", Json::from_string(text));
                    let ghost ov = o@;
                    msgs.push(o);
                    assert(msgs@.map_values(|j: Json| j@) =~= before.push(ov));
                }
            },
            None => {},
        }
    }
}

/// `chat_to_anthropic_payload`: a Chat Completions request as an Anthropic
/// Messages request.
pub fn chat_to_anthropic_payload(body: &Json, stream: bool, model_override: &str) -> (r: Json)
    ensures
        r@ == chat_to_anthropic_payload_v(body@, stream, model_override@),
{
    let mut sys = empty_string();
    let mut msgs: Vec<Json> = Vec::new();
    assert(msgs@.map_values(|j: Json| j@) =~= Seq::<JsonV>::empty());
    match body.get("messages") {
        Some(ms) => match ms.as_array() {
            Some(arr) => {
                let ghost mv = arr@.map_values(|j: Json| j@);
                let mut i: usize = 0;
                assert(mv.take(0) =~= Seq::<JsonV>::empty());
                while i < arr.len()
                    invariant
                        i <= arr@.len(),
                        mv == arr@.map_values(|j: Json| j@),
                        (sys@, msgs@.map_values(|j: Json| j@)) == c2a_fold(mv.take(i as int)),
                    decreases arr@.len() - i,
                {
                    assert(mv.take(i as int + 1).drop_last() =~= mv.take(i as int));
                    c2a_step_exec(&arr[i], &mut sys, &mut msgs);
                    i = i + 1;
                }
                assert(mv.take(arr@.len() as int) =~= mv);
            },
            None => {},
        },
        None => {},
    }
    let mut payload = Json::object();
    payload.set("messages", Json::array(msgs));
    payload.set("stream", Json::boolean(stream));
    payload.set_opt("model", copy_ref(body.get("model")));
    if sys.unicode_len() > 0 {
        payload.set("system", Json::from_string(sys));
    }
    payload.set_opt("tools", chat_tools_to_anthropic(body.get("tools")));
    copy_sampling_exec(&mut payload, body);
    let mt = match body.get("max_tokens") {
        Some(v) => Some(v),
        None => body.get("max_completion_tokens"),
    };
    payload.set_opt("max_tokens", copy_ref(mt));
    apply_override_exec(&mut payload, model_override);
    payload
}

// ──────── Anthropic Messages → Chat Completions ────────

/// One Anthropic tool as a Chat tool (dropped without a string `name`).
pub open spec fn anthropic_tool_to_chat(t: JsonV) -> Option<JsonV> {
    match t.get("name"@) {
        Some(n) => if n is Str {
            Some(
                empty_obj().set("type"@, JsonV::Str("function"@)).set(
                    "function"@,
                    empty_obj().set("name"@, n).set("description"@, or_null(t.get("description"@))).set(
                        "parameters"@,
                        or_null(t.get("input_schema"@)),
                    ),
                ),
            )
        } else {
            None
        },
        None => None,
    }
}

/// The converted tools of a list.
pub open spec fn anthropic_tools_to_chat_list(ts: Seq<JsonV>) -> Seq<JsonV>
    decreases ts.len(),
{
    if ts.len() == 0 {
        Seq::empty()
    } else {
        anthropic_tools_to_chat_list(ts.drop_last()) + opt_seq(anthropic_tool_to_chat(ts.last()))
    }
}

/// `anthropic_tools_to_chat`: the converted tools, `None` where nothing is left.
pub open spec fn anthropic_tools_to_chat_v(tools: Option<JsonV>) -> Option<JsonV> {
    match tools {
        Some(JsonV::Array(ts)) => {
            let out = anthropic_tools_to_chat_list(ts);
            if out.len() == 0 {
                None
            } else {
                Some(JsonV::Array(out))
            }
        },
        _ => None,
    }
}

/// `anthropic_tools_to_chat`.
pub fn anthropic_tools_to_chat(tools: Option<&Json>) -> (r: Option<Json>)
    ensures
        opt_json_view(r) == anthropic_tools_to_chat_v(ref_view(tools)),
{
    let arr = match tools {
        Some(t) => match t.as_array() {
            Some(a) => a,
            None => return None,
        },
        None => return None,
    };
    let ghost tv = arr@.map_values(|j: Json| j@);
    let mut out: Vec<Json> = Vec::new();
    let mut i: usize = 0;
    assert(tv.take(0) =~= Seq::<JsonV>::empty());
    while i < arr.len()
        invariant
            i <= arr@.len(),
            tv == arr@.map_values(|j: Json| j@),
            out@.map_values(|j: Json| j@) == anthropic_tools_to_chat_list(tv.take(i as int)),
        decreases arr@.len() - i,
    {
        assert(tv.take(i as int + 1).drop_last() =~= tv.take(i as int));
        let t = &arr[i];
        match t.get("name") {
            Some(n) => {
                if n.is_string() {
                    let mut f = Json::object();
                    f.set("name", n.copy());
                    f.set("description", t.member_or_null("description"));
                    f.set("parameters", t.member_or_null("input_schema"));
                    let mut o = Json::object();
                    o.set("type", Json::string("function"));
                    o.set("function", f);
                    out.push(o);
                }
            },
            None => {},
        }
        assert(out@.map_values(|j: Json| j@) =~= anthropic_tools_to_chat_list(
            tv.take(i as int + 1),
        ));
        i = i + 1;
    }
    assert(tv.take(arr@.len() as int) =~= tv);
    if out.len() == 0 {
        None
    } else {
        Some(Json::array(out))
    }
}

/// The non-empty texts of the `text` blocks of a block list.
pub open spec fn a2c_texts(blocks: Seq<JsonV>) -> Seq<Seq<char>>
    decreases blocks.len(),
{
    if blocks.len() == 0 {
        Seq::empty()
    } else {
        let b = blocks.last();
        a2c_texts(blocks.drop_last()) + if b.str_or("type"@, ""@) == "text"@ && b.get_str(
            "text"@,
        ) is Some && b.get_str("text"@)->0.len() > 0 {
            seq![b.get_str("text"@)->0]
        } else {
            Seq::empty()
        }
    }
}

/// The Chat tool calls of the `tool_use` blocks of a block list; arguments
/// are the input's JSON text.
pub open spec fn a2c_calls(blocks: Seq<JsonV>) -> Seq<JsonV>
    decreases blocks.len(),
{
    if blocks.len() == 0 {
        Seq::empty()
    } else {
        let b = blocks.last();
        a2c_calls(blocks.drop_last()) + if b.str_or("type"@, ""@) == "tool_use"@ {
            seq![
                chat_tool_call_v(
                    b.str_or("id"@, ""@),
                    b.str_or("name"@, ""@),
                    json_text(or_empty_obj(b.get("input"@))),
                ),
            ]
        } else {
            Seq::empty()
        }
    }
}

/// `{"role": "tool", "tool_call_id": id, "content": content}`.
pub open spec fn tool_message(id: Seq<char>, content: Seq<char>) -> JsonV {
    empty_obj().set("role"@, JsonV::Str("tool"@)).set("tool_call_id"@, JsonV::Str(id)).set(
        "content"@,
        JsonV::Str(content),
    )
}

/// The tool messages of the `tool_result` blocks of a block list.
pub open spec fn a2c_results(blocks: Seq<JsonV>) -> Seq<JsonV>
    decreases blocks.len(),
{
    if blocks.len() == 0 {
        Seq::empty()
    } else {
        let b = blocks.last();
        a2c_results(blocks.drop_last()) + if b.str_or("type"@, ""@) == "tool_result"@ {
            seq![tool_message(b.str_or("tool_use_id"@, ""@), output_text_v(b.get("content"@)))]
        } else {
            Seq::empty()
        }
    }
}

/// The Chat messages of one Anthropic message (role `user` by default):
/// string content as it is; for a block list, an assistant message of the
/// texts and calls (assistant only), then one tool message per result, then
/// a user message of the texts (user only, where there are texts).
pub open spec fn a2c_message(m: JsonV) -> Seq<JsonV> {
    let role = m.str_or("role"@, "user"@);
    match m.get("content"@) {
        Some(JsonV::Str(s)) => seq![
            empty_obj().set("role"@, JsonV::Str(role)).set("content"@, JsonV::Str(s)),
        ],
        Some(JsonV::Array(blocks)) => {
            let texts = join_spec(a2c_texts(blocks), "\n"@);
            let calls = a2c_calls(blocks);
            let assistant = if role == "assistant"@ {
                let msg = empty_obj().set("role"@, JsonV::Str("assistant"@)).set(
                    "content"@,
                    JsonV::Str(texts),
                );
                seq![
                    if calls.len() > 0 {
                        msg.set("tool_calls"@, JsonV::Array(calls))
                    } else {
                        msg
                    },
                ]
            } else {
                Seq::empty()
            };
            let user = if role == "user"@ && a2c_texts(blocks).len() > 0 {
                seq![empty_obj().set("role"@, JsonV::Str("user"@)).set("content"@, JsonV::Str(texts))]
            } else {
                Seq::empty()
            };
            assistant + a2c_results(blocks) + user
        },
        _ => Seq::empty(),
    }
}

/// The Chat messages of a list of Anthropic messages.
pub open spec fn a2c_messages(ms: Seq<JsonV>) -> Seq<JsonV>
    decreases ms.len(),
{
    if ms.len() == 0 {
        Seq::empty()
    } else {
        a2c_messages(ms.drop_last()) + a2c_message(ms.last())
    }
}

/// The Chat Completions payload for an Anthropic Messages request.
pub open spec fn anthropic_to_chat_payload_v(
    body: JsonV,
    stream: bool,
    model_override: Seq<char>,
) -> JsonV {
    let sys = match body.get("system"@) {
        Some(sys) => {
            let text = anthropic_content_to_text_v(Some(sys));
            if text.len() > 0 {
                seq![empty_obj().set("role"@, JsonV::Str("system"@)).set("content"@, JsonV::Str(text))]
            } else {
                Seq::empty()
            }
        },
        None => Seq::empty(),
    };
    let msgs = match body.get("messages"@) {
        Some(JsonV::Array(ms)) => a2c_messages(ms),
        _ => Seq::empty(),
    };
    let p0 = empty_obj().set("messages"@, JsonV::Array(sys + msgs)).set(
        "stream"@,
        JsonV::Bool(stream),
    );
    let p1 = set_opt(p0, "model"@, body.get("model"@));
    let p2 = set_opt(p1, "tools"@, anthropic_tools_to_chat_v(body.get("tools"@)));
    let p3 = copy_sampling(p2, body);
    let p4 = set_opt(p3, "max_tokens"@, body.get("max_tokens"@));
    apply_override(p4, model_override)
}

/// Appends the Chat messages of one Anthropic message.
fn push_a2c_message(m: &Json, out: &mut Vec<Json>)
    ensures
        final(out)@.map_values(|j: Json| j@) == old(out)@.map_values(|j: Json| j@) + a2c_message(
            m@,
        ),
{
    let ghost before = out@.map_values(|j: Json| j@);
    let role = m.str_or("role", "user");
    match m.get("content") {
        Some(c) => match c {
            Json::Str(s) => {
                let mut o = Json::object();
                o.set("role", Json::string(role));
                o.set("content", Json::string(s.as_str()));
                let ghost ov = o@;
                out.push(o);
                assert(out@.map_values(|j: Json| j@) =~= before.push(ov));
                assert(out@.map_values(|j: Json| j@) =~= before + a2c_message(m@));
            },
            Json::Array(blocks) => {
                proof {
                    Json::lemma_array_elements(*blocks);
                }
                let ghost bv = blocks@.map_values(|j: Json| j@);
                let mut texts: Vec<String> = Vec::new();
                let mut calls: Vec<Json> = Vec::new();
                let mut results: Vec<Json> = Vec::new();
                let mut i: usize = 0;
                assert(bv.take(0) =~= Seq::<JsonV>::empty());
                while i < blocks.len()
                    invariant
                        i <= blocks@.len(),
                        bv == blocks@.map_values(|j: Json| j@),
                        texts@.map_values(|p: String| p@) == a2c_texts(bv.take(i as int)),
                        calls@.map_values(|j: Json| j@) == a2c_calls(bv.take(i as int)),
                        results@.map_values(|j: Json| j@) == a2c_results(bv.take(i as int)),
                    decreases blocks@.len() - i,
                {
                    assert(bv.take(i as int + 1).drop_last() =~= bv.take(i as int));
                    let b = &blocks[i];
                    let ty = b.str_or("type", "");
                    proof {
                        reveal_strlit("text");
                        reveal_strlit("tool_use");
                        reveal_strlit("tool_result");
                        assert(bv.take(i as int + 1).last() == blocks@[i as int]@);
                        assert("text"@.len() == 4 && "tool_use"@.len() == 8 && "tool_result"@.len()
                            == 11);
                    }
                    if str_eq(ty, "text") {
                        match b.get_str("text") {
                            Some(t) => {
                                if t.unicode_len() > 0 {
                                    texts.push(to_owned(t));
                                }
                            },
                            None => {},
                        }
                    } else if str_eq(ty, "tool_use") {
                        let args = match b.get("input") {
                            Some(v) => v.to_text(),
                            None => Json::object().to_text(),
                        };
                        calls.push(chat_tool_call(b.str_or("id", ""), b.str_or("name", ""), args));
                    } else if str_eq(ty, "tool_result") {
                        let mut o = Json::object();
                        o.set("role", Json::string("tool"));
                        o.set("tool_call_id", Json::string(b.str_or("tool_use_id", "")));
                        o.set("content", Json::from_string(output_text(b.get("content"))));
                        results.push(o);
                    }
                    assert(texts@.map_values(|p: String| p@) =~= a2c_texts(bv.take(i as int + 1)));
                    assert(calls@.map_values(|j: Json| j@) =~= a2c_calls(bv.take(i as int + 1)));
                    assert(results@.map_values(|j: Json| j@) =~= a2c_results(
                        bv.take(i as int + 1),
                    ));
                    i = i + 1;
                }
                assert(bv.take(blocks@.len() as int) =~= bv);
                let joined = join(&texts, "\n");
                let ghost cv = calls@.map_values(|j: Json| j@);
                if str_eq(role, "assistant") {
                    let mut msg = Json::object();
                    msg.set("role", Json::string("assistant"));
                    msg.set("content", Json::string(joined.as_str()));
                    if calls.len() > 0 {
                        msg.set("tool_calls", Json::array(calls));
                    }
                    let ghost mv = msg@;
                    out.push(msg);
                    assert(out@.map_values(|j: Json| j@) =~= before.push(mv));
                }
                let ghost mid = out@.map_values(|j: Json| j@);
                let ghost rv = results@.map_values(|j: Json| j@);
                let mut k: usize = 0;
                assert(mid =~= mid + rv.take(0));
                while k < results.len()
                    invariant
                        k <= results@.len(),
                        rv == results@.map_values(|j: Json| j@),
                        out@.map_values(|j: Json| j@) == mid + rv.take(k as int),
                    decreases results@.len() - k,
                {
                    let ghost cur = out@.map_values(|j: Json| j@);
                    let x = results[k].copy();
                    let ghost xv = x@;
                    assert(xv == rv[k as int]);
                    out.push(x);
                    assert(out@.map_values(|j: Json| j@) =~= cur.push(xv));
                    assert(rv.take(k as int + 1) =~= rv.take(k as int).push(rv[k as int]));
                    assert(out@.map_values(|j: Json| j@) =~= mid + rv.take(k as int + 1));
                    k = k + 1;
                }
                assert(rv.take(results@.len() as int) =~= rv);
                if str_eq(role, "user") && texts.len() > 0 {
                    let mut o = Json::object();
                    o.set("role", Json::string("user"));
                    o.set("content", Json::string(joined.as_str()));
                    let ghost ov = o@;
                    let ghost cur = out@.map_values(|j: Json| j@);
                    out.push(o);
                    assert(out@.map_values(|j: Json| j@) =~= cur.push(ov));
                }
                assert(out@.map_values(|j: Json| j@) =~= before + a2c_message(m@));
            },
            _ => {
                assert(out@.map_values(|j: Json| j@) =~= before + a2c_message(m@));
            },
        },
        None => {
            assert(out@.map_values(|j: Json| j@) =~= before + a2c_message(m@));
        },
    }
}

/// `anthropic_to_chat_payload`: an Anthropic Messages request as a Chat
/// Completions request.
pub fn anthropic_to_chat_payload(body: &Json, stream: bool, model_override: &str) -> (r: Json)
    ensures
        r@ == anthropic_to_chat_payload_v(body@, stream, model_override@),
{
    let mut msgs: Vec<Json> = Vec::new();
    match body.get("system") {
        Some(sys) => {
            let text = anthropic_content_to_text(Some(sys));
            if text.unicode_len() > 0 {
                let mut o = Json::object();
                o.set("role", Json::string("system"));
                o.set("content", Json::from_string(text));
                let ghost ov = o@;
                msgs.push(o);
                assert(msgs@.map_values(|j: Json| j@) =~= seq![ov]);
            } else {
                assert(msgs@.map_values(|j: Json| j@) =~= Seq::<JsonV>::empty());
            }
        },
        None => {
            assert(msgs@.map_values(|j: Json| j@) =~= Seq::<JsonV>::empty());
        },
    }
    let ghost sys_msgs = msgs@.map_values(|j: Json| j@);
    match body.get("messages") {
        Some(ms) => match ms.as_array() {
            Some(arr) => {
                let ghost mv = arr@.map_values(|j: Json| j@);
                let mut i: usize = 0;
                assert(mv.take(0) =~= Seq::<JsonV>::empty());
                assert(sys_msgs =~= sys_msgs + a2c_messages(mv.take(0)));
                while i < arr.len()
                    invariant
                        i <= arr@.len(),
                        mv == arr@.map_values(|j: Json| j@),
                        msgs@.map_values(|j: Json| j@) == sys_msgs + a2c_messages(mv.take(i as int)),
                    decreases arr@.len() - i,
                {
                    assert(mv.take(i as int + 1).drop_last() =~= mv.take(i as int));
                    push_a2c_message(&arr[i], &mut msgs);
                    assert(msgs@.map_values(|j: Json| j@) =~= sys_msgs + a2c_messages(
                        mv.take(i as int + 1),
                    ));
                    i = i + 1;
                }
                assert(mv.take(arr@.len() as int) =~= mv);
            },
            None => {
                assert(sys_msgs =~= sys_msgs + Seq::<JsonV>::empty());
            },
        },
        None => {
            assert(sys_msgs =~= sys_msgs + Seq::<JsonV>::empty());
        },
    }
    let mut payload = Json::object();
    payload.set("messages", Json::array(msgs));
    payload.set("stream", Json::boolean(stream));
    payload.set_opt("model", copy_ref(body.get("model")));
    payload.set_opt("tools", anthropic_tools_to_chat(body.get("tools")));
    copy_sampling_exec(&mut payload, body);
    payload.set_opt("max_tokens", copy_ref(body.get("max_tokens")));
    apply_override_exec(&mut payload, model_override);
    payload
}

/// The reasoning effort of a Chat request reaches the Responses payload as
/// it was given, except `"none"`, which becomes `"high"`; a request without
/// one gives a payload without one.
pub proof fn law_reasoning_effort_passes_through(body: JsonV, stream: bool, model_override: Seq<char>)
    ensures
        ({
            let p = chat_to_responses_payload_v(body, stream, model_override);
            &&& (body.get_str("reasoning_effort"@) is Some && body.get_str("reasoning_effort"@)->0
                != "none"@ ==> p.get("reasoning_effort"@) == Some(
                JsonV::Str(body.get_str("reasoning_effort"@)->0),
            ))
            &&& (body.get_str("reasoning_effort"@) == Some("none"@) ==> p.get("reasoning_effort"@)
                == Some(JsonV::Str("high"@)))
            &&& (body.get_str("reasoning_effort"@) is None ==> p.get("reasoning_effort"@) is None)
        }),
{
    let k = "reasoning_effort"@;
    reveal_strlit("reasoning_effort");
    reveal_strlit("input");
    reveal_strlit("stream");
    reveal_strlit("model");
    reveal_strlit("tools");
    reveal_strlit("temperature");
    reveal_strlit("top_p");
    reveal_strlit("max_output_tokens");
    let p00 = empty_obj().set("input"@, JsonV::Array(convert_messages_v(or_null(body.get("messages"@)))));
    let p0 = p00.set("stream"@, JsonV::Bool(stream));
    law_set_keeps_others(empty_obj(), "input"@, JsonV::Array(convert_messages_v(or_null(body.get("messages"@)))), k);
    law_set_keeps_others(p00, "stream"@, JsonV::Bool(stream), k);
    let p1 = set_opt(p0, "model"@, body.get("model"@));
    lemma_set_opt_keeps(p0, "model"@, body.get("model"@), k);
    let p2 = set_opt(p1, "tools"@, convert_tools_v(body.get("tools"@)));
    lemma_set_opt_keeps(p1, "tools"@, convert_tools_v(body.get("tools"@)), k);
    let p2a = set_opt(p2, "temperature"@, body.get("temperature"@));
    lemma_set_opt_keeps(p2, "temperature"@, body.get("temperature"@), k);
    let p3 = set_opt(p2a, "top_p"@, body.get("top_p"@));
    lemma_set_opt_keeps(p2a, "top_p"@, body.get("top_p"@), k);
    assert(p3 == copy_sampling(p2, body));
    let mx = or_else(body.get("max_tokens"@), body.get("max_completion_tokens"@));
    let p4 = set_opt(p3, "max_output_tokens"@, mx);
    lemma_set_opt_keeps(p3, "max_output_tokens"@, mx, k);
    assert(empty_obj().get(k) is None);
    assert(p4.get(k) is None);
    let p5 = match body.get_str(k) {
        Some(r) => p4.set(
            k,
            JsonV::Str(
                if r == "none"@ {
                    "high"@
                } else {
                    r
                },
            ),
        ),
        None => p4,
    };
    match body.get_str(k) {
        Some(r) => {
            law_set_then_get(p4, k, JsonV::Str(if r == "none"@ { "high"@ } else { r }));
        },
        None => {},
    }
    assert(p5 is Object);
    if model_override.len() > 0 {
        law_set_keeps_others(p5, "model"@, JsonV::Str(model_override), k);
    }
}

/// The Responses input item of a Chat message with string content, from a
/// role other than `tool`, without tool calls: `{"type": "message", "role":
/// role, "content": content}`.
pub open spec fn expected_chat_item(m: JsonV) -> JsonV {
    empty_obj().set("type"@, JsonV::Str("message"@)).set(
        "role"@,
        JsonV::Str(m.str_or("role"@, ""@)),
    ).set("content"@, m.get("content"@)->0)
}

/// A Chat message with string content, not from a tool, without tool calls.
pub open spec fn plain_chat_message(m: JsonV) -> bool {
    &&& m.get("content"@) matches Some(JsonV::Str(_))
    &&& m.str_or("role"@, ""@) != "tool"@
    &&& m.get("tool_calls"@) is None
}

proof fn lemma_plain_chat_items(ms: Seq<JsonV>)
    requires
        forall|i: int| 0 <= i < ms.len() ==> #[trigger] plain_chat_message(ms[i]),
    ensures
        chat_messages_items(ms) == ms.map_values(|m: JsonV| expected_chat_item(m)),
    decreases ms.len(),
{
    if ms.len() > 0 {
        let d = ms.drop_last();
        assert forall|i: int| 0 <= i < d.len() implies #[trigger] plain_chat_message(d[i]) by {
            assert(d[i] == ms[i]);
            assert(plain_chat_message(ms[i]));
        }
        lemma_plain_chat_items(d);
        assert(plain_chat_message(ms[ms.len() - 1]));
        let f = |m: JsonV| expected_chat_item(m);
        assert(chat_message_items(ms.last()) == seq![f(ms.last())]);
        assert(ms.map_values(f) =~= d.map_values(f).push(f(ms.last())));
        assert(chat_messages_items(ms) =~= chat_messages_items(d) + seq![f(ms.last())]);
    }
}

/// The Responses payload of a Chat request carries the request's stream
/// flag, its model (the override where one is set), and, where all its
/// messages have string content and come from neither a tool nor a tool
/// call, one input message per request message, in order, with that
/// message's role and content.
pub proof fn law_chat_payload_keeps_model_stream_messages(
    body: JsonV,
    stream: bool,
    model_override: Seq<char>,
)
    ensures
        ({
            let p = chat_to_responses_payload_v(body, stream, model_override);
            &&& p.get("stream"@) == Some(JsonV::Bool(stream))
            &&& p.get("model"@) == (if model_override.len() > 0 {
                Some(JsonV::Str(model_override))
            } else {
                body.get("model"@)
            })
            &&& (body.get("messages"@) matches Some(JsonV::Array(ms)) && (forall|i: int|
                0 <= i < ms.len() ==> #[trigger] plain_chat_message(ms[i]))) ==> p.get("input"@)
                == Some(
                JsonV::Array(
                    body.get("messages"@)->0->Array_0.map_values(|m: JsonV| expected_chat_item(m)),
                ),
            )
        }),
{
    reveal_strlit("reasoning_effort");
    reveal_strlit("input");
    reveal_strlit("stream");
    reveal_strlit("model");
    reveal_strlit("tools");
    reveal_strlit("temperature");
    reveal_strlit("top_p");
    reveal_strlit("max_output_tokens");
    let input = JsonV::Array(convert_messages_v(or_null(body.get("messages"@))));
    let p00 = empty_obj().set("input"@, input);
    let p0 = p00.set("stream"@, JsonV::Bool(stream));
    law_set_then_get(empty_obj(), "input"@, input);
    law_set_keeps_others(p00, "stream"@, JsonV::Bool(stream), "input"@);
    law_set_then_get(p00, "stream"@, JsonV::Bool(stream));
    law_set_keeps_others(empty_obj(), "input"@, input, "model"@);
    law_set_keeps_others(p00, "stream"@, JsonV::Bool(stream), "model"@);
    assert(empty_obj().get("model"@) is None);
    let p1 = set_opt(p0, "model"@, body.get("model"@));
    lemma_set_opt_keeps(p0, "model"@, body.get("model"@), "input"@);
    lemma_set_opt_keeps(p0, "model"@, body.get("model"@), "stream"@);
    match body.get("model"@) {
        Some(x) => law_set_then_get(p0, "model"@, x),
        None => {},
    }
    assert(p1.get("model"@) == body.get("model"@));
    let p2 = set_opt(p1, "tools"@, convert_tools_v(body.get("tools"@)));
    let p2a = set_opt(p2, "temperature"@, body.get("temperature"@));
    let p3 = set_opt(p2a, "top_p"@, body.get("top_p"@));
    let mx = or_else(body.get("max_tokens"@), body.get("max_completion_tokens"@));
    let p4 = set_opt(p3, "max_output_tokens"@, mx);
    let k = "reasoning_effort"@;
    let p5 = match body.get_str(k) {
        Some(r) => p4.set(
            k,
            JsonV::Str(
                if r == "none"@ {
                    "high"@
                } else {
                    r
                },
            ),
        ),
        None => p4,
    };
    let keys = seq!["input"@, "stream"@, "model"@];
    assert forall|j: int| 0 <= j < 3 implies p5.get(#[trigger] keys[j]) == p1.get(keys[j]) by {
        let kk = keys[j];
        lemma_set_opt_keeps(p1, "tools"@, convert_tools_v(body.get("tools"@)), kk);
        lemma_set_opt_keeps(p2, "temperature"@, body.get("temperature"@), kk);
        lemma_set_opt_keeps(p2a, "top_p"@, body.get("top_p"@), kk);
        lemma_set_opt_keeps(p3, "max_output_tokens"@, mx, kk);
        match body.get_str(k) {
            Some(r) => law_set_keeps_others(
                p4,
                k,
                JsonV::Str(
                    if r == "none"@ {
                        "high"@
                    } else {
                        r
                    },
                ),
                kk,
            ),
            None => {},
        }
    }
    assert(keys[0] == "input"@ && keys[1] == "stream"@ && keys[2] == "model"@);
    assert(p3 == copy_sampling(p2, body));
    assert(p5 is Object);
    if model_override.len() > 0 {
        law_set_keeps_others(p5, "model"@, JsonV::Str(model_override), "input"@);
        law_set_keeps_others(p5, "model"@, JsonV::Str(model_override), "stream"@);
        law_set_then_get(p5, "model"@, JsonV::Str(model_override));
    }
    match body.get("messages"@) {
        Some(JsonV::Array(ms)) => {
            if forall|i: int| 0 <= i < ms.len() ==> #[trigger] plain_chat_message(ms[i]) {
                lemma_plain_chat_items(ms);
            }
        },
        _ => {},
    }
}

/// The Responses input message for an Anthropic message with role `role`
/// and text `text`: `{"type": "message", "role": role, "content":
/// [{"type": "output_text" for the assistant, else "input_text", "text": text}]}`.
pub open spec fn expected_message_item(role: Seq<char>, text: Seq<char>) -> JsonV {
    empty_obj().set("type"@, JsonV::Str("message"@)).set("role"@, JsonV::Str(role)).set(
        "content"@,
        JsonV::Array(
            seq![
                empty_obj().set(
                    "type"@,
                    JsonV::Str(
                        if role == "assistant"@ {
                            "output_text"@
                        } else {
                            "input_text"@
                        },
                    ),
                ).set("text"@, JsonV::Str(text)),
            ],
        ),
    )
}

/// The content of an Anthropic message is a plain, non-empty string.
pub open spec fn plain_text_message(m: JsonV) -> bool {
    m.get("content"@) matches Some(JsonV::Str(s)) && s.len() > 0
}

/// An Anthropic message whose content is a plain string becomes exactly one
/// input message carrying that text under the message's role (`user` where
/// none is given) when the string is not empty, and nothing when it is.
pub proof fn law_plain_message_becomes_one_item(m: JsonV)
    ensures
        m.get("content"@) matches Some(JsonV::Str(s)) ==> anthropic_message_items(m) == (if s.len()
            > 0 {
            seq![expected_message_item(m.str_or("role"@, "user"@), s)]
        } else {
            Seq::<JsonV>::empty()
        }),
{
}

/// The items of messages that are all plain non-empty strings: one input
/// message per message, in order.
proof fn lemma_plain_messages_items(ms: Seq<JsonV>)
    requires
        forall|i: int| 0 <= i < ms.len() ==> #[trigger] plain_text_message(ms[i]),
    ensures
        anthropic_messages_items(ms) == Seq::new(
            ms.len(),
            |i: int| expected_message_item(ms[i].str_or("role"@, "user"@), ms[i].get_str("content"@)->0),
        ),
    decreases ms.len(),
{
    if ms.len() > 0 {
        let d = ms.drop_last();
        assert forall|i: int| 0 <= i < d.len() implies #[trigger] plain_text_message(d[i]) by {
            assert(d[i] == ms[i]);
            assert(plain_text_message(ms[i]));
        }
        lemma_plain_messages_items(d);
        assert(plain_text_message(ms[ms.len() - 1]));
        let f = |i: int| expected_message_item(ms[i].str_or("role"@, "user"@), ms[i].get_str("content"@)->0);
        assert(anthropic_messages_items(ms) =~= Seq::new(ms.len(), f));
    }
}

/// Without a system prompt, the Responses input of an Anthropic request is
/// the items of its messages.
proof fn lemma_input_without_system(body: JsonV, stream: bool, model_override: Seq<char>)
    requires
        body.get("system"@) is None,
        body.get("messages"@) is Some && body.get("messages"@)->0 is Array,
    ensures
        anthropic_to_responses_payload_v(body, stream, model_override).get("input"@) == Some(
            JsonV::Array(anthropic_messages_items(body.get("messages"@)->0->Array_0)),
        ),
{
    let ms = body.get("messages"@)->0->Array_0;
    let k = "input"@;
    reveal_strlit("input");
    reveal_strlit("stream");
    reveal_strlit("model");
    reveal_strlit("tools");
    reveal_strlit("temperature");
    reveal_strlit("top_p");
    reveal_strlit("max_output_tokens");
    let input = JsonV::Array(Seq::<JsonV>::empty() + anthropic_messages_items(ms));
    assert(Seq::<JsonV>::empty() + anthropic_messages_items(ms) =~= anthropic_messages_items(ms));
    let p00 = empty_obj().set(k, input);
    law_set_then_get(empty_obj(), k, input);
    let p0 = p00.set("stream"@, JsonV::Bool(stream));
    law_set_keeps_others(p00, "stream"@, JsonV::Bool(stream), k);
    let p1 = set_opt(p0, "model"@, body.get("model"@));
    lemma_set_opt_keeps(p0, "model"@, body.get("model"@), k);
    let p2 = set_opt(p1, "tools"@, anthropic_tools_v(body.get("tools"@)));
    lemma_set_opt_keeps(p1, "tools"@, anthropic_tools_v(body.get("tools"@)), k);
    let p2a = set_opt(p2, "temperature"@, body.get("temperature"@));
    lemma_set_opt_keeps(p2, "temperature"@, body.get("temperature"@), k);
    let p3 = set_opt(p2a, "top_p"@, body.get("top_p"@));
    lemma_set_opt_keeps(p2a, "top_p"@, body.get("top_p"@), k);
    assert(p3 == copy_sampling(p2, body));
    let p4 = set_opt(p3, "max_output_tokens"@, body.get("max_tokens"@));
    lemma_set_opt_keeps(p3, "max_output_tokens"@, body.get("max_tokens"@), k);
    if model_override.len() > 0 {
        law_set_keeps_others(p4, "model"@, JsonV::Str(model_override), k);
    }
}

/// An Anthropic request without a system prompt whose messages all have
/// plain, non-empty string content gives a Responses payload whose input
/// holds one message per request message, in order, each with that
/// message's role and text.
pub proof fn law_plain_messages_reach_input(body: JsonV, stream: bool, model_override: Seq<char>)
    requires
        body.get("system"@) is None,
        body.get("messages"@) matches Some(JsonV::Array(ms)) && forall|i: int|
            0 <= i < ms.len() ==> #[trigger] plain_text_message(ms[i]),
    ensures
        body.get("messages"@) matches Some(JsonV::Array(ms)) && anthropic_to_responses_payload_v(
            body,
            stream,
            model_override,
        ).get("input"@) == Some(
            JsonV::Array(
                Seq::new(
                    ms.len(),
                    |i: int|
                        expected_message_item(
                            ms[i].str_or("role"@, "user"@),
                            ms[i].get_str("content"@)->0,
                        ),
                ),
            ),
        ),
{
    let ms = body.get("messages"@)->0->Array_0;
    lemma_plain_messages_items(ms);
    lemma_input_without_system(body, stream, model_override);
}

/// The content of an Anthropic message is a string (possibly empty).
pub open spec fn string_content_message(m: JsonV) -> bool {
    m.get("content"@) matches Some(JsonV::Str(_))
}

/// The input message expected for a plain-text Anthropic message.
pub open spec fn expected_plain_item(m: JsonV) -> JsonV {
    expected_message_item(m.str_or("role"@, "user"@), m.get_str("content"@)->0)
}

proof fn lemma_string_messages_items(ms: Seq<JsonV>)
    requires
        forall|i: int| 0 <= i < ms.len() ==> #[trigger] string_content_message(ms[i]),
    ensures
        anthropic_messages_items(ms) == ms.filter(|m: JsonV| plain_text_message(m)).map_values(
            |m: JsonV| expected_plain_item(m),
        ),
    decreases ms.len(),
{
    if ms.len() > 0 {
        let d = ms.drop_last();
        assert forall|i: int| 0 <= i < d.len() implies #[trigger] string_content_message(d[i]) by {
            assert(d[i] == ms[i]);
            assert(string_content_message(ms[i]));
        }
        lemma_string_messages_items(d);
        assert(string_content_message(ms[ms.len() - 1]));
        let m = ms.last();
        let f = |m: JsonV| expected_plain_item(m);
        let fd = d.filter(|m: JsonV| plain_text_message(m));
        reveal(Seq::filter);
        assert(ms.filter(|m: JsonV| plain_text_message(m)) == if plain_text_message(m) {
            fd.push(m)
        } else {
            fd
        });
        law_plain_message_becomes_one_item(m);
        if plain_text_message(m) {
            assert(fd.push(m).map_values(f) =~= fd.map_values(f).push(f(m)));
            assert(anthropic_messages_items(ms) =~= anthropic_messages_items(d) + seq![f(m)]);
        } else {
            assert(anthropic_messages_items(ms) =~= anthropic_messages_items(d));
        }
    }
}

/// An Anthropic request without a system prompt whose messages all have
/// string content gives a Responses payload whose input holds, in message
/// order, one message for each non-empty string (with that message's role
/// and text), and nothing for the empty ones: as many input messages as
/// non-empty messages.
pub proof fn law_string_messages_reach_input(body: JsonV, stream: bool, model_override: Seq<char>)
    requires
        body.get("system"@) is None,
        body.get("messages"@) matches Some(JsonV::Array(ms)) && forall|i: int|
            0 <= i < ms.len() ==> #[trigger] string_content_message(ms[i]),
    ensures
        body.get("messages"@) matches Some(JsonV::Array(ms)) && anthropic_to_responses_payload_v(
            body,
            stream,
            model_override,
        ).get("input"@) == Some(
            JsonV::Array(
                ms.filter(|m: JsonV| plain_text_message(m)).map_values(
                    |m: JsonV| expected_plain_item(m),
                ),
            ),
        ),
{
    let ms = body.get("messages"@)->0->Array_0;
    lemma_string_messages_items(ms);
    lemma_input_without_system(body, stream, model_override);
}


/// A content block of type `text`.
pub open spec fn is_text_block(b: JsonV) -> bool {
    b.str_or("type"@, ""@) == "text"@
}

/// A text block with non-empty text.
pub open spec fn nonempty_text_block(b: JsonV) -> bool {
    b.str_or("text"@, ""@).len() > 0
}

proof fn lemma_text_blocks_items(blocks: Seq<JsonV>, role: Seq<char>)
    requires
        forall|i: int| 0 <= i < blocks.len() ==> #[trigger] is_text_block(blocks[i]),
    ensures
        anthropic_block_items_list(blocks, role) == blocks.filter(
            |b: JsonV| nonempty_text_block(b),
        ).map_values(|b: JsonV| expected_message_item(role, b.str_or("text"@, ""@))),
    decreases blocks.len(),
{
    if blocks.len() > 0 {
        let d = blocks.drop_last();
        assert forall|i: int| 0 <= i < d.len() implies #[trigger] is_text_block(d[i]) by {
            assert(d[i] == blocks[i]);
            assert(is_text_block(blocks[i]));
        }
        lemma_text_blocks_items(d, role);
        let b = blocks.last();
        assert(is_text_block(blocks[blocks.len() - 1]));
        let f = |b: JsonV| expected_message_item(role, b.str_or("text"@, ""@));
        let fd = d.filter(|b: JsonV| nonempty_text_block(b));
        reveal(Seq::filter);
        assert(blocks.filter(|b: JsonV| nonempty_text_block(b)) == if nonempty_text_block(b) {
            fd.push(b)
        } else {
            fd
        });
        if nonempty_text_block(b) {
            assert(anthropic_block_item(b, role) == Some(f(b)));
            assert(fd.push(b).map_values(f) =~= fd.map_values(f).push(f(b)));
            assert(anthropic_block_items_list(blocks, role) =~= anthropic_block_items_list(d, role)
                + seq![f(b)]);
        } else {
            assert(anthropic_block_item(b, role) is None);
            assert(anthropic_block_items_list(blocks, role) =~= anthropic_block_items_list(d, role));
        }
    }
}

/// An Anthropic message whose content is a list of text blocks becomes one
/// input message per non-empty text block, in order, each under the
/// message's role (`user` where none is given); empty blocks give nothing.
pub proof fn law_text_blocks_become_messages(m: JsonV)
    requires
        m.get("content"@) matches Some(JsonV::Array(blocks)) && forall|i: int|
            0 <= i < blocks.len() ==> #[trigger] is_text_block(blocks[i]),
    ensures
        anthropic_message_items(m) == m.get("content"@)->0->Array_0.filter(
            |b: JsonV| nonempty_text_block(b),
        ).map_values(|b: JsonV| expected_message_item(m.str_or("role"@, "user"@), b.str_or("text"@, ""@))),
{
    lemma_text_blocks_items(m.get("content"@)->0->Array_0, m.str_or("role"@, "user"@));
}
} // verus!
