//! Response conversion for non-streaming requests, token usage read from
//! upstream responses, and request ids.
use vstd::prelude::*;

use crate::convert::{
    a2c_calls, a2c_texts, chat_tool_call_v, or_empty_obj, path_str_or, text_block, tool_use_block,
};
use crate::json::{empty_obj, json_text, parse_or_empty, parsed_or_empty, ref_view, Json, JsonV};
use crate::stats::TokenCounts;
use crate::text::{decimal, join, join_spec, push_str, str_eq, to_owned, u64_to_text};

verus! {

// ──────── request ids ────────

/// The source of request ids: each id is the previous one plus one
/// (wrapping), starting from 1000.
pub struct RequestIds {
    pub next: u64,
}

impl RequestIds {
    /// Ids starting at 1000.
    pub fn new() -> (r: Self)
        ensures
            r.next == 1000,
    {
        RequestIds { next: 1000 }
    }

    /// The next id.
    pub fn next_request_id(&mut self) -> (r: u64)
        ensures
            r == old(self).next,
            final(self).next == (if old(self).next == u64::MAX {
                0
            } else {
                old(self).next + 1
            }),
    {
        let r = self.next;
        self.next = self.next.wrapping_add(1);
        r
    }
}

/// `prefix` followed by the decimal id.
pub open spec fn id_text(prefix: Seq<char>, id: u64) -> Seq<char> {
    prefix + decimal(id as nat)
}

fn id_text_exec(prefix: &str, id: u64) -> (r: String)
    ensures
        r@ == id_text(prefix@, id),
{
    let mut s = to_owned(prefix);
    push_str(&mut s, u64_to_text(id).as_str());
    s
}

/// The JSON number `n`.
pub open spec fn num(n: u64) -> JsonV {
    JsonV::Number(decimal(n as nat))
}

/// `v[k]` as an unsigned integer, 0 where missing or not one.
pub open spec fn u64_or_zero(o: Option<JsonV>) -> u64 {
    match o {
        Some(x) => match x.as_u64() {
            Some(n) => n,
            None => 0,
        },
        None => 0,
    }
}

pub(crate) fn u64_or_zero_exec(o: Option<&Json>) -> (r: u64)
    ensures
        r == u64_or_zero(ref_view(o)),
{
    match o {
        Some(x) => match x.as_u64() {
            Some(n) => n,
            None => 0,
        },
        None => 0,
    }
}

/// `v[k1][k2]`, where both steps exist.
pub open spec fn path2(v: JsonV, k1: Seq<char>, k2: Seq<char>) -> Option<JsonV> {
    match v.get(k1) {
        Some(x) => x.get(k2),
        None => None,
    }
}

pub(crate) fn path2_exec<'a>(v: &'a Json, k1: &str, k2: &str) -> (r: Option<&'a Json>)
    ensures
        ref_view(r) == path2(v@, k1@, k2@),
{
    match v.get(k1) {
        Some(x) => x.get(k2),
        None => None,
    }
}

/// `v[k1][k2][k3]`, where all steps exist.
pub open spec fn path3(v: JsonV, k1: Seq<char>, k2: Seq<char>, k3: Seq<char>) -> Option<JsonV> {
    match path2(v, k1, k2) {
        Some(x) => x.get(k3),
        None => None,
    }
}

/// The JSON pointer `/choices/0/<k>`.
pub open spec fn choice0(v: JsonV, k: Seq<char>) -> Option<JsonV> {
    match v.get("choices"@) {
        Some(c) => match c.first() {
            Some(f) => f.get(k),
            None => None,
        },
        None => None,
    }
}

fn choice0_exec<'a>(v: &'a Json, k: &str) -> (r: Option<&'a Json>)
    ensures
        ref_view(r) == choice0(v@, k@),
{
    match v.get("choices") {
        Some(c) => match c.first() {
            Some(f) => f.get(k),
            None => None,
        },
        None => None,
    }
}

/// A member, or a copy of the default where missing.
fn copy_or(o: Option<&Json>, d: Json) -> (r: Json)
    ensures
        r@ == (match ref_view(o) {
            Some(v) => v,
            None => d@,
        }),
{
    match o {
        Some(v) => v.copy(),
        None => d,
    }
}

// ──────── token usage of upstream responses ────────

/// Usage of a Responses object (`usage`): input, output, and cached tokens
/// (`cached_tokens`, else `input_tokens_details.cached_tokens`), 0 where
/// missing.
pub open spec fn responses_usage_v(u: Option<JsonV>) -> (u64, u64, u64) {
    match u {
        Some(u) => (
            u64_or_zero(u.get("input_tokens"@)),
            u64_or_zero(u.get("output_tokens"@)),
            match u.get("cached_tokens"@) {
                Some(c) if c.as_u64() is Some => c.as_u64()->0,
                _ => u64_or_zero(path2(u, "input_tokens_details"@, "cached_tokens"@)),
            },
        ),
        None => (0, 0, 0),
    }
}

/// The counts of a usage triple.
pub open spec fn counts_of(t: (u64, u64, u64)) -> TokenCounts {
    TokenCounts { input: t.0, output: t.1, cached: t.2 }
}

/// Token usage of a Responses usage object.
pub fn responses_usage(u: Option<&Json>) -> (r: TokenCounts)
    ensures
        r == counts_of(responses_usage_v(ref_view(u))),
{
    match u {
        Some(u) => {
            let input = u64_or_zero_exec(u.get("input_tokens"));
            let output = u64_or_zero_exec(u.get("output_tokens"));
            let direct = match u.get("cached_tokens") {
                Some(c) => c.as_u64(),
                None => None,
            };
            let cached = match direct {
                Some(n) => n,
                None => u64_or_zero_exec(path2_exec(u, "input_tokens_details", "cached_tokens")),
            };
            TokenCounts { input, output, cached }
        },
        None => TokenCounts { input: 0, output: 0, cached: 0 },
    }
}

/// Usage of a Chat Completions object (`usage`): prompt, completion and
/// cached (`prompt_tokens_details.cached_tokens`) tokens, 0 where missing.
pub open spec fn chat_usage_v(u: Option<JsonV>) -> (u64, u64, u64) {
    match u {
        Some(u) => (
            u64_or_zero(u.get("prompt_tokens"@)),
            u64_or_zero(u.get("completion_tokens"@)),
            u64_or_zero(path2(u, "prompt_tokens_details"@, "cached_tokens"@)),
        ),
        None => (0, 0, 0),
    }
}

/// Token usage of a Chat Completions usage object.
pub fn chat_usage(u: Option<&Json>) -> (r: TokenCounts)
    ensures
        r == counts_of(chat_usage_v(ref_view(u))),
{
    match u {
        Some(u) => TokenCounts {
            input: u64_or_zero_exec(u.get("prompt_tokens")),
            output: u64_or_zero_exec(u.get("completion_tokens")),
            cached: u64_or_zero_exec(path2_exec(u, "prompt_tokens_details", "cached_tokens")),
        },
        None => TokenCounts { input: 0, output: 0, cached: 0 },
    }
}

/// Usage of an Anthropic object (`usage`): input and output tokens, no
/// cached count.
pub open spec fn anthropic_usage_v(u: Option<JsonV>) -> (u64, u64, u64) {
    match u {
        Some(u) => (u64_or_zero(u.get("input_tokens"@)), u64_or_zero(u.get("output_tokens"@)), 0),
        None => (0, 0, 0),
    }
}

/// Token usage of an Anthropic usage object.
pub fn anthropic_usage(u: Option<&Json>) -> (r: TokenCounts)
    ensures
        r == counts_of(anthropic_usage_v(ref_view(u))),
{
    match u {
        Some(u) => TokenCounts {
            input: u64_or_zero_exec(u.get("input_tokens")),
            output: u64_or_zero_exec(u.get("output_tokens")),
            cached: 0,
        },
        None => TokenCounts { input: 0, output: 0, cached: 0 },
    }
}

/// Sum of the character counts of the `output_text` parts of a Responses
/// object's output, wrapping at 2^64 as the `u64` counter does.
pub open spec fn output_chars_sum(items: Seq<JsonV>) -> nat
    decreases items.len(),
{
    if items.len() == 0 {
        0
    } else {
        output_chars_sum(items.drop_last()) + match items.last().get("content"@) {
            Some(JsonV::Array(parts)) => part_chars_sum(parts),
            _ => 0,
        }
    }
}

/// Sum of the character counts of the `output_text` parts of a part list.
pub open spec fn part_chars_sum(parts: Seq<JsonV>) -> nat
    decreases parts.len(),
{
    if parts.len() == 0 {
        0
    } else {
        let p = parts.last();
        part_chars_sum(parts.drop_last()) + if p.get_str("type"@) == Some("output_text"@) {
            match p.get_str("text"@) {
                Some(t) => t.len(),
                None => 0,
            }
        } else {
            0
        }
    }
}

/// `estimate_response_output_chars`.
pub open spec fn estimate_response_output_chars_v(v: JsonV) -> u64 {
    match v.get("output"@) {
        Some(JsonV::Array(items)) => (output_chars_sum(items) % 0x1_0000_0000_0000_0000) as u64,
        _ => 0,
    }
}

/// Characters of the `output_text` parts of a non-streaming Responses object.
pub fn estimate_response_output_chars(v: &Json) -> (r: u64)
    ensures
        r == estimate_response_output_chars_v(v@),
{
    let items = match v.get("output") {
        Some(o) => match o.as_array() {
            Some(a) => a,
            None => return 0,
        },
        None => return 0,
    };
    let ghost iv = items@.map_values(|j: Json| j@);
    let mut n: u64 = 0;
    let mut i: usize = 0;
    assert(iv.take(0) =~= Seq::<JsonV>::empty());
    while i < items.len()
        invariant
            i <= items@.len(),
            iv == items@.map_values(|j: Json| j@),
            n == output_chars_sum(iv.take(i as int)) % 0x1_0000_0000_0000_0000,
        decreases items@.len() - i,
    {
        assert(iv.take(i as int + 1).drop_last() =~= iv.take(i as int));
        let ghost before = output_chars_sum(iv.take(i as int));
        match items[i].get("content") {
            Some(c) => match c.as_array() {
                Some(parts) => {
                    let ghost pv = parts@.map_values(|j: Json| j@);
                    let mut k: usize = 0;
                    assert(pv.take(0) =~= Seq::<JsonV>::empty());
                    while k < parts.len()
                        invariant
                            k <= parts@.len(),
                            pv == parts@.map_values(|j: Json| j@),
                            n == (before + part_chars_sum(pv.take(k as int))) % 0x1_0000_0000_0000_0000,
                        decreases parts@.len() - k,
                    {
                        assert(pv.take(k as int + 1).drop_last() =~= pv.take(k as int));
                        let p = &parts[k];
                        let is_out = match p.get_str("type") {
                            Some(t) => str_eq(t, "output_text"),
                            None => false,
                        };
                        if is_out {
                            match p.get_str("text") {
                                Some(t) => {
                                    let c: u64 = t.unicode_len() as u64;
                                    n = n.wrapping_add(c);
                                },
                                None => {},
                            }
                        }
                        k = k + 1;
                    }
                    assert(pv.take(parts@.len() as int) =~= pv);
                },
                None => {},
            },
            None => {},
        }
        i = i + 1;
    }
    assert(iv.take(items@.len() as int) =~= iv);
    n
}

// ──────── non-streaming responses ────────

/// `{"type": "message", "role": "assistant", "content": [{"type":
/// "output_text", "text": t}]}`.
pub open spec fn output_message(t: Seq<char>) -> JsonV {
    empty_obj().set("type"@, JsonV::Str("message"@)).set("role"@, JsonV::Str("assistant"@)).set(
        "content"@,
        JsonV::Array(
            seq![
                empty_obj().set("type"@, JsonV::Str("output_text"@)).set("text"@, JsonV::Str(t)),
            ],
        ),
    )
}

fn output_message_exec(t: &str) -> (r: Json)
    ensures
        r@ == output_message(t@),
{
    let mut part = Json::object();
    part.set("type", Json::string("output_text"));
    part.set("text", Json::string(t));
    let ghost pv = part@;
    let mut parts: Vec<Json> = Vec::new();
    parts.push(part);
    assert(parts@.map_values(|j: Json| j@) =~= seq![pv]);
    let mut o = Json::object();
    o.set("type", Json::string("message"));
    o.set("role", Json::string("assistant"));
    o.set("content", Json::array(parts));
    o
}

/// A `function_call` output item.
pub open spec fn function_call_item(call_id: Seq<char>, name: Seq<char>, args: Seq<char>) -> JsonV {
    empty_obj().set("type"@, JsonV::Str("function_call"@)).set("call_id"@, JsonV::Str(call_id)).set(
        "name"@,
        JsonV::Str(name),
    ).set("arguments"@, JsonV::Str(args))
}

fn function_call_item_exec(call_id: &str, name: &str, args: String) -> (r: Json)
    ensures
        r@ == function_call_item(call_id@, name@, args@),
{
    let mut o = Json::object();
    o.set("type", Json::string("function_call"));
    o.set("call_id", Json::string(call_id));
    o.set("name", Json::string(name));
    o.set("arguments", Json::from_string(args));
    o
}

/// The `function_call` items of Chat tool calls.
pub open spec fn chat_calls_items(tcs: Seq<JsonV>) -> Seq<JsonV>
    decreases tcs.len(),
{
    if tcs.len() == 0 {
        Seq::empty()
    } else {
        let tc = tcs.last();
        chat_calls_items(tcs.drop_last()) + seq![
            function_call_item(
                tc.str_or("id"@, ""@),
                path_str_or(tc, "function"@, "name"@, ""@),
                path_str_or(tc, "function"@, "arguments"@, "{}"@),
            ),
        ]
    }
}

/// The message of the first choice, an empty object where there is none.
pub open spec fn first_message(v: JsonV) -> JsonV {
    match choice0(v, "message"@) {
        Some(m) => m,
        None => empty_obj(),
    }
}

/// A non-streaming Chat Completions response as a Responses object.
pub open spec fn chat_json_to_responses_v(v: JsonV, model: Seq<char>, id: u64) -> JsonV {
    let msg = first_message(v);
    let text = match msg.get_str("content"@) {
        Some(t) => if t.len() > 0 {
            seq![output_message(t)]
        } else {
            Seq::empty()
        },
        None => Seq::empty(),
    };
    let calls = match msg.get("tool_calls"@) {
        Some(JsonV::Array(tcs)) => chat_calls_items(tcs),
        _ => Seq::empty(),
    };
    let u = or_empty_obj(v.get("usage"@));
    empty_obj().set("id"@, JsonV::Str(id_text("resp-"@, id))).set(
        "object"@,
        JsonV::Str("response"@),
    ).set("model"@, JsonV::Str(model)).set("output"@, JsonV::Array(text + calls)).set(
        "usage"@,
        empty_obj().set("input_tokens"@, num(u64_or_zero(u.get("prompt_tokens"@)))).set(
            "output_tokens"@,
            num(u64_or_zero(u.get("completion_tokens"@))),
        ).set(
            "cached_tokens"@,
            num(u64_or_zero(path2(u, "prompt_tokens_details"@, "cached_tokens"@))),
        ),
    )
}

fn first_message_exec(v: &Json) -> (r: Json)
    ensures
        r@ == first_message(v@),
{
    copy_or(choice0_exec(v, "message"), Json::object())
}

/// `chat_json_to_responses`.
pub fn chat_json_to_responses(v: &Json, model: &str, ids: &mut RequestIds) -> (r: Json)
    ensures
        r@ == chat_json_to_responses_v(v@, model@, old(ids).next),
        final(ids).next == (if old(ids).next == u64::MAX {
            0
        } else {
            old(ids).next + 1
        }),
{
    let msg = first_message_exec(v);
    let mut items: Vec<Json> = Vec::new();
    match msg.get_str("content") {
        Some(t) => {
            if t.unicode_len() > 0 {
                items.push(output_message_exec(t));
            }
        },
        None => {},
    }
    let ghost tv = items@.map_values(|j: Json| j@);
    assert(tv =~= match msg@.get_str("content"@) {
        Some(t) => if t.len() > 0 {
            seq![output_message(t)]
        } else {
            Seq::<JsonV>::empty()
        },
        None => Seq::<JsonV>::empty(),
    });
    match msg.get("tool_calls") {
        Some(t) => match t.as_array() {
            Some(tcs) => {
                let ghost cv = tcs@.map_values(|j: Json| j@);
                let mut i: usize = 0;
                assert(cv.take(0) =~= Seq::<JsonV>::empty());
                assert(tv =~= tv + chat_calls_items(cv.take(0)));
                while i < tcs.len()
                    invariant
                        i <= tcs@.len(),
                        cv == tcs@.map_values(|j: Json| j@),
                        items@.map_values(|j: Json| j@) == tv + chat_calls_items(cv.take(i as int)),
                    decreases tcs@.len() - i,
                {
                    assert(cv.take(i as int + 1).drop_last() =~= cv.take(i as int));
                    assert(cv.take(i as int + 1).last() == tcs@[i as int]@);
                    let tc = &tcs[i];
                    let name = match tc.get("function") {
                        Some(f) => f.str_or("name", ""),
                        None => "",
                    };
                    let args = match tc.get("function") {
                        Some(f) => f.str_or("arguments", "{}"),
                        None => "{}",
                    };
                    let it = function_call_item_exec(tc.str_or("id", ""), name, to_owned(args));
                    let ghost cur = items@.map_values(|j: Json| j@);
                    let ghost itv = it@;
                    items.push(it);
                    assert(items@.map_values(|j: Json| j@) =~= cur.push(itv));
                    assert(items@.map_values(|j: Json| j@) =~= tv + chat_calls_items(
                        cv.take(i as int + 1),
                    ));
                    i = i + 1;
                }
                assert(cv.take(tcs@.len() as int) =~= cv);
            },
            None => {
                assert(tv =~= tv + Seq::<JsonV>::empty());
            },
        },
        None => {
            assert(tv =~= tv + Seq::<JsonV>::empty());
        },
    }
    let u = copy_or(v.get("usage"), Json::object());
    let mut usage = Json::object();
    usage.set("input_tokens", Json::number(u64_or_zero_exec(u.get("prompt_tokens"))));
    usage.set("output_tokens", Json::number(u64_or_zero_exec(u.get("completion_tokens"))));
    usage.set(
        "cached_tokens",
        Json::number(u64_or_zero_exec(path2_exec(&u, "prompt_tokens_details", "cached_tokens"))),
    );
    let id = ids.next_request_id();
    let mut o = Json::object();
    o.set("id", Json::from_string(id_text_exec("resp-", id)));
    o.set("object", Json::string("response"));
    o.set("model", Json::string(model));
    o.set("output", Json::array(items));
    o.set("usage", usage);
    o
}

/// The output items of Anthropic content blocks: non-empty text as a
/// message, `tool_use` as a function call with the input's JSON text.
pub open spec fn anthropic_blocks_items(blocks: Seq<JsonV>) -> Seq<JsonV>
    decreases blocks.len(),
{
    if blocks.len() == 0 {
        Seq::empty()
    } else {
        let b = blocks.last();
        let ty = b.str_or("type"@, ""@);
        anthropic_blocks_items(blocks.drop_last()) + if ty == "text"@ {
            let t = b.str_or("text"@, ""@);
            if t.len() > 0 {
                seq![output_message(t)]
            } else {
                Seq::empty()
            }
        } else if ty == "tool_use"@ {
            seq![
                function_call_item(
                    b.str_or("id"@, ""@),
                    b.str_or("name"@, ""@),
                    json_text(or_empty_obj(b.get("input"@))),
                ),
            ]
        } else {
            Seq::empty()
        }
    }
}

/// A non-streaming Anthropic response as a Responses object.
pub open spec fn anthropic_json_to_responses_v(v: JsonV, model: Seq<char>, id: u64) -> JsonV {
    let items = match v.get("content"@) {
        Some(JsonV::Array(blocks)) => anthropic_blocks_items(blocks),
        _ => Seq::empty(),
    };
    let u = or_empty_obj(v.get("usage"@));
    empty_obj().set("id"@, JsonV::Str(id_text("resp-"@, id))).set(
        "object"@,
        JsonV::Str("response"@),
    ).set("model"@, JsonV::Str(model)).set("output"@, JsonV::Array(items)).set(
        "usage"@,
        empty_obj().set("input_tokens"@, num(u64_or_zero(u.get("input_tokens"@)))).set(
            "output_tokens"@,
            num(u64_or_zero(u.get("output_tokens"@))),
        ),
    )
}

/// `anthropic_json_to_responses`.
pub fn anthropic_json_to_responses(v: &Json, model: &str, ids: &mut RequestIds) -> (r: Json)
    ensures
        r@ == anthropic_json_to_responses_v(v@, model@, old(ids).next),
        final(ids).next == (if old(ids).next == u64::MAX {
            0
        } else {
            old(ids).next + 1
        }),
{
    let mut items: Vec<Json> = Vec::new();
    assert(items@.map_values(|j: Json| j@) =~= Seq::<JsonV>::empty());
    match v.get("content") {
        Some(c) => match c.as_array() {
            Some(blocks) => {
                let ghost bv = blocks@.map_values(|j: Json| j@);
                let mut i: usize = 0;
                assert(bv.take(0) =~= Seq::<JsonV>::empty());
                while i < blocks.len()
                    invariant
                        i <= blocks@.len(),
                        bv == blocks@.map_values(|j: Json| j@),
                        items@.map_values(|j: Json| j@) == anthropic_blocks_items(bv.take(i as int)),
                    decreases blocks@.len() - i,
                {
                    assert(bv.take(i as int + 1).drop_last() =~= bv.take(i as int));
                    let b = &blocks[i];
                    let ty = b.str_or("type", "");
                    let ghost cur = items@.map_values(|j: Json| j@);
                    if str_eq(ty, "text") {
                        let t = b.str_or("text", "");
                        if t.unicode_len() > 0 {
                            let m = output_message_exec(t);
                            let ghost mv = m@;
                            items.push(m);
                            assert(items@.map_values(|j: Json| j@) =~= cur.push(mv));
                        }
                    } else if str_eq(ty, "tool_use") {
                        let args = match b.get("input") {
                            Some(x) => x.to_text(),
                            None => Json::object().to_text(),
                        };
                        let m = function_call_item_exec(b.str_or("id", ""), b.str_or("name", ""), args);
                        let ghost mv = m@;
                        items.push(m);
                        assert(items@.map_values(|j: Json| j@) =~= cur.push(mv));
                    }
                    assert(items@.map_values(|j: Json| j@) =~= anthropic_blocks_items(
                        bv.take(i as int + 1),
                    ));
                    i = i + 1;
                }
                assert(bv.take(blocks@.len() as int) =~= bv);
            },
            None => {},
        },
        None => {},
    }
    let u = copy_or(v.get("usage"), Json::object());
    let mut usage = Json::object();
    usage.set("input_tokens", Json::number(u64_or_zero_exec(u.get("input_tokens"))));
    usage.set("output_tokens", Json::number(u64_or_zero_exec(u.get("output_tokens"))));
    let id = ids.next_request_id();
    let mut o = Json::object();
    o.set("id", Json::from_string(id_text_exec("resp-", id)));
    o.set("object", Json::string("response"));
    o.set("model", Json::string(model));
    o.set("output", Json::array(items));
    o.set("usage", usage);
    o
}

/// The assistant message of a Chat completion: the text (`null` where empty)
/// and the tool calls (where there are any).
pub open spec fn chat_message_v(text: Seq<char>, calls: Seq<JsonV>) -> JsonV {
    let m = empty_obj().set("role"@, JsonV::Str("assistant"@)).set(
        "content"@,
        if text.len() == 0 {
            JsonV::Null
        } else {
            JsonV::Str(text)
        },
    );
    if calls.len() > 0 {
        m.set("tool_calls"@, JsonV::Array(calls))
    } else {
        m
    }
}

pub(crate) fn chat_message_exec(text: String, calls: Vec<Json>) -> (r: Json)
    ensures
        r@ == chat_message_v(text@, calls@.map_values(|j: Json| j@)),
{
    let mut m = Json::object();
    m.set("role", Json::string("assistant"));
    if text.unicode_len() == 0 {
        m.set("content", Json::null());
    } else {
        m.set("content", Json::from_string(text));
    }
    if calls.len() > 0 {
        m.set("tool_calls", Json::array(calls));
    }
    m
}

/// `[{"index": 0, "message": message, "finish_reason": finish}]`.
pub open spec fn single_choice(message: JsonV, finish: Seq<char>) -> JsonV {
    JsonV::Array(
        seq![
            empty_obj().set("index"@, num(0)).set("message"@, message).set(
                "finish_reason"@,
                JsonV::Str(finish),
            ),
        ],
    )
}

pub(crate) fn single_choice_exec(message: Json, finish: &str) -> (r: Json)
    ensures
        r@ == single_choice(message@, finish@),
{
    let mut c = Json::object();
    c.set("index", Json::number(0));
    c.set("message", message);
    c.set("finish_reason", Json::string(finish));
    let ghost cv = c@;
    let mut v: Vec<Json> = Vec::new();
    v.push(c);
    assert(v@.map_values(|j: Json| j@) =~= seq![cv]);
    Json::array(v)
}

/// A non-streaming Anthropic response as a Chat completion.
pub open spec fn anthropic_json_to_chat_v(v: JsonV, id: u64) -> JsonV {
    let blocks = match v.get("content"@) {
        Some(JsonV::Array(blocks)) => blocks,
        _ => Seq::empty(),
    };
    let text = join_spec(a2c_texts(blocks), ""@);
    let stop = v.str_or("stop_reason"@, "end_turn"@);
    let finish = if stop == "tool_use"@ {
        "tool_calls"@
    } else {
        "stop"@
    };
    empty_obj().set("id"@, JsonV::Str(id_text("chatcmpl-"@, id))).set(
        "object"@,
        JsonV::Str("chat.completion"@),
    ).set("created"@, num(1_700_000_000)).set(
        "model"@,
        match v.get("model"@) {
            Some(m) => m,
            None => JsonV::Str(""@),
        },
    ).set("choices"@, single_choice(chat_message_v(text, a2c_calls(blocks)), finish)).set(
        "usage"@,
        or_empty_obj(v.get("usage"@)),
    )
}

/// `anthropic_json_to_chat`.
pub fn anthropic_json_to_chat(v: &Json, ids: &mut RequestIds) -> (r: Json)
    ensures
        r@ == anthropic_json_to_chat_v(v@, old(ids).next),
        final(ids).next == (if old(ids).next == u64::MAX {
            0
        } else {
            old(ids).next + 1
        }),
{
    let mut texts: Vec<String> = Vec::new();
    let mut calls: Vec<Json> = Vec::new();
    let empty: Vec<Json> = Vec::new();
    let blocks = match v.get("content") {
        Some(c) => match c.as_array() {
            Some(b) => b,
            None => &empty,
        },
        None => &empty,
    };
    let ghost bv = blocks@.map_values(|j: Json| j@);
    assert(bv =~= match v@.get("content"@) {
        Some(JsonV::Array(blocks)) => blocks,
        _ => Seq::<JsonV>::empty(),
    });
    let mut i: usize = 0;
    assert(bv.take(0) =~= Seq::<JsonV>::empty());
    while i < blocks.len()
        invariant
            i <= blocks@.len(),
            bv == blocks@.map_values(|j: Json| j@),
            texts@.map_values(|p: String| p@) == a2c_texts(bv.take(i as int)),
            calls@.map_values(|j: Json| j@) == a2c_calls(bv.take(i as int)),
        decreases blocks@.len() - i,
    {
        assert(bv.take(i as int + 1).drop_last() =~= bv.take(i as int));
        let b = &blocks[i];
        let ty = b.str_or("type", "");
        proof {
            reveal_strlit("text");
            reveal_strlit("tool_use");
            assert(bv.take(i as int + 1).last() == blocks@[i as int]@);
            assert("text"@.len() == 4 && "tool_use"@.len() == 8);
        }
        let ghost tv0 = texts@.map_values(|p: String| p@);
        if str_eq(ty, "text") {
            match b.get_str("text") {
                Some(t) => {
                    if t.unicode_len() > 0 {
                        texts.push(to_owned(t));
                        assert(texts@.map_values(|p: String| p@) =~= tv0.push(t@));
                    }
                },
                None => {},
            }
        } else if str_eq(ty, "tool_use") {
            let args = match b.get("input") {
                Some(x) => x.to_text(),
                None => Json::object().to_text(),
            };
            let mut f = Json::object();
            f.set("name", Json::string(b.str_or("name", "")));
            f.set("arguments", Json::from_string(args));
            let mut tc = Json::object();
            tc.set("id", Json::string(b.str_or("id", "")));
            tc.set("type", Json::string("function"));
            tc.set("function", f);
            calls.push(tc);
        }
        assert(texts@.map_values(|p: String| p@) =~= a2c_texts(bv.take(i as int + 1)));
        assert(calls@.map_values(|j: Json| j@) =~= a2c_calls(bv.take(i as int + 1)));
        i = i + 1;
    }
    assert(bv.take(blocks@.len() as int) =~= bv);
    let text = join(&texts, "");
    let stop = v.str_or("stop_reason", "end_turn");
    let finish = if str_eq(stop, "tool_use") {
        "tool_calls"
    } else {
        "stop"
    };
    let message = chat_message_exec(text, calls);
    let id = ids.next_request_id();
    let mut o = Json::object();
    o.set("id", Json::from_string(id_text_exec("chatcmpl-", id)));
    o.set("object", Json::string("chat.completion"));
    o.set("created", Json::number(1_700_000_000));
    o.set("model", copy_or(v.get("model"), Json::string("")));
    o.set("choices", single_choice_exec(message, finish));
    o.set("usage", copy_or(v.get("usage"), Json::object()));
    o
}

/// The `output_text` texts (non-empty) of Responses message items.
pub open spec fn resp_output_texts(items: Seq<JsonV>) -> Seq<Seq<char>>
    decreases items.len(),
{
    if items.len() == 0 {
        Seq::empty()
    } else {
        let it = items.last();
        resp_output_texts(items.drop_last()) + if it.str_or("type"@, ""@) == "message"@ {
            match it.get("content"@) {
                Some(JsonV::Array(parts)) => output_text_parts(parts),
                _ => Seq::empty(),
            }
        } else {
            Seq::empty()
        }
    }
}

/// The non-empty texts of the `output_text` parts of a part list.
pub open spec fn output_text_parts(parts: Seq<JsonV>) -> Seq<Seq<char>>
    decreases parts.len(),
{
    if parts.len() == 0 {
        Seq::empty()
    } else {
        let p = parts.last();
        output_text_parts(parts.drop_last()) + if p.get_str("type"@) == Some("output_text"@)
            && p.get_str("text"@) is Some && p.get_str("text"@)->0.len() > 0 {
            seq![p.get_str("text"@)->0]
        } else {
            Seq::empty()
        }
    }
}

/// The Chat tool calls of Responses `function_call` items.
pub open spec fn resp_output_calls(items: Seq<JsonV>) -> Seq<JsonV>
    decreases items.len(),
{
    if items.len() == 0 {
        Seq::empty()
    } else {
        let it = items.last();
        resp_output_calls(items.drop_last()) + if it.str_or("type"@, ""@) == "function_call"@ {
            seq![
                chat_tool_call_v(
                    it.str_or("call_id"@, ""@),
                    it.str_or("name"@, ""@),
                    it.str_or("arguments"@, "{}"@),
                ),
            ]
        } else {
            Seq::empty()
        }
    }
}

/// A non-streaming Responses object as a Chat completion; `total_tokens`
/// wraps at 2^64 as the `u64` sum does.
pub open spec fn responses_to_chat_json_v(v: JsonV, model: Seq<char>, id: u64) -> JsonV {
    let items = match v.get("output"@) {
        Some(JsonV::Array(items)) => items,
        _ => Seq::empty(),
    };
    let calls = resp_output_calls(items);
    let u = or_empty_obj(v.get("usage"@));
    let input = u64_or_zero(u.get("input_tokens"@));
    let output = u64_or_zero(u.get("output_tokens"@));
    empty_obj().set("id"@, JsonV::Str(id_text("chatcmpl-"@, id))).set(
        "object"@,
        JsonV::Str("chat.completion"@),
    ).set("created"@, num(1_700_000_000)).set("model"@, JsonV::Str(model)).set(
        "choices"@,
        single_choice(
            chat_message_v(join_spec(resp_output_texts(items), ""@), calls),
            if calls.len() > 0 {
                "tool_calls"@
            } else {
                "stop"@
            },
        ),
    ).set(
        "usage"@,
        empty_obj().set("prompt_tokens"@, num(input)).set("completion_tokens"@, num(output)).set(
            "total_tokens"@,
            num(((input + output) % 0x1_0000_0000_0000_0000) as u64),
        ),
    )
}

/// Appends the non-empty `output_text` texts of a part list.
fn push_output_text_parts(parts: &Vec<Json>, texts: &mut Vec<String>)
    ensures
        final(texts)@.map_values(|p: String| p@) == old(texts)@.map_values(|p: String| p@)
            + output_text_parts(parts@.map_values(|j: Json| j@)),
{
    let ghost before_texts = texts@.map_values(|p: String| p@);
    let ghost pv = parts@.map_values(|j: Json| j@);
    let mut k: usize = 0;
    assert(pv.take(0) =~= Seq::<JsonV>::empty());
    assert(before_texts =~= before_texts + output_text_parts(pv.take(0)));
    while k < parts.len()
        invariant
            k <= parts@.len(),
            pv == parts@.map_values(|j: Json| j@),
            texts@.map_values(|p: String| p@) == before_texts + output_text_parts(pv.take(k as int)),
        decreases parts@.len() - k,
    {
        assert(pv.take(k as int + 1).drop_last() =~= pv.take(k as int));
        assert(pv.take(k as int + 1).last() == parts@[k as int]@);
        let p = &parts[k];
        let is_out = match p.get_str("type") {
            Some(t) => str_eq(t, "output_text"),
            None => false,
        };
        let ghost tv0 = texts@.map_values(|p: String| p@);
        if is_out {
            match p.get_str("text") {
                Some(t) => {
                    if t.unicode_len() > 0 {
                        texts.push(to_owned(t));
                        assert(texts@.map_values(|p: String| p@) =~= tv0.push(t@));
                    }
                },
                None => {},
            }
        }
        assert(texts@.map_values(|p: String| p@) =~= before_texts + output_text_parts(
            pv.take(k as int + 1),
        ));
        k = k + 1;
    }
    assert(pv.take(parts@.len() as int) =~= pv);
}

/// The texts and tool calls of a Responses output list.
fn scan_response_output(items: &Vec<Json>) -> (r: (Vec<String>, Vec<Json>))
    ensures
        r.0@.map_values(|p: String| p@) == resp_output_texts(items@.map_values(|j: Json| j@)),
        r.1@.map_values(|j: Json| j@) == resp_output_calls(items@.map_values(|j: Json| j@)),
{
    let mut texts: Vec<String> = Vec::new();
    let mut calls: Vec<Json> = Vec::new();
    let ghost iv = items@.map_values(|j: Json| j@);
    let mut i: usize = 0;
    assert(iv.take(0) =~= Seq::<JsonV>::empty());
    while i < items.len()
        invariant
            i <= items@.len(),
            iv == items@.map_values(|j: Json| j@),
            texts@.map_values(|p: String| p@) == resp_output_texts(iv.take(i as int)),
            calls@.map_values(|j: Json| j@) == resp_output_calls(iv.take(i as int)),
        decreases items@.len() - i,
    {
        assert(iv.take(i as int + 1).drop_last() =~= iv.take(i as int));
        let it = &items[i];
        let ty = it.str_or("type", "");
        proof {
            reveal_strlit("message");
            reveal_strlit("function_call");
            assert(iv.take(i as int + 1).last() == items@[i as int]@);
            assert("message"@.len() == 7 && "function_call"@.len() == 13);
        }
        let ghost t0 = texts@.map_values(|p: String| p@);
        if str_eq(ty, "message") {
            match it.get("content") {
                Some(c) => match c.as_array() {
                    Some(parts) => push_output_text_parts(parts, &mut texts),
                    None => {
                        assert(t0 =~= t0 + Seq::<Seq<char>>::empty());
                    },
                },
                None => {
                    assert(t0 =~= t0 + Seq::<Seq<char>>::empty());
                },
            }
        } else if str_eq(ty, "function_call") {
            let mut f = Json::object();
            f.set("name", Json::string(it.str_or("name", "")));
            f.set("arguments", Json::string(it.str_or("arguments", "{}")));
            let mut tc = Json::object();
            tc.set("id", Json::string(it.str_or("call_id", "")));
            tc.set("type", Json::string("function"));
            tc.set("function", f);
            calls.push(tc);
        }
        assert(texts@.map_values(|p: String| p@) =~= resp_output_texts(iv.take(i as int + 1)));
        assert(calls@.map_values(|j: Json| j@) =~= resp_output_calls(iv.take(i as int + 1)));
        i = i + 1;
    }
    assert(iv.take(items@.len() as int) =~= iv);
    (texts, calls)
}

/// `responses_to_chat_json`.
#[verifier::spinoff_prover]
#[verifier::rlimit(30)]
pub fn responses_to_chat_json(v: &Json, model: &str, ids: &mut RequestIds) -> (r: Json)
    ensures
        r@ == responses_to_chat_json_v(v@, model@, old(ids).next),
        final(ids).next == (if old(ids).next == u64::MAX {
            0
        } else {
            old(ids).next + 1
        }),
{
    let empty: Vec<Json> = Vec::new();
    let items = match v.get("output") {
        Some(c) => match c.as_array() {
            Some(b) => b,
            None => &empty,
        },
        None => &empty,
    };
    assert(items@.map_values(|j: Json| j@) =~= match v@.get("output"@) {
        Some(JsonV::Array(items)) => items,
        _ => Seq::<JsonV>::empty(),
    });
    let (texts, calls) = scan_response_output(items);
    let has_tools = calls.len() > 0;
    let message = chat_message_exec(join(&texts, ""), calls);
    let u = copy_or(v.get("usage"), Json::object());
    let input = u64_or_zero_exec(u.get("input_tokens"));
    let output = u64_or_zero_exec(u.get("output_tokens"));
    let mut usage = Json::object();
    usage.set("prompt_tokens", Json::number(input));
    usage.set("completion_tokens", Json::number(output));
    usage.set("total_tokens", Json::number(input.wrapping_add(output)));
    let id = ids.next_request_id();
    let mut o = Json::object();
    o.set("id", Json::from_string(id_text_exec("chatcmpl-", id)));
    o.set("object", Json::string("chat.completion"));
    o.set("created", Json::number(1_700_000_000));
    o.set("model", Json::string(model));
    o.set(
        "choices",
        single_choice_exec(
            message,
            if has_tools {
                "tool_calls"
            } else {
                "stop"
            },
        ),
    );
    o.set("usage", usage);
    o
}

/// The content blocks of a Chat completion's message for Anthropic: its text
/// (if a non-empty string), then one `tool_use` per call with the arguments
/// parsed (an empty object where they do not parse); one empty text block
/// where that leaves nothing.
pub open spec fn completion_blocks(msg: JsonV) -> Seq<JsonV> {
    let text = match msg.get_str("content"@) {
        Some(t) => if t.len() > 0 {
            seq![text_block(t)]
        } else {
            Seq::empty()
        },
        None => Seq::empty(),
    };
    let calls = match msg.get("tool_calls"@) {
        Some(JsonV::Array(tcs)) => completion_tool_uses(tcs),
        _ => Seq::empty(),
    };
    let all = text + calls;
    if all.len() == 0 {
        seq![text_block(""@)]
    } else {
        all
    }
}

/// The `tool_use` blocks of Chat tool calls.
pub open spec fn completion_tool_uses(tcs: Seq<JsonV>) -> Seq<JsonV>
    decreases tcs.len(),
{
    if tcs.len() == 0 {
        Seq::empty()
    } else {
        let tc = tcs.last();
        completion_tool_uses(tcs.drop_last()) + seq![
            tool_use_block(
                tc.str_or("id"@, ""@),
                path_str_or(tc, "function"@, "name"@, ""@),
                parsed_or_empty(path_str_or(tc, "function"@, "arguments"@, "{}"@)),
            ),
        ]
    }
}

fn completion_blocks_exec(msg: &Json) -> (r: Vec<Json>)
    ensures
        r@.map_values(|j: Json| j@) == completion_blocks(msg@),
{
    let mut blocks: Vec<Json> = Vec::new();
    match msg.get_str("content") {
        Some(t) => {
            if t.unicode_len() > 0 {
                let mut b = Json::object();
                b.set("type", Json::string("text"));
                b.set("text", Json::string(t));
                blocks.push(b);
            }
        },
        None => {},
    }
    let ghost tb = blocks@.map_values(|j: Json| j@);
    assert(tb =~= match msg@.get_str("content"@) {
        Some(t) => if t.len() > 0 {
            seq![text_block(t)]
        } else {
            Seq::<JsonV>::empty()
        },
        None => Seq::<JsonV>::empty(),
    });
    match msg.get("tool_calls") {
        Some(t) => match t.as_array() {
            Some(tcs) => {
                let ghost cv = tcs@.map_values(|j: Json| j@);
                let mut i: usize = 0;
                assert(cv.take(0) =~= Seq::<JsonV>::empty());
                assert(tb =~= tb + completion_tool_uses(cv.take(0)));
                while i < tcs.len()
                    invariant
                        i <= tcs@.len(),
                        cv == tcs@.map_values(|j: Json| j@),
                        blocks@.map_values(|j: Json| j@) == tb + completion_tool_uses(
                            cv.take(i as int),
                        ),
                    decreases tcs@.len() - i,
                {
                    assert(cv.take(i as int + 1).drop_last() =~= cv.take(i as int));
                    assert(cv.take(i as int + 1).last() == tcs@[i as int]@);
                    let tc = &tcs[i];
                    let (name, args) = match tc.get("function") {
                        Some(f) => (f.str_or("name", ""), f.str_or("arguments", "{}")),
                        None => ("", "{}"),
                    };
                    let mut b = Json::object();
                    b.set("type", Json::string("tool_use"));
                    b.set("id", Json::string(tc.str_or("id", "")));
                    b.set("name", Json::string(name));
                    b.set("input", parse_or_empty(args));
                    let ghost cur = blocks@.map_values(|j: Json| j@);
                    let ghost bv = b@;
                    blocks.push(b);
                    assert(blocks@.map_values(|j: Json| j@) =~= cur.push(bv));
                    assert(blocks@.map_values(|j: Json| j@) =~= tb + completion_tool_uses(
                        cv.take(i as int + 1),
                    ));
                    i = i + 1;
                }
                assert(cv.take(tcs@.len() as int) =~= cv);
            },
            None => {
                assert(tb =~= tb + Seq::<JsonV>::empty());
            },
        },
        None => {
            assert(tb =~= tb + Seq::<JsonV>::empty());
        },
    }
    if blocks.len() == 0 {
        let mut b = Json::object();
        b.set("type", Json::string("text"));
        b.set("text", Json::string(""));
        let ghost bv = b@;
        blocks.push(b);
        assert(blocks@.map_values(|j: Json| j@) =~= seq![bv]);
    }
    blocks
}

/// An Anthropic message built from a Chat completion `cc`, with the given
/// usage object.
pub open spec fn anthropic_message_v(cc: JsonV, usage: JsonV, id: u64) -> JsonV {
    empty_obj().set("id"@, JsonV::Str(id_text("msg_"@, id))).set(
        "type"@,
        JsonV::Str("message"@),
    ).set("role"@, JsonV::Str("assistant"@)).set(
        "model"@,
        match cc.get("model"@) {
            Some(m) => m,
            None => JsonV::Str(""@),
        },
    ).set("content"@, JsonV::Array(completion_blocks(first_message(cc)))).set(
        "stop_reason"@,
        JsonV::Str(
            if choice0(cc, "finish_reason"@) == Some(JsonV::Str("tool_calls"@)) {
                "tool_use"@
            } else {
                "end_turn"@
            },
        ),
    ).set("stop_sequence"@, JsonV::Null).set("usage"@, usage)
}

fn anthropic_message_exec(cc: &Json, usage: Json, ids: &mut RequestIds) -> (r: Json)
    ensures
        r@ == anthropic_message_v(cc@, usage@, old(ids).next),
        final(ids).next == (if old(ids).next == u64::MAX {
            0
        } else {
            old(ids).next + 1
        }),
{
    let msg = first_message_exec(cc);
    let blocks = completion_blocks_exec(&msg);
    let is_tool = match choice0_exec(cc, "finish_reason") {
        Some(f) => match f.as_str() {
            Some(s) => str_eq(s, "tool_calls"),
            None => false,
        },
        None => false,
    };
    let id = ids.next_request_id();
    let mut o = Json::object();
    o.set("id", Json::from_string(id_text_exec("msg_", id)));
    o.set("type", Json::string("message"));
    o.set("role", Json::string("assistant"));
    o.set("model", copy_or(cc.get("model"), Json::string("")));
    o.set("content", Json::array(blocks));
    o.set(
        "stop_reason",
        Json::string(
            if is_tool {
                "tool_use"
            } else {
                "end_turn"
            },
        ),
    );
    o.set("stop_sequence", Json::null());
    o.set("usage", usage);
    o
}

/// `{"input_tokens": i, "output_tokens": o}`.
pub open spec fn io_usage(i: u64, o: u64) -> JsonV {
    empty_obj().set("input_tokens"@, num(i)).set("output_tokens"@, num(o))
}

fn io_usage_exec(i: u64, o: u64) -> (r: Json)
    ensures
        r@ == io_usage(i, o),
{
    let mut u = Json::object();
    u.set("input_tokens", Json::number(i));
    u.set("output_tokens", Json::number(o));
    u
}

/// A non-streaming Chat completion as an Anthropic message, usage read from
/// its `usage` (`prompt_tokens`, `completion_tokens`).
pub open spec fn chat_json_to_anthropic_v(v: JsonV, id: u64) -> JsonV {
    let u = or_empty_obj(v.get("usage"@));
    anthropic_message_v(
        v,
        io_usage(u64_or_zero(u.get("prompt_tokens"@)), u64_or_zero(u.get("completion_tokens"@))),
        id,
    )
}

/// `chat_json_to_anthropic`.
pub fn chat_json_to_anthropic(v: &Json, ids: &mut RequestIds) -> (r: Json)
    ensures
        r@ == chat_json_to_anthropic_v(v@, old(ids).next),
        final(ids).next == (if old(ids).next == u64::MAX {
            0
        } else {
            old(ids).next + 1
        }),
{
    let u = copy_or(v.get("usage"), Json::object());
    let usage = io_usage_exec(
        u64_or_zero_exec(u.get("prompt_tokens")),
        u64_or_zero_exec(u.get("completion_tokens")),
    );
    anthropic_message_exec(v, usage, ids)
}

/// `chat_completion_to_anthropic`: a completion as an Anthropic message with
/// the usage counted by the proxy.
pub fn chat_completion_to_anthropic(cc: &Json, usage: &TokenCounts, ids: &mut RequestIds) -> (r:
    Json)
    ensures
        r@ == anthropic_message_v(cc@, io_usage(usage.input, usage.output), old(ids).next),
        final(ids).next == (if old(ids).next == u64::MAX {
            0
        } else {
            old(ids).next + 1
        }),
{
    anthropic_message_exec(cc, io_usage_exec(usage.input, usage.output), ids)
}

/// Whether a Responses output item is a function call.
pub open spec fn is_function_call_item(it: JsonV) -> bool {
    it.str_or("type"@, ""@) == "function_call"@
}

/// The `output` items of a Responses reply (none where it has no array).
pub open spec fn output_items(v: JsonV) -> Seq<JsonV> {
    match v.get("output"@) {
        Some(JsonV::Array(items)) => items,
        _ => Seq::empty(),
    }
}

/// Some item is a function call.
pub open spec fn has_function_call(items: Seq<JsonV>) -> bool {
    exists|i: int| 0 <= i < items.len() && #[trigger] is_function_call_item(items[i])
}

/// The Chat tool calls are empty exactly when no output item is a function
/// call.
proof fn lemma_calls_empty_iff_no_function_call(items: Seq<JsonV>)
    ensures
        (resp_output_calls(items).len() > 0) <==> has_function_call(items),
    decreases items.len(),
{
    if items.len() > 0 {
        let d = items.drop_last();
        lemma_calls_empty_iff_no_function_call(d);
        if has_function_call(d) {
            let i = choose|i: int| 0 <= i < d.len() && #[trigger] is_function_call_item(d[i]);
            assert(items[i] == d[i]);
        }
        if has_function_call(items) {
            let i = choose|i: int| 0 <= i < items.len() && #[trigger] is_function_call_item(items[i]);
            if i < d.len() {
                assert(d[i] == items[i]);
            }
        }
        if is_function_call_item(items.last()) {
            assert(is_function_call_item(items[items.len() - 1]));
        }
    }
}

/// The finish reason that the conversion gives for a list of tool calls.
spec fn finish_for(calls: Seq<JsonV>) -> Seq<char> {
    if calls.len() > 0 {
        "tool_calls"@
    } else {
        "stop"@
    }
}

/// The `choices` of a converted reply: the one choice built from the
/// reply's text and tool calls.
proof fn lemma_chat_choices(v: JsonV, model: Seq<char>, id: u64)
    ensures
        ({
            let items = output_items(v);
            let calls = resp_output_calls(items);
            responses_to_chat_json_v(v, model, id).get("choices"@) == Some(
                single_choice(
                    chat_message_v(join_spec(resp_output_texts(items), ""@), calls),
                    finish_for(calls),
                ),
            )
        }),
{
    reveal_strlit("choices");
    reveal_strlit("usage");
    let items = output_items(v);
    let calls = resp_output_calls(items);
    let u = or_empty_obj(v.get("usage"@));
    let input = u64_or_zero(u.get("input_tokens"@));
    let output = u64_or_zero(u.get("output_tokens"@));
    let fin = finish_for(calls);
    let msg = chat_message_v(join_spec(resp_output_texts(items), ""@), calls);
    let head = empty_obj().set("id"@, JsonV::Str(id_text("chatcmpl-"@, id))).set(
        "object"@,
        JsonV::Str("chat.completion"@),
    ).set("created"@, num(1_700_000_000)).set("model"@, JsonV::Str(model));
    let with_choices = head.set("choices"@, single_choice(msg, fin));
    crate::json::law_set_then_get(head, "choices"@, single_choice(msg, fin));
    let usage = empty_obj().set("prompt_tokens"@, num(input)).set("completion_tokens"@, num(output)).set(
        "total_tokens"@,
        num(((input + output) % 0x1_0000_0000_0000_0000) as u64),
    );
    assert("usage"@.len() != "choices"@.len());
    crate::json::law_set_keeps_others(with_choices, "usage"@, usage, "choices"@);
    assert(responses_to_chat_json_v(v, model, id) == with_choices.set("usage"@, usage));
}

/// A Responses reply converted to a Chat completion has one choice, whose
/// `finish_reason` is `"tool_calls"` exactly when some output item is a
/// function call, and `"stop"` otherwise.
pub proof fn law_finish_reason_follows_function_calls(v: JsonV, model: Seq<char>, id: u64)
    ensures
        responses_to_chat_json_v(v, model, id).get("choices"@) matches Some(JsonV::Array(cs))
            && cs.len() == 1 && cs[0].get("finish_reason"@) == Some(
            JsonV::Str(
                if has_function_call(output_items(v)) {
                    "tool_calls"@
                } else {
                    "stop"@
                },
            ),
        ),
{
    let items = output_items(v);
    lemma_calls_empty_iff_no_function_call(items);
    lemma_chat_choices(v, model, id);
    let calls = resp_output_calls(items);
    let fin = finish_for(calls);
    let msg = chat_message_v(join_spec(resp_output_texts(items), ""@), calls);
    let choice = empty_obj().set("index"@, num(0)).set("message"@, msg);
    crate::json::law_set_then_get(choice, "finish_reason"@, JsonV::Str(fin));
    let c0 = choice.set("finish_reason"@, JsonV::Str(fin));
    assert(single_choice(msg, fin) == JsonV::Array(seq![c0]));
    assert(seq![c0][0] == c0);
}

/// The Chat tool call expected for a Responses `function_call` item: its
/// `call_id`, `name` and `arguments` (`""`, `""` and `"{}"` where missing),
/// as `{"id", "type": "function", "function": {"name", "arguments"}}`.
pub open spec fn expected_tool_call(it: JsonV) -> JsonV {
    empty_obj().set("id"@, JsonV::Str(it.str_or("call_id"@, ""@))).set(
        "type"@,
        JsonV::Str("function"@),
    ).set(
        "function"@,
        empty_obj().set("name"@, JsonV::Str(it.str_or("name"@, ""@))).set(
            "arguments"@,
            JsonV::Str(it.str_or("arguments"@, "{}"@)),
        ),
    )
}

/// The function call items of a Responses output, in order.
pub open spec fn function_call_items(items: Seq<JsonV>) -> Seq<JsonV> {
    items.filter(|it: JsonV| is_function_call_item(it))
}

proof fn lemma_calls_are_function_call_items(items: Seq<JsonV>)
    ensures
        resp_output_calls(items) == function_call_items(items).map_values(
            |it: JsonV| expected_tool_call(it),
        ),
    decreases items.len(),
{
    if items.len() > 0 {
        let d = items.drop_last();
        lemma_calls_are_function_call_items(d);
        let f = |it: JsonV| expected_tool_call(it);
        let fd = function_call_items(d);
        reveal(Seq::filter);
        assert(function_call_items(items) == if is_function_call_item(items.last()) {
            fd.push(items.last())
        } else {
            fd
        });
        if is_function_call_item(items.last()) {
            assert(fd.push(items.last()).map_values(f) =~= fd.map_values(f).push(f(items.last())));
            assert(resp_output_calls(items) =~= resp_output_calls(d) + seq![f(items.last())]);
        } else {
            assert(resp_output_calls(items) =~= resp_output_calls(d));
        }
    }
}

/// The message of a Responses reply converted to a Chat completion carries
/// one tool call per `function_call` output item, in order, each with the
/// item's call id, name and arguments; with no such item it carries no
/// `tool_calls` at all.
pub proof fn law_tool_calls_follow_function_calls(v: JsonV, model: Seq<char>, id: u64)
    ensures
        ({
            let choices = responses_to_chat_json_v(v, model, id).get("choices"@);
            &&& choices is Some && choices->0 is Array && choices->0->Array_0.len() == 1
            &&& choices->0->Array_0[0].get("message"@) is Some
            &&& choices->0->Array_0[0].get("message"@)->0.get("tool_calls"@) == (if has_function_call(
                output_items(v),
            ) {
                Some(
                    JsonV::Array(
                        function_call_items(output_items(v)).map_values(
                            |it: JsonV| expected_tool_call(it),
                        ),
                    ),
                )
            } else {
                None
            })
        }),
{
    reveal_strlit("message");
    reveal_strlit("finish_reason");
    reveal_strlit("tool_calls");
    reveal_strlit("role");
    reveal_strlit("content");
    let items = output_items(v);
    lemma_calls_empty_iff_no_function_call(items);
    lemma_calls_are_function_call_items(items);
    lemma_chat_choices(v, model, id);
    let calls = resp_output_calls(items);
    let fin = finish_for(calls);
    let text = join_spec(resp_output_texts(items), ""@);
    let msg = chat_message_v(text, calls);
    let choice = empty_obj().set("index"@, num(0)).set("message"@, msg);
    crate::json::law_set_then_get(empty_obj().set("index"@, num(0)), "message"@, msg);
    assert("finish_reason"@.len() != "message"@.len());
    crate::json::law_set_keeps_others(choice, "finish_reason"@, JsonV::Str(fin), "message"@);
    let c0 = choice.set("finish_reason"@, JsonV::Str(fin));
    assert(single_choice(msg, fin) == JsonV::Array(seq![c0]));
    assert(seq![c0][0] == c0);
    assert(c0.get("message"@) == Some(msg));
    let content = if text.len() == 0 {
        JsonV::Null
    } else {
        JsonV::Str(text)
    };
    let m0 = empty_obj().set("role"@, JsonV::Str("assistant"@));
    let m = m0.set("content"@, content);
    if calls.len() > 0 {
        crate::json::law_set_then_get(m, "tool_calls"@, JsonV::Array(calls));
        assert(msg == m.set("tool_calls"@, JsonV::Array(calls)));
    } else {
        assert("tool_calls"@.len() != "content"@.len() && "tool_calls"@.len() != "role"@.len());
        crate::json::law_set_keeps_others(m0, "content"@, content, "tool_calls"@);
        crate::json::law_set_keeps_others(empty_obj(), "role"@, JsonV::Str("assistant"@), "tool_calls"@);
        assert(empty_obj().get("tool_calls"@) is None);
        assert(msg == m);
    }
}

/// Whether a Responses output item is a message.
pub open spec fn is_message_item(it: JsonV) -> bool {
    it.str_or("type"@, ""@) == "message"@
}

/// The message of the converted completion's one choice.
pub open spec fn chat_choice_message(v: JsonV, model: Seq<char>, id: u64) -> JsonV {
    responses_to_chat_json_v(v, model, id).get("choices"@)->0->Array_0[0].get("message"@)->0
}

proof fn lemma_no_message_no_text(items: Seq<JsonV>)
    requires
        forall|i: int| 0 <= i < items.len() ==> !is_message_item(#[trigger] items[i]),
    ensures
        resp_output_texts(items).len() == 0,
    decreases items.len(),
{
    if items.len() > 0 {
        let d = items.drop_last();
        assert forall|i: int| 0 <= i < d.len() implies !is_message_item(#[trigger] d[i]) by {
            assert(d[i] == items[i]);
        }
        lemma_no_message_no_text(d);
        assert(!is_message_item(items[items.len() - 1]));
    }
}

/// The content of the converted completion's message: `null` when no
/// output item is a message; the text of the one `output_text` part when
/// the output is one message with one such non-empty part.
pub proof fn law_message_content_follows_output_text(v: JsonV, model: Seq<char>, id: u64)
    ensures
        (forall|i: int|
            0 <= i < output_items(v).len() ==> !is_message_item(#[trigger] output_items(v)[i]))
            ==> chat_choice_message(v, model, id).get("content"@) == Some(JsonV::Null),
        ({
            let it = output_items(v)[0];
            let ps = it.get("content"@)->0->Array_0;
            (output_items(v).len() == 1 && is_message_item(it) && it.get("content"@) is Some
                && it.get("content"@)->0 is Array && ps.len() == 1 && ps[0].get_str("type"@) == Some(
                "output_text"@,
            ) && ps[0].get_str("text"@) is Some && ps[0].get_str("text"@)->0.len() > 0) ==> chat_choice_message(
                v,
                model,
                id,
            ).get("content"@) == Some(JsonV::Str(ps[0].get_str("text"@)->0))
        }),
{
    reveal_strlit("message");
    reveal_strlit("content");
    reveal_strlit("tool_calls");
    reveal_strlit("role");
    reveal_strlit("finish_reason");
    let items = output_items(v);
    lemma_chat_choices(v, model, id);
    let calls = resp_output_calls(items);
    let fin = finish_for(calls);
    let text = join_spec(resp_output_texts(items), ""@);
    let msg = chat_message_v(text, calls);
    let choice = empty_obj().set("index"@, num(0)).set("message"@, msg);
    crate::json::law_set_then_get(empty_obj().set("index"@, num(0)), "message"@, msg);
    assert("finish_reason"@.len() != "message"@.len());
    crate::json::law_set_keeps_others(choice, "finish_reason"@, JsonV::Str(fin), "message"@);
    let c0 = choice.set("finish_reason"@, JsonV::Str(fin));
    assert(single_choice(msg, fin) == JsonV::Array(seq![c0]));
    assert(seq![c0][0] == c0);
    assert(chat_choice_message(v, model, id) == msg);
    let content = if text.len() == 0 {
        JsonV::Null
    } else {
        JsonV::Str(text)
    };
    let m0 = empty_obj().set("role"@, JsonV::Str("assistant"@));
    let m = m0.set("content"@, content);
    crate::json::law_set_then_get(m0, "content"@, content);
    if calls.len() > 0 {
        assert("tool_calls"@.len() != "content"@.len());
        crate::json::law_set_keeps_others(m, "tool_calls"@, JsonV::Array(calls), "content"@);
    }
    assert(msg.get("content"@) == Some(content));
    if forall|i: int| 0 <= i < items.len() ==> !is_message_item(#[trigger] items[i]) {
        lemma_no_message_no_text(items);
    }
    let it = items[0];
    if items.len() == 1 && is_message_item(it) && it.get("content"@) is Some && it.get(
        "content"@,
    )->0 is Array {
        let ps = it.get("content"@)->0->Array_0;
        if ps.len() == 1 && ps[0].get_str("type"@) == Some("output_text"@) && ps[0].get_str(
            "text"@,
        ) is Some && ps[0].get_str("text"@)->0.len() > 0 {
            let t = ps[0].get_str("text"@)->0;
            assert(ps.drop_last() =~= Seq::<JsonV>::empty());
            assert(ps.last() == ps[0]);
            assert(output_text_parts(Seq::<JsonV>::empty()) == Seq::<Seq<char>>::empty());
            assert(output_text_parts(ps) =~= seq![t]);
            assert(items.drop_last() =~= Seq::<JsonV>::empty());
            assert(items.last() == it);
            assert(it.get("content"@) == Some(JsonV::Array(ps)));
            assert(resp_output_texts(Seq::<JsonV>::empty()) == Seq::<Seq<char>>::empty());
            assert(resp_output_texts(items) == resp_output_texts(items.drop_last())
                + output_text_parts(ps));
            assert(resp_output_texts(items) =~= seq![t]);
            assert(join_spec(seq![t], ""@) == t);
        }
    }
}

/// The usage of the converted completion: `prompt_tokens` and
/// `completion_tokens` are the reply's `input_tokens` and `output_tokens`
/// (0 where missing), `total_tokens` their sum (wrapping at 2^64).
pub proof fn law_usage_follows_reply_usage(v: JsonV, model: Seq<char>, id: u64)
    ensures
        ({
            let u = or_empty_obj(v.get("usage"@));
            let input = u64_or_zero(u.get("input_tokens"@));
            let output = u64_or_zero(u.get("output_tokens"@));
            let cu = responses_to_chat_json_v(v, model, id).get("usage"@);
            &&& cu is Some
            &&& cu->0.get("prompt_tokens"@) == Some(num(input))
            &&& cu->0.get("completion_tokens"@) == Some(num(output))
            &&& cu->0.get("total_tokens"@) == Some(
                num(((input + output) % 0x1_0000_0000_0000_0000) as u64),
            )
        }),
{
    reveal_strlit("usage");
    reveal_strlit("prompt_tokens");
    reveal_strlit("completion_tokens");
    reveal_strlit("total_tokens");
    let u = or_empty_obj(v.get("usage"@));
    let input = u64_or_zero(u.get("input_tokens"@));
    let output = u64_or_zero(u.get("output_tokens"@));
    let items = output_items(v);
    let calls = resp_output_calls(items);
    let msg = chat_message_v(join_spec(resp_output_texts(items), ""@), calls);
    let with_choices = empty_obj().set("id"@, JsonV::Str(id_text("chatcmpl-"@, id))).set(
        "object"@,
        JsonV::Str("chat.completion"@),
    ).set("created"@, num(1_700_000_000)).set("model"@, JsonV::Str(model)).set(
        "choices"@,
        single_choice(msg, finish_for(calls)),
    );
    let u0 = empty_obj().set("prompt_tokens"@, num(input));
    let u1 = u0.set("completion_tokens"@, num(output));
    let tot = num(((input + output) % 0x1_0000_0000_0000_0000) as u64);
    let usage = u1.set("total_tokens"@, tot);
    crate::json::law_set_then_get(with_choices, "usage"@, usage);
    assert(responses_to_chat_json_v(v, model, id) == with_choices.set("usage"@, usage));
    crate::json::law_set_then_get(u1, "total_tokens"@, tot);
    crate::json::law_set_then_get(u0, "completion_tokens"@, num(output));
    crate::json::law_set_then_get(empty_obj(), "prompt_tokens"@, num(input));
    assert("total_tokens"@.len() != "completion_tokens"@.len());
    assert("total_tokens"@.len() != "prompt_tokens"@.len());
    assert("completion_tokens"@.len() != "prompt_tokens"@.len());
    crate::json::law_set_keeps_others(u1, "total_tokens"@, tot, "completion_tokens"@);
    crate::json::law_set_keeps_others(u1, "total_tokens"@, tot, "prompt_tokens"@);
    crate::json::law_set_keeps_others(u0, "completion_tokens"@, num(output), "prompt_tokens"@);
}
} // verus!
