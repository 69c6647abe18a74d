//! Streaming response conversion, one upstream event at a time.
//!
//! Each converter is a state machine: `on_event` takes the state and one
//! parsed upstream event and gives the next state and the frames to send;
//! `finish` gives the closing frames and the final counts. Reading the
//! upstream stream and sending frames is left to the caller.
use vstd::prelude::*;

use crate::json::{empty_obj, i64_text, ref_view, Json, JsonV};
use crate::respond::{
    choice0, counts_of, id_text, num, path2, path3, responses_usage, responses_usage_v, u64_or_zero,
    RequestIds,
};
use crate::stats::TokenCounts;
use crate::text::{str_eq, to_owned};

verus! {

// ──────── shared pieces ────────

/// A frame to send: an optional event name (Anthropic streams name their
/// events) and the JSON data.
pub struct Frame {
    pub event: Option<String>,
    pub data: Json,
}

/// The view of a frame.
pub open spec fn frame_v(f: Frame) -> (Option<Seq<char>>, JsonV) {
    (
        match f.event {
            Some(e) => Some(e@),
            None => None,
        },
        f.data@,
    )
}

/// The views of frames.
pub open spec fn frames_v(fs: Seq<Frame>) -> Seq<(Option<Seq<char>>, JsonV)> {
    fs.map_values(|f: Frame| frame_v(f))
}

impl Frame {
    /// The frame as text: `data: <json>` and a blank line, with an
    /// `event: <name>` line first where the frame is named.
    pub fn encode(&self) -> (r: String)
        ensures
            r@ == (match frame_v(*self).0 {
                Some(e) => crate::sse::anthropic_sse_text(e, frame_v(*self).1),
                None => crate::sse::sse_frame_text(frame_v(*self).1),
            }),
    {
        match &self.event {
            Some(e) => crate::sse::anthropic_sse(e.as_str(), &self.data),
            None => crate::sse::sse_frame(&self.data),
        }
    }
}

/// A counter plus the characters of `s`, wrapping at 2^64 as a `u64` does.
pub open spec fn add_chars(n: u64, s: Seq<char>) -> u64 {
    ((n + s.len()) % 0x1_0000_0000_0000_0000) as u64
}

fn add_chars_exec(n: u64, s: &str) -> (r: u64)
    ensures
        r == add_chars(n, s@),
{
    let c: u64 = s.unicode_len() as u64;
    n.wrapping_add(c)
}

/// `n.div_ceil(3)`: output tokens estimated from characters.
pub open spec fn ceil3(n: u64) -> u64 {
    if n % 3 == 0 {
        n / 3
    } else {
        (n / 3 + 1) as u64
    }
}

/// `n.div_ceil(3)`.
pub fn div_ceil3(n: u64) -> (r: u64)
    ensures
        r == ceil3(n),
{
    if n % 3 == 0 {
        n / 3
    } else {
        n / 3 + 1
    }
}

/// The next id after `n`.
pub open spec fn next_id(n: u64) -> u64 {
    if n == u64::MAX {
        0
    } else {
        (n + 1) as u64
    }
}

/// The id `k` places after `n`.
pub open spec fn id_after(n: u64, k: nat) -> u64 {
    ((n + k) % 0x1_0000_0000_0000_0000) as u64
}

/// A Chat Completions stream chunk.
pub open spec fn chunk_v(model: Seq<char>, delta: JsonV, finish: Option<Seq<char>>, id: u64) -> JsonV {
    empty_obj().set("id"@, JsonV::Str(id_text("chatcmpl-"@, id))).set(
        "object"@,
        JsonV::Str("chat.completion.chunk"@),
    ).set("created"@, num(1_700_000_000)).set("model"@, JsonV::Str(model)).set(
        "choices"@,
        JsonV::Array(
            seq![
                empty_obj().set("index"@, num(0)).set("delta"@, delta).set(
                    "finish_reason"@,
                    match finish {
                        Some(f) => JsonV::Str(f),
                        None => JsonV::Null,
                    },
                ),
            ],
        ),
    )
}

/// `make_chunk`: a chunk with the next id.
pub fn make_chunk(model: &str, delta: Json, finish: Option<&str>, ids: &mut RequestIds) -> (r: Json)
    ensures
        r@ == chunk_v(
            model@,
            delta@,
            match finish {
                Some(f) => Some(f@),
                None => None,
            },
            old(ids).next,
        ),
        final(ids).next == next_id(old(ids).next),
{
    let id = ids.next_request_id();
    let mut choice = Json::object();
    choice.set("index", Json::number(0));
    choice.set("delta", delta);
    match finish {
        Some(f) => choice.set("finish_reason", Json::string(f)),
        None => choice.set("finish_reason", Json::null()),
    }
    let ghost cv = choice@;
    let mut choices: Vec<Json> = Vec::new();
    choices.push(choice);
    assert(choices@.map_values(|j: Json| j@) =~= seq![cv]);
    let mut name = to_owned("chatcmpl-");
    crate::text::push_str(&mut name, crate::text::u64_to_text(id).as_str());
    let mut o = Json::object();
    o.set("id", Json::from_string(name));
    o.set("object", Json::string("chat.completion.chunk"));
    o.set("created", Json::number(1_700_000_000));
    o.set("model", Json::string(model));
    o.set("choices", Json::array(choices));
    o
}

/// A data frame.
fn data_frame(data: Json) -> (f: Frame)
    ensures
        frame_v(f) == (None::<Seq<char>>, data@),
{
    Frame { event: None, data }
}

/// A named frame.
fn named_frame(event: &str, data: Json) -> (f: Frame)
    ensures
        frame_v(f) == (Some(event@), data@),
{
    Frame { event: Some(to_owned(event)), data }
}

/// `v[k]` as a signed integer, `d` where missing or not one.
pub open spec fn i64_or(o: Option<JsonV>, d: i64) -> i64 {
    match o {
        Some(x) => match x.as_i64() {
            Some(n) => n,
            None => d,
        },
        None => d,
    }
}

fn i64_or_exec(o: Option<&Json>, d: i64) -> (r: i64)
    ensures
        r == i64_or(ref_view(o), d),
{
    match o {
        Some(x) => match x.as_i64() {
            Some(n) => n,
            None => d,
        },
        None => d,
    }
}

/// The string at `v[k1][k2]`, if there is one.
pub open spec fn path2_str(v: JsonV, k1: Seq<char>, k2: Seq<char>) -> Option<Seq<char>> {
    match path2(v, k1, k2) {
        Some(x) => x.as_str(),
        None => None,
    }
}

fn path2_str_exec<'a>(v: &'a Json, k1: &str, k2: &str) -> (r: Option<&'a str>)
    ensures
        crate::json::str_ref_view(r) == path2_str(v@, k1@, k2@),
{
    match v.get(k1) {
        Some(x) => x.get_str(k2),
        None => None,
    }
}

/// The delta of the first choice of a Chat chunk (`/choices/0/delta`).
pub open spec fn chat_delta(v: JsonV) -> Option<JsonV> {
    choice0(v, "delta"@)
}

fn chat_delta_exec(v: &Json) -> (r: Option<&Json>)
    ensures
        ref_view(r) == chat_delta(v@),
{
    match v.get("choices") {
        Some(c) => match c.first() {
            Some(f) => f.get("delta"),
            None => None,
        },
        None => None,
    }
}

/// The text content of a Chat chunk's delta.
pub open spec fn delta_content(v: JsonV) -> Option<Seq<char>> {
    match chat_delta(v) {
        Some(d) => d.get_str("content"@),
        None => None,
    }
}

/// The tool calls of a Chat chunk's delta, where they are an array.
pub open spec fn delta_tool_calls(v: JsonV) -> Option<Seq<JsonV>> {
    match chat_delta(v) {
        Some(d) => match d.get("tool_calls"@) {
            Some(t) => t.as_array(),
            None => None,
        },
        None => None,
    }
}

/// Usage with the output estimated from characters where upstream gave none.
pub open spec fn with_estimate(u: TokenCounts, chars: u64) -> TokenCounts {
    if u.output == 0 {
        TokenCounts { input: u.input, output: ceil3(chars), cached: u.cached }
    } else {
        u
    }
}

fn with_estimate_exec(u: &TokenCounts, chars: u64) -> (r: TokenCounts)
    ensures
        r == with_estimate(*u, chars),
{
    if u.output == 0 {
        TokenCounts { input: u.input, output: div_ceil3(chars), cached: u.cached }
    } else {
        TokenCounts { input: u.input, output: u.output, cached: u.cached }
    }
}

// ──────── upstream Responses → client Chat Completions ────────

/// The state of a Responses → Chat stream.
pub struct ResponsesToChat {
    pub model: String,
    /// output index → (call id, function name) of each function call seen.
    pub tools: Vec<(i64, String, String)>,
    pub used_tool_calls: bool,
    pub out_chars: u64,
    pub usage: TokenCounts,
}

/// The view of a Responses → Chat state.
pub struct ResponsesToChatV {
    pub model: Seq<char>,
    pub tools: Seq<(i64, (Seq<char>, Seq<char>))>,
    pub used_tool_calls: bool,
    pub out_chars: u64,
    pub usage: TokenCounts,
}

/// The tool table, each name by its view.
pub open spec fn tools_view(t: Seq<(i64, String, String)>) -> Seq<(i64, (Seq<char>, Seq<char>))> {
    t.map_values(|e: (i64, String, String)| (e.0, (e.1@, e.2@)))
}

impl View for ResponsesToChat {
    type V = ResponsesToChatV;

    open spec fn view(&self) -> ResponsesToChatV {
        ResponsesToChatV {
            model: self.model@,
            tools: tools_view(self.tools@),
            used_tool_calls: self.used_tool_calls,
            out_chars: self.out_chars,
            usage: self.usage,
        }
    }
}

/// The entry for key `k`: the first with that key.
pub open spec fn assoc_get<A>(s: Seq<(i64, A)>, k: i64) -> Option<A>
    decreases s.len(),
{
    if s.len() == 0 {
        None
    } else if s[0].0 == k {
        Some(s[0].1)
    } else {
        assoc_get(s.drop_first(), k)
    }
}

/// The table with key `k` set to `v`: the first entry with that key is
/// replaced, or the entry is appended.
pub open spec fn assoc_put<A>(s: Seq<(i64, A)>, k: i64, v: A) -> Seq<(i64, A)>
    decreases s.len(),
{
    if s.len() == 0 {
        seq![(k, v)]
    } else if s[0].0 == k {
        s.update(0, (k, v))
    } else {
        seq![s[0]] + assoc_put(s.drop_first(), k, v)
    }
}

proof fn lemma_assoc_found<A>(s: Seq<(i64, A)>, k: i64, i: int, v: A)
    requires
        0 <= i < s.len(),
        s[i].0 == k,
        forall|j: int| 0 <= j < i ==> s[j].0 != k,
    ensures
        assoc_get(s, k) == Some(s[i].1),
        assoc_put(s, k, v) == s.update(i, (k, v)),
    decreases i,
{
    if i > 0 {
        let t = s.drop_first();
        assert forall|j: int| 0 <= j < i - 1 implies t[j].0 != k by {
            assert(t[j] == s[j + 1]);
        }
        assert(s[0].0 != k);
        lemma_assoc_found(t, k, i - 1, v);
        assert(seq![s[0]] + t.update(i - 1, (k, v)) =~= s.update(i, (k, v)));
    }
}

proof fn lemma_assoc_absent<A>(s: Seq<(i64, A)>, k: i64, v: A)
    requires
        forall|j: int| 0 <= j < s.len() ==> s[j].0 != k,
    ensures
        assoc_get(s, k) is None,
        assoc_put(s, k, v) == s.push((k, v)),
    decreases s.len(),
{
    if s.len() > 0 {
        let t = s.drop_first();
        assert forall|j: int| 0 <= j < t.len() implies t[j].0 != k by {
            assert(t[j] == s[j + 1]);
        }
        assert(s[0].0 != k);
        lemma_assoc_absent(t, k, v);
        assert(seq![s[0]] + t.push((k, v)) =~= s.push((k, v)));
    } else {
        assert(seq![(k, v)] =~= s.push((k, v)));
    }
}

/// The index of the first entry with key `k` in a tool table.
fn find_tool(t: &Vec<(i64, String, String)>, k: i64) -> (r: Option<usize>)
    ensures
        match r {
            Some(i) => i < t@.len() && t@[i as int].0 == k && forall|j: int|
                0 <= j < i ==> t@[j].0 != k,
            None => forall|j: int| 0 <= j < t@.len() ==> t@[j].0 != k,
        },
{
    let mut i: usize = 0;
    while i < t.len()
        invariant
            i <= t@.len(),
            forall|j: int| 0 <= j < i ==> t@[j].0 != k,
        decreases t@.len() - i,
    {
        if t[i].0 == k {
            return Some(i);
        }
        i = i + 1;
    }
    None
}

/// The index of the first entry with key `k` in an index table.
fn find_index<V: Copy>(t: &Vec<(i64, V)>, k: i64) -> (r: Option<usize>)
    ensures
        match r {
            Some(i) => i < t@.len() && t@[i as int].0 == k && forall|j: int|
                0 <= j < i ==> t@[j].0 != k,
            None => forall|j: int| 0 <= j < t@.len() ==> t@[j].0 != k,
        },
{
    let mut i: usize = 0;
    while i < t.len()
        invariant
            i <= t@.len(),
            forall|j: int| 0 <= j < i ==> t@[j].0 != k,
        decreases t@.len() - i,
    {
        if t[i].0 == k {
            return Some(i);
        }
        i = i + 1;
    }
    None
}

/// `assoc_get` on an index table.
fn index_get<V: Copy>(t: &Vec<(i64, V)>, k: i64) -> (r: Option<V>)
    ensures
        r == assoc_get(t@, k),
{
    match find_index(t, k) {
        Some(i) => {
            proof {
                lemma_assoc_found(t@, k, i as int, t@[i as int].1);
            }
            Some(t[i].1)
        },
        None => {
            proof {
                lemma_assoc_absent(t@, k, arbitrary());
            }
            None
        },
    }
}

/// `assoc_put` on an index table.
fn index_put<V: Copy>(t: &mut Vec<(i64, V)>, k: i64, v: V)
    ensures
        final(t)@ == assoc_put(old(t)@, k, v),
{
    match find_index(t, k) {
        Some(i) => {
            proof {
                lemma_assoc_found(t@, k, i as int, v);
            }
            t.set(i, (k, v));
        },
        None => {
            proof {
                lemma_assoc_absent(t@, k, v);
            }
            t.push((k, v));
        },
    }
}

/// The upstream event's type.
pub open spec fn evt_type(evt: JsonV) -> Seq<char> {
    evt.str_or("type"@, ""@)
}

/// `{"tool_calls": [{"index": i, "id": id, "function": {"name": name,
/// "arguments": args}}]}`.
pub open spec fn tool_call_delta(index: JsonV, id: Seq<char>, name: Seq<char>, args: Seq<char>) -> JsonV {
    empty_obj().set(
        "tool_calls"@,
        JsonV::Array(
            seq![
                empty_obj().set("index"@, index).set("id"@, JsonV::Str(id)).set(
                    "function"@,
                    empty_obj().set("name"@, JsonV::Str(name)).set("arguments"@, JsonV::Str(args)),
                ),
            ],
        ),
    )
}

fn tool_call_delta_exec(index: Json, id: &str, name: &str, args: &str) -> (r: Json)
    ensures
        r@ == tool_call_delta(index@, id@, name@, args@),
{
    let mut f = Json::object();
    f.set("name", Json::string(name));
    f.set("arguments", Json::string(args));
    let mut c = Json::object();
    c.set("index", index);
    c.set("id", Json::string(id));
    c.set("function", f);
    let ghost cv = c@;
    let mut v: Vec<Json> = Vec::new();
    v.push(c);
    assert(v@.map_values(|j: Json| j@) =~= seq![cv]);
    let mut o = Json::object();
    o.set("tool_calls", Json::array(v));
    o
}

/// `{"content": text}`.
pub open spec fn content_delta(text: Seq<char>) -> JsonV {
    empty_obj().set("content"@, JsonV::Str(text))
}

/// One step of a Responses → Chat stream: the next state, the chunks sent
/// (each with the next id), and whether the stream ends here.
pub open spec fn r2c_step(s: ResponsesToChatV, evt: JsonV, id: u64) -> (
    ResponsesToChatV,
    Seq<JsonV>,
    bool,
) {
    let ty = evt_type(evt);
    let oi = i64_or(evt.get("output_index"@), 0);
    if ty == "error"@ || ty == "response.failed"@ {
        (s, seq![chunk_v(s.model, empty_obj(), Some("stop"@), id)], true)
    } else if ty == "response.output_text.delta"@ {
        match evt.get_str("delta"@) {
            Some(d) => (
                ResponsesToChatV { out_chars: add_chars(s.out_chars, d), ..s },
                seq![chunk_v(s.model, content_delta(d), None, id)],
                false,
            ),
            None => (s, Seq::empty(), false),
        }
    } else if ty == "response.output_item.added"@ {
        let item = match evt.get("item"@) {
            Some(i) => i,
            None => empty_obj(),
        };
        if item.get_str("type"@) == Some("function_call"@) {
            let call_id = item.str_or("call_id"@, ""@);
            let name = item.str_or("name"@, ""@);
            (
                ResponsesToChatV {
                    tools: assoc_put(s.tools, oi, (call_id, name)),
                    used_tool_calls: true,
                    ..s
                },
                seq![
                    chunk_v(
                        s.model,
                        tool_call_delta(JsonV::Number(i64_text(oi)), call_id, name, ""@),
                        None,
                        id,
                    ),
                ],
                false,
            )
        } else {
            (s, Seq::empty(), false)
        }
    } else if ty == "response.function_call_arguments.delta"@ {
        match assoc_get(s.tools, oi) {
            Some(t) => {
                let args = evt.str_or("delta"@, ""@);
                (
                    ResponsesToChatV { out_chars: add_chars(s.out_chars, args), ..s },
                    seq![
                        chunk_v(
                            s.model,
                            tool_call_delta(JsonV::Number(i64_text(oi)), t.0, t.1, args),
                            None,
                            id,
                        ),
                    ],
                    false,
                )
            },
            None => (s, Seq::empty(), false),
        }
    } else if ty == "response.completed"@ {
        match path2(evt, "response"@, "usage"@) {
            Some(u) => (
                ResponsesToChatV { usage: counts_of(responses_usage_v(Some(u))), ..s },
                Seq::empty(),
                false,
            ),
            None => (s, Seq::empty(), false),
        }
    } else {
        (s, Seq::empty(), false)
    }
}

/// A frame list made of data frames of the given chunks.
pub open spec fn data_frames(cs: Seq<JsonV>) -> Seq<(Option<Seq<char>>, JsonV)> {
    cs.map_values(|c: JsonV| (None::<Seq<char>>, c))
}

impl ResponsesToChat {
    /// A fresh stream for `model`.
    pub fn new(model: &str) -> (r: Self)
        ensures
            r@ == (ResponsesToChatV {
                model: model@,
                tools: Seq::empty(),
                used_tool_calls: false,
                out_chars: 0,
                usage: TokenCounts { input: 0, output: 0, cached: 0 },
            }),
    {
        let r = ResponsesToChat {
            model: to_owned(model),
            tools: Vec::new(),
            used_tool_calls: false,
            out_chars: 0,
            usage: TokenCounts { input: 0, output: 0, cached: 0 },
        };
        assert(tools_view(r.tools@) =~= Seq::<(i64, (Seq<char>, Seq<char>))>::empty());
        r
    }

    /// One upstream event: the frames to send and whether the stream ends.
    pub fn on_event(&mut self, evt: &Json, ids: &mut RequestIds) -> (r: (Vec<Frame>, bool))
        ensures
            ({
                let (st, chunks, stop) = r2c_step(old(self)@, evt@, old(ids).next);
                &&& final(self)@ == st
                &&& frames_v(r.0@) == data_frames(chunks)
                &&& r.1 == stop
                &&& final(ids).next == (if chunks.len() > 0 {
                    next_id(old(ids).next)
                } else {
                    old(ids).next
                })
            }),
    {
        let ghost s0 = self@;
        let ty = evt.str_or("type", "");
        let oi = i64_or_exec(evt.get("output_index"), 0);
        let mut frames: Vec<Frame> = Vec::new();
        if str_eq(ty, "error") || str_eq(ty, "response.failed") {
            let c = make_chunk(self.model.as_str(), Json::object(), Some("stop"), ids);
            frames.push(data_frame(c));
            assert(frames_v(frames@) =~= data_frames(r2c_step(s0, evt@, old(ids).next).1));
            return (frames, true);
        } else if str_eq(ty, "response.output_text.delta") {
            match evt.get_str("delta") {
                Some(d) => {
                    self.out_chars = add_chars_exec(self.out_chars, d);
                    let mut delta = Json::object();
                    delta.set("content", Json::string(d));
                    let c = make_chunk(self.model.as_str(), delta, None, ids);
                    frames.push(data_frame(c));
                },
                None => {},
            }
        } else if str_eq(ty, "response.output_item.added") {
            let empty = Json::object();
            let item = match evt.get("item") {
                Some(i) => i,
                None => &empty,
            };
            let is_call = match item.get_str("type") {
                Some(t) => str_eq(t, "function_call"),
                None => false,
            };
            if is_call {
                self.used_tool_calls = true;
                let call_id = item.str_or("call_id", "");
                let name = item.str_or("name", "");
                self.put_tool(oi, call_id, name);
                let delta = tool_call_delta_exec(Json::number_i64(oi), call_id, name, "");
                let c = make_chunk(self.model.as_str(), delta, None, ids);
                frames.push(data_frame(c));
            }
        } else if str_eq(ty, "response.function_call_arguments.delta") {
            match find_tool(&self.tools, oi) {
                Some(i) => {
                    proof {
                        lemma_assoc_found(self@.tools, oi, i as int, self@.tools[i as int].1);
                    }
                    let args = evt.str_or("delta", "");
                    self.out_chars = add_chars_exec(self.out_chars, args);
                    let delta = tool_call_delta_exec(
                        Json::number_i64(oi),
                        self.tools[i].1.as_str(),
                        self.tools[i].2.as_str(),
                        args,
                    );
                    let c = make_chunk(self.model.as_str(), delta, None, ids);
                    frames.push(data_frame(c));
                },
                None => {
                    proof {
                        lemma_assoc_absent(self@.tools, oi, (Seq::empty(), Seq::empty()));
                    }
                },
            }
        } else if str_eq(ty, "response.completed") {
            match evt.get("response") {
                Some(resp) => match resp.get("usage") {
                    Some(u) => {
                        self.usage = responses_usage(Some(u));
                    },
                    None => {},
                },
                None => {},
            }
        }
        assert(frames_v(frames@) =~= data_frames(r2c_step(s0, evt@, old(ids).next).1));
        (frames, false)
    }

    fn put_tool(&mut self, k: i64, call_id: &str, name: &str)
        ensures
            final(self)@ == (ResponsesToChatV {
                tools: assoc_put(old(self)@.tools, k, (call_id@, name@)),
                ..old(self)@
            }),
    {
        let ghost tv = self@.tools;
        match find_tool(&self.tools, k) {
            Some(i) => {
                proof {
                    lemma_assoc_found(tv, k, i as int, (call_id@, name@));
                }
                self.tools.set(i, (k, to_owned(call_id), to_owned(name)));
                assert(self@.tools =~= tv.update(i as int, (k, (call_id@, name@))));
            },
            None => {
                proof {
                    lemma_assoc_absent(tv, k, (call_id@, name@));
                }
                self.tools.push((k, to_owned(call_id), to_owned(name)));
                assert(self@.tools =~= tv.push((k, (call_id@, name@))));
            },
        }
    }

    /// The end of the stream: the characters counted, whether tools were
    /// called, and the usage (output estimated where upstream gave none).
    pub fn finish(&self) -> (r: (u64, bool, TokenCounts))
        ensures
            r == (self@.out_chars, self@.used_tool_calls, with_estimate(self@.usage, self@.out_chars)),
    {
        (self.out_chars, self.used_tool_calls, with_estimate_exec(&self.usage, self.out_chars))
    }

    /// The end of a stream that an upstream error event ended: the
    /// characters counted, whether tools were called, and the usage as
    /// upstream gave it (nothing estimated).
    pub fn finish_stopped(&self) -> (r: (u64, bool, TokenCounts))
        ensures
            r == (self@.out_chars, self@.used_tool_calls, self@.usage),
    {
        (
            self.out_chars,
            self.used_tool_calls,
            TokenCounts { input: self.usage.input, output: self.usage.output, cached: self.usage.cached },
        )
    }
}

// ──────── client Anthropic Messages streams ────────

/// The state of a stream sent to the client as Anthropic events.
pub struct AnthropicOut {
    pub model: String,
    /// `message_start` has been sent.
    pub started: bool,
    /// The index of the text block, once opened.
    pub text_index: Option<usize>,
    /// The next block index to hand out.
    pub next_index: usize,
    /// Blocks opened and not yet closed, in the order opened.
    pub open_blocks: Vec<usize>,
    /// Upstream tool key → block index.
    pub tool_blocks: Vec<(i64, usize)>,
    pub used_tool_calls: bool,
    pub out_chars: u64,
    pub usage: TokenCounts,
}

/// The view of an Anthropic output state.
pub struct AnthropicOutV {
    pub model: Seq<char>,
    pub started: bool,
    pub text_index: Option<usize>,
    pub next_index: usize,
    pub open_blocks: Seq<usize>,
    pub tool_blocks: Seq<(i64, usize)>,
    pub used_tool_calls: bool,
    pub out_chars: u64,
    pub usage: TokenCounts,
}

impl View for AnthropicOut {
    type V = AnthropicOutV;

    open spec fn view(&self) -> AnthropicOutV {
        AnthropicOutV {
            model: self.model@,
            started: self.started,
            text_index: self.text_index,
            next_index: self.next_index,
            open_blocks: self.open_blocks@,
            tool_blocks: self.tool_blocks@,
            used_tool_calls: self.used_tool_calls,
            out_chars: self.out_chars,
            usage: self.usage,
        }
    }
}

/// A frame as a view.
pub type FrameV = (Option<Seq<char>>, JsonV);

/// The next block index after `i` (wrapping as `usize` does).
pub open spec fn next_usize(i: usize) -> usize {
    if i == usize::MAX {
        0
    } else {
        (i + 1) as usize
    }
}

/// The `message_start` event.
pub open spec fn message_start_v(model: Seq<char>, id: u64) -> JsonV {
    empty_obj().set("type"@, JsonV::Str("message_start"@)).set(
        "message"@,
        empty_obj().set("id"@, JsonV::Str(id_text("msg_"@, id))).set(
            "type"@,
            JsonV::Str("message"@),
        ).set("role"@, JsonV::Str("assistant"@)).set("model"@, JsonV::Str(model)).set(
            "content"@,
            JsonV::Array(Seq::empty()),
        ).set("stop_reason"@, JsonV::Null).set("stop_sequence"@, JsonV::Null).set(
            "usage"@,
            empty_obj().set("input_tokens"@, num(0)).set("output_tokens"@, num(0)),
        ),
    )
}

/// `message_start` if not sent yet.
pub open spec fn ensure_started(s: AnthropicOutV, id: u64) -> (AnthropicOutV, Seq<FrameV>) {
    if s.started {
        (s, Seq::empty())
    } else {
        (
            AnthropicOutV { started: true, ..s },
            seq![(Some("message_start"@), message_start_v(s.model, id))],
        )
    }
}

/// A `content_block_start` event.
pub open spec fn block_start_v(index: usize, block: JsonV) -> FrameV {
    (
        Some("content_block_start"@),
        empty_obj().set("type"@, JsonV::Str("content_block_start"@)).set(
            "index"@,
            num(index as u64),
        ).set("content_block"@, block),
    )
}

/// A `content_block_delta` event.
pub open spec fn block_delta_v(index: usize, delta: JsonV) -> FrameV {
    (
        Some("content_block_delta"@),
        empty_obj().set("type"@, JsonV::Str("content_block_delta"@)).set(
            "index"@,
            num(index as u64),
        ).set("delta"@, delta),
    )
}

/// A `text_delta`.
pub open spec fn text_delta_v(text: Seq<char>) -> JsonV {
    empty_obj().set("type"@, JsonV::Str("text_delta"@)).set("text"@, JsonV::Str(text))
}

/// An `input_json_delta`.
pub open spec fn json_delta_v(partial: Seq<char>) -> JsonV {
    empty_obj().set("type"@, JsonV::Str("input_json_delta"@)).set(
        "partial_json"@,
        JsonV::Str(partial),
    )
}

/// A `tool_use` block as it starts.
pub open spec fn tool_block_v(id: Seq<char>, name: Seq<char>) -> JsonV {
    empty_obj().set("type"@, JsonV::Str("tool_use"@)).set("id"@, JsonV::Str(id)).set(
        "name"@,
        JsonV::Str(name),
    ).set("input"@, empty_obj())
}

/// The text block: the one opened, or a new one opened now.
pub open spec fn open_text(s: AnthropicOutV) -> (AnthropicOutV, Seq<FrameV>, usize) {
    match s.text_index {
        Some(i) => (s, Seq::empty(), i),
        None => {
            let i = s.next_index;
            (
                AnthropicOutV {
                    next_index: next_usize(i),
                    text_index: Some(i),
                    open_blocks: s.open_blocks.push(i),
                    ..s
                },
                seq![
                    block_start_v(
                        i,
                        empty_obj().set("type"@, JsonV::Str("text"@)).set(
                            "text"@,
                            JsonV::Str(""@),
                        ),
                    ),
                ],
                i,
            )
        },
    }
}

/// Text sent as a delta of the text block.
pub open spec fn send_text(s: AnthropicOutV, text: Seq<char>, id: u64) -> (AnthropicOutV, Seq<FrameV>) {
    let (s1, f1) = ensure_started(s, id);
    let (s2, f2, ti) = open_text(s1);
    (
        AnthropicOutV { out_chars: add_chars(s2.out_chars, text), ..s2 },
        f1 + f2 + seq![block_delta_v(ti, text_delta_v(text))],
    )
}

/// A new tool block for upstream key `k`.
pub open spec fn open_tool(s: AnthropicOutV, k: i64, call_id: Seq<char>, name: Seq<char>) -> (
    AnthropicOutV,
    Seq<FrameV>,
) {
    let bi = s.next_index;
    (
        AnthropicOutV {
            next_index: next_usize(bi),
            tool_blocks: assoc_put(s.tool_blocks, k, bi),
            open_blocks: s.open_blocks.push(bi),
            used_tool_calls: true,
            ..s
        },
        seq![block_start_v(bi, tool_block_v(call_id, name))],
    )
}

/// Arguments sent as a delta of the tool block of key `k`, where there is one.
pub open spec fn send_args(s: AnthropicOutV, k: i64, args: Seq<char>) -> (AnthropicOutV, Seq<FrameV>) {
    match assoc_get(s.tool_blocks, k) {
        Some(bi) => (
            AnthropicOutV { out_chars: add_chars(s.out_chars, args), ..s },
            seq![block_delta_v(bi, json_delta_v(args))],
        ),
        None => (s, Seq::empty()),
    }
}

/// The error message of an upstream error event.
pub open spec fn error_message(evt: JsonV) -> Seq<char> {
    let m = match path2(evt, "error"@, "message"@) {
        Some(m) => Some(m),
        None => path3(evt, "response"@, "error"@, "message"@),
    };
    match m {
        Some(JsonV::Str(t)) => t,
        _ => "upstream error"@,
    }
}

/// `{"type": "message_stop"}`.
pub open spec fn message_stop_v() -> FrameV {
    (Some("message_stop"@), empty_obj().set("type"@, JsonV::Str("message_stop"@)))
}

/// One step of a Responses → Anthropic stream: the next state, the frames
/// sent, and whether the stream ends here.
pub open spec fn r2a_stream_step(s: AnthropicOutV, evt: JsonV, id: u64) -> (
    AnthropicOutV,
    Seq<FrameV>,
    bool,
) {
    let ty = evt_type(evt);
    let oi = i64_or(evt.get("output_index"@), 0);
    if ty == "error"@ || ty == "response.failed"@ {
        let (s1, f1) = ensure_started(s, id);
        (
            s1,
            f1 + seq![
                (
                    Some("error"@),
                    empty_obj().set("type"@, JsonV::Str("error"@)).set(
                        "error"@,
                        empty_obj().set("type"@, JsonV::Str("api_error"@)).set(
                            "message"@,
                            JsonV::Str(error_message(evt)),
                        ),
                    ),
                ),
                message_stop_v(),
            ],
            true,
        )
    } else if ty == "response.output_text.delta"@ {
        match evt.get_str("delta"@) {
            Some(d) => {
                let (s1, f) = send_text(s, d, id);
                (s1, f, false)
            },
            None => (s, Seq::empty(), false),
        }
    } else if ty == "response.output_item.added"@ {
        let item = match evt.get("item"@) {
            Some(i) => i,
            None => empty_obj(),
        };
        if item.get_str("type"@) == Some("function_call"@) {
            let (s1, f1) = ensure_started(s, id);
            let (s2, f2) = open_tool(s1, oi, item.str_or("call_id"@, ""@), item.str_or("name"@, ""@));
            (s2, f1 + f2, false)
        } else {
            (s, Seq::empty(), false)
        }
    } else if ty == "response.function_call_arguments.delta"@ {
        let (s1, f) = send_args(s, oi, evt.str_or("delta"@, ""@));
        (s1, f, false)
    } else if ty == "response.completed"@ {
        match path2(evt, "response"@, "usage"@) {
            Some(u) => (
                AnthropicOutV { usage: counts_of(responses_usage_v(Some(u))), ..s },
                Seq::empty(),
                false,
            ),
            None => (s, Seq::empty(), false),
        }
    } else {
        (s, Seq::empty(), false)
    }
}

/// `content_block_stop` for each block, in order.
pub open spec fn stop_frames(blocks: Seq<usize>) -> Seq<FrameV>
    decreases blocks.len(),
{
    if blocks.len() == 0 {
        Seq::empty()
    } else {
        stop_frames(blocks.drop_last()) + seq![
            (
                Some("content_block_stop"@),
                empty_obj().set("type"@, JsonV::Str("content_block_stop"@)).set(
                    "index"@,
                    num(blocks.last() as u64),
                ),
            ),
        ]
    }
}

/// The closing frames: `message_start` if never sent, a stop for every open
/// block, `message_delta` with the stop reason and estimated output tokens,
/// and `message_stop`.
pub open spec fn finish_frames(s: AnthropicOutV, id: u64) -> Seq<FrameV> {
    let (s1, f1) = ensure_started(s, id);
    f1 + stop_frames(s1.open_blocks) + seq![
        (
            Some("message_delta"@),
            empty_obj().set("type"@, JsonV::Str("message_delta"@)).set(
                "delta"@,
                empty_obj().set(
                    "stop_reason"@,
                    JsonV::Str(
                        if s1.used_tool_calls {
                            "tool_use"@
                        } else {
                            "end_turn"@
                        },
                    ),
                ).set("stop_sequence"@, JsonV::Null),
            ).set("usage"@, empty_obj().set("output_tokens"@, num(ceil3(s1.out_chars)))),
        ),
        message_stop_v(),
    ]
}

/// The ids an Anthropic step used: one for `message_start` where it was sent.
pub open spec fn ids_after_start(old_s: AnthropicOutV, new_s: AnthropicOutV, id: u64) -> u64 {
    if new_s.started && !old_s.started {
        next_id(id)
    } else {
        id
    }
}

impl AnthropicOut {
    /// A fresh stream for `model`.
    pub fn new(model: &str) -> (r: Self)
        ensures
            r@ == (AnthropicOutV {
                model: model@,
                started: false,
                text_index: None,
                next_index: 0,
                open_blocks: Seq::empty(),
                tool_blocks: Seq::empty(),
                used_tool_calls: false,
                out_chars: 0,
                usage: TokenCounts { input: 0, output: 0, cached: 0 },
            }),
    {
        AnthropicOut {
            model: to_owned(model),
            started: false,
            text_index: None,
            next_index: 0,
            open_blocks: Vec::new(),
            tool_blocks: Vec::new(),
            used_tool_calls: false,
            out_chars: 0,
            usage: TokenCounts { input: 0, output: 0, cached: 0 },
        }
    }

    fn ensure_started_exec(&mut self, frames: &mut Vec<Frame>, ids: &mut RequestIds)
        ensures
            final(self)@ == ensure_started(old(self)@, old(ids).next).0,
            frames_v(final(frames)@) == frames_v(old(frames)@) + ensure_started(
                old(self)@,
                old(ids).next,
            ).1,
            final(ids).next == ids_after_start(old(self)@, final(self)@, old(ids).next),
    {
        let ghost f0 = frames_v(frames@);
        if !self.started {
            self.started = true;
            let id = ids.next_request_id();
            let mut usage = Json::object();
            usage.set("input_tokens", Json::number(0));
            usage.set("output_tokens", Json::number(0));
            let mut name = to_owned("msg_");
            crate::text::push_str(&mut name, crate::text::u64_to_text(id).as_str());
            let mut m = Json::object();
            m.set("id", Json::from_string(name));
            m.set("type", Json::string("message"));
            m.set("role", Json::string("assistant"));
            m.set("model", Json::string(self.model.as_str()));
            let no_blocks: Vec<Json> = Vec::new();
            assert(no_blocks@.map_values(|j: Json| j@) =~= Seq::<JsonV>::empty());
            m.set("content", Json::array(no_blocks));
            m.set("stop_reason", Json::null());
            m.set("stop_sequence", Json::null());
            m.set("usage", usage);
            let mut o = Json::object();
            o.set("type", Json::string("message_start"));
            o.set("message", m);
            let fr = named_frame("message_start", o);
            let ghost fv = frame_v(fr);
            assert(fv == (Some("message_start"@), message_start_v(old(self)@.model, old(ids).next)));
            frames.push(fr);
            assert(frames_v(frames@) =~= f0.push(fv));
            assert(frames_v(frames@) =~= f0 + ensure_started(old(self)@, old(ids).next).1);
        } else {
            assert(frames_v(frames@) =~= f0 + Seq::<FrameV>::empty());
        }
    }

    fn block_start_exec(index: usize, block: Json) -> (f: Frame)
        ensures
            frame_v(f) == block_start_v(index, block@),
    {
        let mut o = Json::object();
        o.set("type", Json::string("content_block_start"));
        o.set("index", Json::number(index as u64));
        o.set("content_block", block);
        named_frame("content_block_start", o)
    }

    fn block_delta_exec(index: usize, delta: Json) -> (f: Frame)
        ensures
            frame_v(f) == block_delta_v(index, delta@),
    {
        let mut o = Json::object();
        o.set("type", Json::string("content_block_delta"));
        o.set("index", Json::number(index as u64));
        o.set("delta", delta);
        named_frame("content_block_delta", o)
    }

    fn send_text_exec(&mut self, text: &str, frames: &mut Vec<Frame>, ids: &mut RequestIds)
        ensures
            final(self)@ == send_text(old(self)@, text@, old(ids).next).0,
            frames_v(final(frames)@) == frames_v(old(frames)@) + send_text(
                old(self)@,
                text@,
                old(ids).next,
            ).1,
            final(ids).next == ids_after_start(old(self)@, final(self)@, old(ids).next),
    {
        let ghost f0 = frames_v(frames@);
        self.ensure_started_exec(frames, ids);
        let ghost f1 = frames_v(frames@);
        let ti = match self.text_index {
            Some(i) => i,
            None => {
                let i = self.next_index;
                self.next_index = self.next_index.wrapping_add(1);
                self.text_index = Some(i);
                self.open_blocks.push(i);
                let mut b = Json::object();
                b.set("type", Json::string("text"));
                b.set("text", Json::string(""));
                let fr = Self::block_start_exec(i, b);
                let ghost fv = frame_v(fr);
                frames.push(fr);
                assert(frames_v(frames@) =~= f1.push(fv));
                i
            },
        };
        let ghost mid = ensure_started(old(self)@, old(ids).next);
        let ghost ot = open_text(mid.0);
        assert(ti == ot.2);
        assert(frames_v(frames@) =~= f1 + ot.1);
        let ghost f2 = frames_v(frames@);
        self.out_chars = add_chars_exec(self.out_chars, text);
        let mut d = Json::object();
        d.set("type", Json::string("text_delta"));
        d.set("text", Json::string(text));
        let fr = Self::block_delta_exec(ti, d);
        let ghost fv = frame_v(fr);
        frames.push(fr);
        assert(frames_v(frames@) =~= f2.push(fv));
        assert(frames_v(frames@) =~= f0 + send_text(old(self)@, text@, old(ids).next).1);
    }

    fn open_tool_exec(&mut self, k: i64, call_id: &str, name: &str, frames: &mut Vec<Frame>)
        ensures
            final(self)@ == open_tool(old(self)@, k, call_id@, name@).0,
            frames_v(final(frames)@) == frames_v(old(frames)@) + open_tool(
                old(self)@,
                k,
                call_id@,
                name@,
            ).1,
    {
        let ghost f0 = frames_v(frames@);
        let bi = self.next_index;
        self.next_index = self.next_index.wrapping_add(1);
        index_put(&mut self.tool_blocks, k, bi);
        self.open_blocks.push(bi);
        self.used_tool_calls = true;
        let mut b = Json::object();
        b.set("type", Json::string("tool_use"));
        b.set("id", Json::string(call_id));
        b.set("name", Json::string(name));
        b.set("input", Json::object());
        frames.push(Self::block_start_exec(bi, b));
        assert(frames_v(frames@) =~= f0 + open_tool(old(self)@, k, call_id@, name@).1);
    }

    fn send_args_exec(&mut self, k: i64, args: &str, frames: &mut Vec<Frame>)
        ensures
            final(self)@ == send_args(old(self)@, k, args@).0,
            frames_v(final(frames)@) == frames_v(old(frames)@) + send_args(old(self)@, k, args@).1,
    {
        let ghost f0 = frames_v(frames@);
        match index_get(&self.tool_blocks, k) {
            Some(bi) => {
                self.out_chars = add_chars_exec(self.out_chars, args);
                let mut d = Json::object();
                d.set("type", Json::string("input_json_delta"));
                d.set("partial_json", Json::string(args));
                frames.push(Self::block_delta_exec(bi, d));
                assert(frames_v(frames@) =~= f0 + send_args(old(self)@, k, args@).1);
            },
            None => {
                assert(frames_v(frames@) =~= f0 + Seq::<FrameV>::empty());
            },
        }
    }

    fn message_stop_exec() -> (f: Frame)
        ensures
            frame_v(f) == message_stop_v(),
    {
        let mut o = Json::object();
        o.set("type", Json::string("message_stop"));
        named_frame("message_stop", o)
    }

    /// One upstream Responses event, into Anthropic frames.
    pub fn on_responses_event(&mut self, evt: &Json, ids: &mut RequestIds) -> (r: (Vec<Frame>, bool))
        ensures
            ({
                let (st, fs, stop) = r2a_stream_step(old(self)@, evt@, old(ids).next);
                &&& final(self)@ == st
                &&& frames_v(r.0@) == fs
                &&& r.1 == stop
                &&& final(ids).next == ids_after_start(old(self)@, final(self)@, old(ids).next)
            }),
    {
        let ghost s0 = self@;
        let ty = evt.str_or("type", "");
        let oi = i64_or_exec(evt.get("output_index"), 0);
        let mut frames: Vec<Frame> = Vec::new();
        assert(frames_v(frames@) =~= Seq::<FrameV>::empty());
        if str_eq(ty, "error") || str_eq(ty, "response.failed") {
            self.ensure_started_exec(&mut frames, ids);
            let m = match evt.get("error") {
                Some(e) => e.get("message"),
                None => None,
            };
            let m = match m {
                Some(x) => Some(x),
                None => match evt.get("response") {
                    Some(r) => match r.get("error") {
                        Some(e) => e.get("message"),
                        None => None,
                    },
                    None => None,
                },
            };
            let msg = match m {
                Some(x) => match x.as_str() {
                    Some(t) => t,
                    None => "upstream error",
                },
                None => "upstream error",
            };
            proof {
                assert(msg@ == error_message(evt@)) by {
                    match m {
                        Some(x) => {
                            match x@ {
                                JsonV::Str(_) => {},
                                _ => {},
                            }
                        },
                        None => {},
                    }
                }
            }
            let mut inner = Json::object();
            inner.set("type", Json::string("api_error"));
            inner.set("message", Json::string(msg));
            let mut e = Json::object();
            e.set("type", Json::string("error"));
            e.set("error", inner);
            let ghost f1 = frames_v(frames@);
            frames.push(named_frame("error", e));
            frames.push(Self::message_stop_exec());
            assert(frames_v(frames@) =~= r2a_stream_step(s0, evt@, old(ids).next).1);
            return (frames, true);
        } else if str_eq(ty, "response.output_text.delta") {
            match evt.get_str("delta") {
                Some(d) => {
                    self.send_text_exec(d, &mut frames, ids);
                },
                None => {},
            }
        } else if str_eq(ty, "response.output_item.added") {
            let empty = Json::object();
            let item = match evt.get("item") {
                Some(i) => i,
                None => &empty,
            };
            let is_call = match item.get_str("type") {
                Some(t) => str_eq(t, "function_call"),
                None => false,
            };
            if is_call {
                self.ensure_started_exec(&mut frames, ids);
                self.open_tool_exec(oi, item.str_or("call_id", ""), item.str_or("name", ""), &mut frames);
            }
        } else if str_eq(ty, "response.function_call_arguments.delta") {
            self.send_args_exec(oi, evt.str_or("delta", ""), &mut frames);
        } else if str_eq(ty, "response.completed") {
            match evt.get("response") {
                Some(resp) => match resp.get("usage") {
                    Some(u) => {
                        self.usage = responses_usage(Some(u));
                    },
                    None => {},
                },
                None => {},
            }
        }
        assert(frames_v(frames@) =~= r2a_stream_step(s0, evt@, old(ids).next).1);
        (frames, false)
    }

    /// The end of a stream that an upstream error event ended (the error
    /// and `message_stop` are already sent): no more frames; the characters
    /// counted and the usage as upstream gave it (nothing estimated).
    pub fn finish_stopped(&self) -> (r: (u64, TokenCounts))
        ensures
            r == (self@.out_chars, self@.usage),
    {
        (
            self.out_chars,
            TokenCounts { input: self.usage.input, output: self.usage.output, cached: self.usage.cached },
        )
    }

    /// The end of the stream: the closing frames, the characters counted,
    /// and the usage (output estimated where upstream gave none).
    pub fn finish(&mut self, ids: &mut RequestIds) -> (r: (Vec<Frame>, u64, TokenCounts))
        ensures
            frames_v(r.0@) == finish_frames(old(self)@, old(ids).next),
            r.1 == old(self)@.out_chars,
            r.2 == with_estimate(old(self)@.usage, old(self)@.out_chars),
            final(ids).next == ids_after_start(old(self)@, final(self)@, old(ids).next),
            final(self)@ == ensure_started(old(self)@, old(ids).next).0,
    {
        let mut frames: Vec<Frame> = Vec::new();
        assert(frames_v(frames@) =~= Seq::<FrameV>::empty());
        self.ensure_started_exec(&mut frames, ids);
        let ghost f1 = frames_v(frames@);
        let mut i: usize = 0;
        assert(self.open_blocks@.take(0) =~= Seq::<usize>::empty());
        while i < self.open_blocks.len()
            invariant
                i <= self.open_blocks@.len(),
                frames_v(frames@) == f1 + stop_frames(self.open_blocks@.take(i as int)),
            decreases self.open_blocks@.len() - i,
        {
            assert(self.open_blocks@.take(i as int + 1).drop_last() =~= self.open_blocks@.take(
                i as int,
            ));
            let b = self.open_blocks[i];
            assert(self.open_blocks@.take(i as int + 1).last() == b);
            let mut o = Json::object();
            o.set("type", Json::string("content_block_stop"));
            o.set("index", Json::number(b as u64));
            let ghost cur = frames_v(frames@);
            let fr = named_frame("content_block_stop", o);
            let ghost fv = frame_v(fr);
            frames.push(fr);
            assert(frames_v(frames@) =~= cur.push(fv));
            i = i + 1;
        }
        assert(self.open_blocks@.take(self.open_blocks@.len() as int) =~= self.open_blocks@);
        let mut delta = Json::object();
        delta.set(
            "stop_reason",
            Json::string(
                if self.used_tool_calls {
                    "tool_use"
                } else {
                    "end_turn"
                },
            ),
        );
        delta.set("stop_sequence", Json::null());
        let mut usage = Json::object();
        usage.set("output_tokens", Json::number(div_ceil3(self.out_chars)));
        let mut md = Json::object();
        md.set("type", Json::string("message_delta"));
        md.set("delta", delta);
        md.set("usage", usage);
        frames.push(named_frame("message_delta", md));
        frames.push(Self::message_stop_exec());
        assert(frames_v(frames@) =~= finish_frames(old(self)@, old(ids).next));
        (frames, self.out_chars, with_estimate_exec(&self.usage, self.out_chars))
    }
}

// ──────── upstream Chat Completions → client Anthropic Messages ────────

/// The Chat tool calls of one chunk applied in order: a call with a name
/// opens a tool block for its `index` (0 where missing); arguments go to the
/// block of that index where one is open.
pub open spec fn c2a_tool_calls(s: AnthropicOutV, tcs: Seq<JsonV>) -> (AnthropicOutV, Seq<FrameV>)
    decreases tcs.len(),
{
    if tcs.len() == 0 {
        (s, Seq::empty())
    } else {
        let (s0, f0) = c2a_tool_calls(s, tcs.drop_last());
        let tc = tcs.last();
        let k = i64_or(tc.get("index"@), 0);
        let (s1, f1) = match path2_str(tc, "function"@, "name"@) {
            Some(n) => open_tool(s0, k, tc.str_or("id"@, ""@), n),
            None => (s0, Seq::empty()),
        };
        let (s2, f2) = match path2_str(tc, "function"@, "arguments"@) {
            Some(a) => send_args(s1, k, a),
            None => (s1, Seq::empty()),
        };
        (s2, f0 + f1 + f2)
    }
}

/// One step of a Chat → Anthropic stream: text, then tool calls, then usage.
pub open spec fn c2a_stream_step(s: AnthropicOutV, evt: JsonV, id: u64) -> (
    AnthropicOutV,
    Seq<FrameV>,
) {
    let (s1, f1) = match delta_content(evt) {
        Some(c) => send_text(s, c, id),
        None => (s, Seq::empty()),
    };
    let (s2, f2) = match delta_tool_calls(evt) {
        Some(tcs) => {
            let (sa, fa) = ensure_started(s1, id);
            let (sb, fb) = c2a_tool_calls(sa, tcs);
            (sb, fa + fb)
        },
        None => (s1, Seq::empty()),
    };
    let s3 = match evt.get("usage"@) {
        Some(u) => AnthropicOutV { usage: counts_of(crate::respond::chat_usage_v(Some(u))), ..s2 },
        None => s2,
    };
    (s3, f1 + f2)
}

impl AnthropicOut {
    /// One upstream Chat chunk, into Anthropic frames.
    pub fn on_chat_event(&mut self, evt: &Json, ids: &mut RequestIds) -> (r: Vec<Frame>)
        ensures
            ({
                let (st, fs) = c2a_stream_step(old(self)@, evt@, old(ids).next);
                &&& final(self)@ == st
                &&& frames_v(r@) == fs
                &&& final(ids).next == ids_after_start(old(self)@, final(self)@, old(ids).next)
            }),
    {
        let ghost s0 = self@;
        let ghost id0 = ids.next;
        let mut frames: Vec<Frame> = Vec::new();
        assert(frames_v(frames@) =~= Seq::<FrameV>::empty());
        let delta = chat_delta_exec(evt);
        match delta {
            Some(d) => match d.get_str("content") {
                Some(c) => self.send_text_exec(c, &mut frames, ids),
                None => {},
            },
            None => {},
        }
        let tcs = match delta {
            Some(d) => match d.get("tool_calls") {
                Some(t) => t.as_array(),
                None => None,
            },
            None => None,
        };
        match tcs {
            Some(tcs) => {
                self.ensure_started_exec(&mut frames, ids);
                let ghost cv = tcs@.map_values(|j: Json| j@);
                let ghost sa = self@;
                let ghost fa = frames_v(frames@);
                let mut i: usize = 0;
                assert(cv.take(0) =~= Seq::<JsonV>::empty());
                assert(fa =~= fa + c2a_tool_calls(sa, cv.take(0)).1);
                while i < tcs.len()
                    invariant
                        i <= tcs@.len(),
                        cv == tcs@.map_values(|j: Json| j@),
                        self@ == c2a_tool_calls(sa, cv.take(i as int)).0,
                        frames_v(frames@) == fa + c2a_tool_calls(sa, cv.take(i as int)).1,
                        self@.model == sa.model,
                        self@.started == sa.started,
                    decreases tcs@.len() - i,
                {
                    assert(cv.take(i as int + 1).drop_last() =~= cv.take(i as int));
                    assert(cv.take(i as int + 1).last() == tcs@[i as int]@);
                    let tc = &tcs[i];
                    let k = i64_or_exec(tc.get("index"), 0);
                    let ghost f_before = frames_v(frames@);
                    match path2_str_exec(tc, "function", "name") {
                        Some(n) => self.open_tool_exec(k, tc.str_or("id", ""), n, &mut frames),
                        None => {},
                    }
                    match path2_str_exec(tc, "function", "arguments") {
                        Some(a) => self.send_args_exec(k, a, &mut frames),
                        None => {},
                    }
                    assert(frames_v(frames@) =~= fa + c2a_tool_calls(sa, cv.take(i as int + 1)).1);
                    i = i + 1;
                }
                assert(cv.take(tcs@.len() as int) =~= cv);
            },
            None => {},
        }
        match evt.get("usage") {
            Some(u) => {
                self.usage = crate::respond::chat_usage(Some(u));
            },
            None => {},
        }
        assert(frames_v(frames@) =~= c2a_stream_step(s0, evt@, id0).1);
        frames
    }
}

// ──────── upstream Chat Completions → client Responses ────────

/// The state of a Chat → Responses stream.
pub struct ChatToResponses {
    pub text_started: bool,
    pub used_tool_calls: bool,
    pub out_chars: u64,
    pub usage: TokenCounts,
}

/// Data frames of the given events, in order.
fn to_data_frames(events: &Vec<Json>) -> (r: Vec<Frame>)
    ensures
        frames_v(r@) == data_frames(events@.map_values(|j: Json| j@)),
{
    let ghost ev = events@.map_values(|j: Json| j@);
    let mut frames: Vec<Frame> = Vec::new();
    let mut k: usize = 0;
    assert(ev.take(0) =~= Seq::<JsonV>::empty());
    while k < events.len()
        invariant
            k <= events@.len(),
            ev == events@.map_values(|j: Json| j@),
            frames_v(frames@) == data_frames(ev.take(k as int)),
        decreases events@.len() - k,
    {
        let ghost before = frames_v(frames@);
        let e = events[k].copy();
        frames.push(data_frame(e));
        assert(frames_v(frames@) =~= before.push((None::<Seq<char>>, ev[k as int])));
        assert(ev.take(k as int + 1) =~= ev.take(k as int).push(ev[k as int]));
        assert(data_frames(ev.take(k as int + 1)) =~= data_frames(ev.take(k as int)).push(
            (None::<Seq<char>>, ev[k as int]),
        ));
        k = k + 1;
    }
    assert(ev.take(events@.len() as int) =~= ev);
    frames
}

/// `{"type": "response.output_text.delta", "delta": d}`.
pub open spec fn text_event_v(d: Seq<char>) -> JsonV {
    empty_obj().set("type"@, JsonV::Str("response.output_text.delta"@)).set(
        "delta"@,
        JsonV::Str(d),
    )
}

fn text_event(d: &str) -> (r: Json)
    ensures
        r@ == text_event_v(d@),
{
    let mut o = Json::object();
    o.set("type", Json::string("response.output_text.delta"));
    o.set("delta", Json::string(d));
    o
}

/// `{"type": "response.output_item.added", "item": {"type": "function_call",
/// "name": name}}`.
pub open spec fn item_added_v(name: Seq<char>) -> JsonV {
    empty_obj().set("type"@, JsonV::Str("response.output_item.added"@)).set(
        "item"@,
        empty_obj().set("type"@, JsonV::Str("function_call"@)).set("name"@, JsonV::Str(name)),
    )
}

fn item_added(name: &str) -> (r: Json)
    ensures
        r@ == item_added_v(name@),
{
    let mut item = Json::object();
    item.set("type", Json::string("function_call"));
    item.set("name", Json::string(name));
    let mut o = Json::object();
    o.set("type", Json::string("response.output_item.added"));
    o.set("item", item);
    o
}

/// `{"type": "response.function_call_arguments.delta", "delta": a}`.
pub open spec fn args_event_v(a: Seq<char>) -> JsonV {
    empty_obj().set("type"@, JsonV::Str("response.function_call_arguments.delta"@)).set(
        "delta"@,
        JsonV::Str(a),
    )
}

fn args_event(a: &str) -> (r: Json)
    ensures
        r@ == args_event_v(a@),
{
    let mut o = Json::object();
    o.set("type", Json::string("response.function_call_arguments.delta"));
    o.set("delta", Json::string(a));
    o
}

/// The tool calls of one Chat chunk as Responses events: each call marks
/// tools as used; a name announces a function call, arguments are sent on.
pub open spec fn c2r_tool_calls(s: (bool, u64), tcs: Seq<JsonV>) -> ((bool, u64), Seq<JsonV>)
    decreases tcs.len(),
{
    if tcs.len() == 0 {
        (s, Seq::empty())
    } else {
        let (s0, f0) = c2r_tool_calls(s, tcs.drop_last());
        let tc = tcs.last();
        let f1 = match path2_str(tc, "function"@, "name"@) {
            Some(n) => seq![item_added_v(n)],
            None => Seq::empty(),
        };
        match path2_str(tc, "function"@, "arguments"@) {
            Some(a) => ((true, add_chars(s0.1, a)), f0 + f1 + seq![args_event_v(a)]),
            None => ((true, s0.1), f0 + f1),
        }
    }
}

/// One step of a Chat → Responses stream: the next state and the events.
pub open spec fn c2r_step(s: ChatToResponses, evt: JsonV) -> (ChatToResponses, Seq<JsonV>) {
    let (s1, f1) = match delta_content(evt) {
        Some(c) => (
            ChatToResponses { text_started: true, out_chars: add_chars(s.out_chars, c), ..s },
            if s.text_started {
                seq![text_event_v(c)]
            } else {
                seq![text_event_v(""@), text_event_v(c)]
            },
        ),
        None => (s, Seq::empty()),
    };
    let (s2, f2) = match delta_tool_calls(evt) {
        Some(tcs) => {
            let ((used, chars), f) = c2r_tool_calls((s1.used_tool_calls, s1.out_chars), tcs);
            (ChatToResponses { used_tool_calls: used, out_chars: chars, ..s1 }, f)
        },
        None => (s1, Seq::empty()),
    };
    let s3 = match evt.get("usage"@) {
        Some(u) => ChatToResponses { usage: counts_of(crate::respond::chat_usage_v(Some(u))), ..s2 },
        None => s2,
    };
    (s3, f1 + f2)
}

impl ChatToResponses {
    /// A fresh stream.
    pub fn new() -> (r: Self)
        ensures
            !r.text_started && !r.used_tool_calls && r.out_chars == 0 && r.usage == (TokenCounts {
                input: 0,
                output: 0,
                cached: 0,
            }),
    {
        ChatToResponses {
            text_started: false,
            used_tool_calls: false,
            out_chars: 0,
            usage: TokenCounts { input: 0, output: 0, cached: 0 },
        }
    }

    /// One upstream Chat chunk, into Responses frames.
    pub fn on_event(&mut self, evt: &Json) -> (r: Vec<Frame>)
        ensures
            *final(self) == c2r_step(*old(self), evt@).0,
            frames_v(r@) == data_frames(c2r_step(*old(self), evt@).1),
    {
        let ghost s0 = *self;
        let mut events: Vec<Json> = Vec::new();
        let delta = chat_delta_exec(evt);
        match delta {
            Some(d) => match d.get_str("content") {
                Some(c) => {
                    if !self.text_started {
                        self.text_started = true;
                        events.push(text_event(""));
                    }
                    self.out_chars = add_chars_exec(self.out_chars, c);
                    let ghost before = events@.map_values(|j: Json| j@);
                    events.push(text_event(c));
                    assert(events@.map_values(|j: Json| j@) =~= before.push(text_event_v(c@)));
                },
                None => {},
            },
            None => {},
        }
        let ghost e1 = events@.map_values(|j: Json| j@);
        let ghost s1 = *self;
        assert(e1 =~= (match delta_content(evt@) {
            Some(c) => if s0.text_started {
                seq![text_event_v(c)]
            } else {
                seq![text_event_v(""@), text_event_v(c)]
            },
            None => Seq::<JsonV>::empty(),
        }));
        let tcs = match delta {
            Some(d) => match d.get("tool_calls") {
                Some(t) => t.as_array(),
                None => None,
            },
            None => None,
        };
        match tcs {
            Some(tcs) => {
                let ghost cv = tcs@.map_values(|j: Json| j@);
                let ghost st0 = (self.used_tool_calls, self.out_chars);
                let mut i: usize = 0;
                assert(cv.take(0) =~= Seq::<JsonV>::empty());
                assert(e1 =~= e1 + c2r_tool_calls(st0, cv.take(0)).1);
                while i < tcs.len()
                    invariant
                        i <= tcs@.len(),
                        cv == tcs@.map_values(|j: Json| j@),
                        (self.used_tool_calls, self.out_chars) == c2r_tool_calls(
                            st0,
                            cv.take(i as int),
                        ).0,
                        self.text_started == s1.text_started,
                        self.usage == s1.usage,
                        events@.map_values(|j: Json| j@) == e1 + c2r_tool_calls(
                            st0,
                            cv.take(i as int),
                        ).1,
                    decreases tcs@.len() - i,
                {
                    assert(cv.take(i as int + 1).drop_last() =~= cv.take(i as int));
                    assert(cv.take(i as int + 1).last() == tcs@[i as int]@);
                    let tc = &tcs[i];
                    let ghost prev = c2r_tool_calls(st0, cv.take(i as int));
                    let ghost ev0 = events@.map_values(|j: Json| j@);
                    match path2_str_exec(tc, "function", "name") {
                        Some(n) => {
                            events.push(item_added(n));
                            assert(events@.map_values(|j: Json| j@) =~= ev0.push(item_added_v(n@)));
                        },
                        None => {},
                    }
                    let ghost ev1 = events@.map_values(|j: Json| j@);
                    match path2_str_exec(tc, "function", "arguments") {
                        Some(a) => {
                            self.out_chars = add_chars_exec(self.out_chars, a);
                            events.push(args_event(a));
                            assert(events@.map_values(|j: Json| j@) =~= ev1.push(args_event_v(a@)));
                        },
                        None => {},
                    }
                    self.used_tool_calls = true;
                    assert(events@.map_values(|j: Json| j@) =~= e1 + c2r_tool_calls(
                        st0,
                        cv.take(i as int + 1),
                    ).1);
                    i = i + 1;
                }
                assert(cv.take(tcs@.len() as int) =~= cv);
            },
            None => {
                assert(e1 =~= e1 + Seq::<JsonV>::empty());
            },
        }
        match evt.get("usage") {
            Some(u) => {
                self.usage = crate::respond::chat_usage(Some(u));
            },
            None => {},
        }
        let ghost ev = events@.map_values(|j: Json| j@);
        assert(ev =~= c2r_step(s0, evt@).1);
        to_data_frames(&events)
    }

    /// The end of the stream: characters counted, whether tools were called,
    /// and the usage (output estimated where upstream gave none).
    pub fn finish(&self) -> (r: (u64, bool, TokenCounts))
        ensures
            r == (self.out_chars, self.used_tool_calls, with_estimate(self.usage, self.out_chars)),
    {
        (self.out_chars, self.used_tool_calls, with_estimate_exec(&self.usage, self.out_chars))
    }
}

// ──────── upstream Anthropic Messages → client Responses ────────

/// Usage after one Anthropic event: `message_start` gives input and cached
/// tokens, `message_delta` the output tokens.
pub open spec fn anthropic_usage_step(u: TokenCounts, evt: JsonV) -> TokenCounts {
    let ty = evt_type(evt);
    if ty == "message_start"@ {
        match path2(evt, "message"@, "usage"@) {
            Some(x) => TokenCounts {
                input: u64_or_zero(x.get("input_tokens"@)),
                cached: u64_or_zero(x.get("cache_read_input_tokens"@)),
                ..u
            },
            None => u,
        }
    } else if ty == "message_delta"@ {
        match evt.get("usage"@) {
            Some(x) => TokenCounts { output: u64_or_zero(x.get("output_tokens"@)), ..u },
            None => u,
        }
    } else {
        u
    }
}

fn anthropic_usage_step_exec(u: &mut TokenCounts, evt: &Json)
    ensures
        *final(u) == anthropic_usage_step(*old(u), evt@),
{
    let ty = evt.str_or("type", "");
    if str_eq(ty, "message_start") {
        match crate::respond::path2_exec(evt, "message", "usage") {
            Some(x) => {
                u.input = crate::respond::u64_or_zero_exec(x.get("input_tokens"));
                u.cached = crate::respond::u64_or_zero_exec(x.get("cache_read_input_tokens"));
            },
            None => {},
        }
    } else if str_eq(ty, "message_delta") {
        match evt.get("usage") {
            Some(x) => {
                u.output = crate::respond::u64_or_zero_exec(x.get("output_tokens"));
            },
            None => {},
        }
    }
}

/// The state of an Anthropic → Responses stream.
pub struct AnthropicToResponses {
    pub used_tool_calls: bool,
    pub out_chars: u64,
    pub usage: TokenCounts,
}

/// One step of an Anthropic → Responses stream: the next state and events.
pub open spec fn a2r_step(s: AnthropicToResponses, evt: JsonV) -> (AnthropicToResponses, Seq<JsonV>) {
    let ty = evt_type(evt);
    let s_u = AnthropicToResponses { usage: anthropic_usage_step(s.usage, evt), ..s };
    if ty == "content_block_delta"@ {
        let (c1, f1) = match path2_str(evt, "delta"@, "text"@) {
            Some(d) => (add_chars(s.out_chars, d), seq![text_event_v(d)]),
            None => (s.out_chars, Seq::empty()),
        };
        let (c2, f2) = if path2_str(evt, "delta"@, "type"@) == Some("input_json_delta"@) {
            match path2_str(evt, "delta"@, "partial_json"@) {
                Some(a) => (add_chars(c1, a), seq![args_event_v(a)]),
                None => (c1, Seq::empty()),
            }
        } else {
            (c1, Seq::empty())
        };
        (AnthropicToResponses { out_chars: c2, ..s_u }, f1 + f2)
    } else if ty == "content_block_start"@ {
        let block = match evt.get("content_block"@) {
            Some(b) => b,
            None => empty_obj(),
        };
        if block.get_str("type"@) == Some("tool_use"@) {
            (
                AnthropicToResponses { used_tool_calls: true, ..s_u },
                seq![item_added_v(block.str_or("name"@, ""@))],
            )
        } else {
            (s_u, Seq::empty())
        }
    } else {
        (s_u, Seq::empty())
    }
}

impl AnthropicToResponses {
    /// A fresh stream.
    pub fn new() -> (r: Self)
        ensures
            !r.used_tool_calls && r.out_chars == 0 && r.usage == (TokenCounts {
                input: 0,
                output: 0,
                cached: 0,
            }),
    {
        AnthropicToResponses {
            used_tool_calls: false,
            out_chars: 0,
            usage: TokenCounts { input: 0, output: 0, cached: 0 },
        }
    }

    /// One upstream Anthropic event, into Responses frames.
    pub fn on_event(&mut self, evt: &Json) -> (r: Vec<Frame>)
        ensures
            *final(self) == a2r_step(*old(self), evt@).0,
            frames_v(r@) == data_frames(a2r_step(*old(self), evt@).1),
    {
        let ghost s0 = *self;
        anthropic_usage_step_exec(&mut self.usage, evt);
        let ty = evt.str_or("type", "");
        let mut events: Vec<Json> = Vec::new();
        if str_eq(ty, "content_block_delta") {
            match path2_str_exec(evt, "delta", "text") {
                Some(d) => {
                    self.out_chars = add_chars_exec(self.out_chars, d);
                    events.push(text_event(d));
                },
                None => {},
            }
            let ghost e1 = events@.map_values(|j: Json| j@);
            let is_json = match path2_str_exec(evt, "delta", "type") {
                Some(t) => str_eq(t, "input_json_delta"),
                None => false,
            };
            if is_json {
                match path2_str_exec(evt, "delta", "partial_json") {
                    Some(a) => {
                        self.out_chars = add_chars_exec(self.out_chars, a);
                        events.push(args_event(a));
                        assert(events@.map_values(|j: Json| j@) =~= e1.push(args_event_v(a@)));
                    },
                    None => {},
                }
            }
        } else if str_eq(ty, "content_block_start") {
            let empty = Json::object();
            let block = match evt.get("content_block") {
                Some(b) => b,
                None => &empty,
            };
            let is_tool = match block.get_str("type") {
                Some(t) => str_eq(t, "tool_use"),
                None => false,
            };
            if is_tool {
                self.used_tool_calls = true;
                events.push(item_added(block.str_or("name", "")));
            }
        }
        assert(events@.map_values(|j: Json| j@) =~= a2r_step(s0, evt@).1);
        to_data_frames(&events)
    }

    /// The end of the stream: characters counted, whether tools were called,
    /// and the usage (output estimated where upstream gave none).
    pub fn finish(&self) -> (r: (u64, bool, TokenCounts))
        ensures
            r == (self.out_chars, self.used_tool_calls, with_estimate(self.usage, self.out_chars)),
    {
        (self.out_chars, self.used_tool_calls, with_estimate_exec(&self.usage, self.out_chars))
    }
}

// ──────── upstream Anthropic Messages → client Chat Completions ────────

/// The state of an Anthropic → Chat stream.
pub struct AnthropicToChat {
    pub model: String,
    /// The opening `role` chunk has been sent.
    pub started: bool,
    /// Anthropic block index → Chat tool call index.
    pub tool_index_map: Vec<(i64, u32)>,
    pub next_tool_index: u32,
    pub used_tool_calls: bool,
    pub out_chars: u64,
    pub usage: TokenCounts,
}

/// The view of an Anthropic → Chat state.
pub struct AnthropicToChatV {
    pub model: Seq<char>,
    pub started: bool,
    pub tool_index_map: Seq<(i64, u32)>,
    pub next_tool_index: u32,
    pub used_tool_calls: bool,
    pub out_chars: u64,
    pub usage: TokenCounts,
}

impl View for AnthropicToChat {
    type V = AnthropicToChatV;

    open spec fn view(&self) -> AnthropicToChatV {
        AnthropicToChatV {
            model: self.model@,
            started: self.started,
            tool_index_map: self.tool_index_map@,
            next_tool_index: self.next_tool_index,
            used_tool_calls: self.used_tool_calls,
            out_chars: self.out_chars,
            usage: self.usage,
        }
    }
}

/// `{"role": "assistant"}` once, before anything else.
pub open spec fn send_role(s: AnthropicToChatV) -> (AnthropicToChatV, Seq<JsonV>) {
    if s.started {
        (s, Seq::empty())
    } else {
        (
            AnthropicToChatV { started: true, ..s },
            seq![empty_obj().set("role"@, JsonV::Str("assistant"@))],
        )
    }
}

/// `{"tool_calls": [{"index": i, "function": {"arguments": a}}]}`.
pub open spec fn args_delta_v(i: u32, a: Seq<char>) -> JsonV {
    empty_obj().set(
        "tool_calls"@,
        JsonV::Array(
            seq![
                empty_obj().set("index"@, num(i as u64)).set(
                    "function"@,
                    empty_obj().set("arguments"@, JsonV::Str(a)),
                ),
            ],
        ),
    )
}

/// The next tool index after `i` (wrapping as `u32` does).
pub open spec fn next_u32(i: u32) -> u32 {
    if i == u32::MAX {
        0
    } else {
        (i + 1) as u32
    }
}

/// One step of an Anthropic → Chat stream: the next state and the deltas
/// sent (each in a chunk with the next id).
pub open spec fn a2c_stream_step(s: AnthropicToChatV, evt: JsonV) -> (AnthropicToChatV, Seq<JsonV>) {
    let ty = evt_type(evt);
    let s_u = AnthropicToChatV { usage: anthropic_usage_step(s.usage, evt), ..s };
    if ty == "content_block_delta"@ {
        let (s1, f1) = send_role(s_u);
        let (s2, f2) = match path2_str(evt, "delta"@, "text"@) {
            Some(d) => (AnthropicToChatV { out_chars: add_chars(s1.out_chars, d), ..s1 }, seq![content_delta(d)]),
            None => (s1, Seq::empty()),
        };
        let (s3, f3) = if path2_str(evt, "delta"@, "type"@) == Some("input_json_delta"@) {
            match path2_str(evt, "delta"@, "partial_json"@) {
                Some(a) => {
                    let ti = match evt.get("index"@) {
                        Some(x) => match x.as_i64() {
                            Some(ai) => assoc_get(s2.tool_index_map, ai),
                            None => None,
                        },
                        None => None,
                    };
                    match ti {
                        Some(ti) => (
                            AnthropicToChatV { out_chars: add_chars(s2.out_chars, a), ..s2 },
                            seq![args_delta_v(ti, a)],
                        ),
                        None => (s2, Seq::empty()),
                    }
                },
                None => (s2, Seq::empty()),
            }
        } else {
            (s2, Seq::empty())
        };
        (s3, f1 + f2 + f3)
    } else if ty == "content_block_start"@ {
        let block = match evt.get("content_block"@) {
            Some(b) => b,
            None => empty_obj(),
        };
        if block.get_str("type"@) == Some("tool_use"@) {
            let (s1, f1) = send_role(s_u);
            let ai = i64_or(evt.get("index"@), -1i64);
            let ti = s1.next_tool_index;
            (
                AnthropicToChatV {
                    used_tool_calls: true,
                    next_tool_index: next_u32(ti),
                    tool_index_map: assoc_put(s1.tool_index_map, ai, ti),
                    ..s1
                },
                f1 + seq![
                    tool_call_delta(
                        num(ti as u64),
                        block.str_or("id"@, ""@),
                        block.str_or("name"@, ""@),
                        ""@,
                    ),
                ],
            )
        } else {
            (s_u, Seq::empty())
        }
    } else {
        (s_u, Seq::empty())
    }
}

/// Chunks of the given deltas, numbered with consecutive ids from `id`.
pub open spec fn chunks_of(model: Seq<char>, deltas: Seq<JsonV>, id: u64) -> Seq<FrameV> {
    Seq::new(
        deltas.len(),
        |i: int| (None::<Seq<char>>, chunk_v(model, deltas[i], None, id_after(id, i as nat))),
    )
}

/// Sends each delta as a chunk with the next id.
fn send_chunks(model: &str, deltas: Vec<Json>, ids: &mut RequestIds) -> (r: Vec<Frame>)
    ensures
        frames_v(r@) == chunks_of(model@, deltas@.map_values(|j: Json| j@), old(ids).next),
        final(ids).next == id_after(old(ids).next, deltas@.len()),
{
    let ghost dv = deltas@.map_values(|j: Json| j@);
    let ghost id0 = ids.next;
    let mut frames: Vec<Frame> = Vec::new();
    let mut k: usize = 0;
    assert(id_after(id0, 0) == id0) by (nonlinear_arith)
        requires
            id0 < 0x1_0000_0000_0000_0000,
    {
    }
    while k < deltas.len()
        invariant
            k <= deltas@.len(),
            dv == deltas@.map_values(|j: Json| j@),
            ids.next == id_after(id0, k as nat),
            frames_v(frames@) == chunks_of(model@, dv, id0).take(k as int),
        decreases deltas@.len() - k,
    {
        let ghost before = frames_v(frames@);
        let ghost idk = ids.next;
        let dk = deltas[k].copy();
        assert(dk@ == dv[k as int]);
        let c = make_chunk(model, dk, None, ids);
        let ghost cv = c@;
        assert(cv == chunk_v(model@, dv[k as int], None, id_after(id0, k as nat)));
        frames.push(data_frame(c));
        assert(frames_v(frames@) =~= before.push((None::<Seq<char>>, cv)));
        assert(ids.next == id_after(id0, (k + 1) as nat)) by {
            assert(id_after(id0, k as nat) == ((id0 + k) % 0x1_0000_0000_0000_0000) as u64);
        }
        assert(frames_v(frames@) =~= chunks_of(model@, dv, id0).take(k as int + 1));
        k = k + 1;
    }
    assert(chunks_of(model@, dv, id0).take(deltas@.len() as int) =~= chunks_of(model@, dv, id0));
    frames
}

impl AnthropicToChat {
    /// A fresh stream for `model`.
    pub fn new(model: &str) -> (r: Self)
        ensures
            r@ == (AnthropicToChatV {
                model: model@,
                started: false,
                tool_index_map: Seq::empty(),
                next_tool_index: 0,
                used_tool_calls: false,
                out_chars: 0,
                usage: TokenCounts { input: 0, output: 0, cached: 0 },
            }),
    {
        AnthropicToChat {
            model: to_owned(model),
            started: false,
            tool_index_map: Vec::new(),
            next_tool_index: 0,
            used_tool_calls: false,
            out_chars: 0,
            usage: TokenCounts { input: 0, output: 0, cached: 0 },
        }
    }

    /// One upstream Anthropic event, into Chat chunks.
    pub fn on_event(&mut self, evt: &Json, ids: &mut RequestIds) -> (r: Vec<Frame>)
        ensures
            final(self)@ == a2c_stream_step(old(self)@, evt@).0,
            frames_v(r@) == chunks_of(old(self)@.model, a2c_stream_step(old(self)@, evt@).1, old(ids).next),
            final(ids).next == id_after(old(ids).next, a2c_stream_step(old(self)@, evt@).1.len()),
    {
        let ghost s0 = self@;
        anthropic_usage_step_exec(&mut self.usage, evt);
        let ty = evt.str_or("type", "");
        let mut deltas: Vec<Json> = Vec::new();
        if str_eq(ty, "content_block_delta") {
            if !self.started {
                self.started = true;
                let mut r = Json::object();
                r.set("role", Json::string("assistant"));
                deltas.push(r);
            }
            let ghost d1 = deltas@.map_values(|j: Json| j@);
            match path2_str_exec(evt, "delta", "text") {
                Some(d) => {
                    self.out_chars = add_chars_exec(self.out_chars, d);
                    let mut c = Json::object();
                    c.set("content", Json::string(d));
                    deltas.push(c);
                    assert(deltas@.map_values(|j: Json| j@) =~= d1.push(content_delta(d@)));
                },
                None => {},
            }
            let ghost d2 = deltas@.map_values(|j: Json| j@);
            let is_json = match path2_str_exec(evt, "delta", "type") {
                Some(t) => str_eq(t, "input_json_delta"),
                None => false,
            };
            if is_json {
                match path2_str_exec(evt, "delta", "partial_json") {
                    Some(a) => {
                        let ai = match evt.get("index") {
                            Some(x) => x.as_i64(),
                            None => None,
                        };
                        let ti = match ai {
                            Some(ai) => index_get(&self.tool_index_map, ai),
                            None => None,
                        };
                        match ti {
                            Some(ti) => {
                                self.out_chars = add_chars_exec(self.out_chars, a);
                                let mut f = Json::object();
                                f.set("arguments", Json::string(a));
                                let mut c = Json::object();
                                c.set("index", Json::number(ti as u64));
                                c.set("function", f);
                                let ghost cv = c@;
                                let mut calls: Vec<Json> = Vec::new();
                                calls.push(c);
                                assert(calls@.map_values(|j: Json| j@) =~= seq![cv]);
                                let mut o = Json::object();
                                o.set("tool_calls", Json::array(calls));
                                deltas.push(o);
                                assert(deltas@.map_values(|j: Json| j@) =~= d2.push(
                                    args_delta_v(ti, a@),
                                ));
                            },
                            None => {},
                        }
                    },
                    None => {},
                }
            }
        } else if str_eq(ty, "content_block_start") {
            let empty = Json::object();
            let block = match evt.get("content_block") {
                Some(b) => b,
                None => &empty,
            };
            let is_tool = match block.get_str("type") {
                Some(t) => str_eq(t, "tool_use"),
                None => false,
            };
            if is_tool {
                if !self.started {
                    self.started = true;
                    let mut r = Json::object();
                    r.set("role", Json::string("assistant"));
                    deltas.push(r);
                }
                let ghost d1 = deltas@.map_values(|j: Json| j@);
                self.used_tool_calls = true;
                let ai = i64_or_exec(evt.get("index"), -1);
                let ti = self.next_tool_index;
                self.next_tool_index = self.next_tool_index.wrapping_add(1);
                index_put(&mut self.tool_index_map, ai, ti);
                let d = tool_call_delta_exec(
                    Json::number(ti as u64),
                    block.str_or("id", ""),
                    block.str_or("name", ""),
                    "",
                );
                let ghost dv = d@;
                deltas.push(d);
                assert(deltas@.map_values(|j: Json| j@) =~= d1.push(dv));
            }
        }
        assert(deltas@.map_values(|j: Json| j@) =~= a2c_stream_step(s0, evt@).1);
        send_chunks(self.model.as_str(), deltas, ids)
    }

    /// The end of the stream: characters counted, whether tools were called,
    /// and the usage (output estimated where upstream gave none).
    pub fn finish(&self) -> (r: (u64, bool, TokenCounts))
        ensures
            r == (self.out_chars, self.used_tool_calls, with_estimate(self.usage, self.out_chars)),
    {
        (self.out_chars, self.used_tool_calls, with_estimate_exec(&self.usage, self.out_chars))
    }
}

// ──────── passed-through streams: counting only ────────

/// Characters and usage counted from a stream passed through unchanged.
pub struct StreamCount {
    pub out_chars: u64,
    pub usage: TokenCounts,
}

/// Counting after one passed-through Chat chunk: delta text is
/// counted; a `usage` member replaces the usage.
pub open spec fn chat_count_step(c: StreamCount, evt: JsonV) -> StreamCount {
    let chars = match delta_content(evt) {
        Some(d) => add_chars(c.out_chars, d),
        None => c.out_chars,
    };
    StreamCount {
        out_chars: chars,
        usage: match evt.get("usage"@) {
            Some(u) => counts_of(crate::respond::chat_usage_v(Some(u))),
            None => c.usage,
        },
    }
}

/// Counting after one passed-through Anthropic event: text
/// deltas are counted; usage as Anthropic events give it.
pub open spec fn anthropic_count_step(c: StreamCount, evt: JsonV) -> StreamCount {
    let chars = if evt_type(evt) == "content_block_delta"@ {
        match path2_str(evt, "delta"@, "text"@) {
            Some(d) => add_chars(c.out_chars, d),
            None => c.out_chars,
        }
    } else {
        c.out_chars
    };
    StreamCount { out_chars: chars, usage: anthropic_usage_step(c.usage, evt) }
}

/// Counting after one Responses event (the pass-through of the Responses
/// API): output text deltas are counted; `response.completed` gives usage.
pub open spec fn responses_count_step(c: StreamCount, evt: JsonV) -> StreamCount {
    let ty = evt_type(evt);
    if ty == "response.output_text.delta"@ {
        StreamCount {
            out_chars: match evt.get_str("delta"@) {
                Some(d) => add_chars(c.out_chars, d),
                None => c.out_chars,
            },
            ..c
        }
    } else if ty == "response.completed"@ {
        match path2(evt, "response"@, "usage"@) {
            Some(u) => StreamCount { usage: counts_of(responses_usage_v(Some(u))), ..c },
            None => c,
        }
    } else {
        c
    }
}

impl StreamCount {
    /// Nothing counted yet.
    pub fn new() -> (r: Self)
        ensures
            r.out_chars == 0 && r.usage == (TokenCounts { input: 0, output: 0, cached: 0 }),
    {
        StreamCount { out_chars: 0, usage: TokenCounts { input: 0, output: 0, cached: 0 } }
    }

    /// Counts one Chat chunk.
    pub fn on_chat_event(&mut self, evt: &Json)
        ensures
            *final(self) == chat_count_step(*old(self), evt@),
    {
        match chat_delta_exec(evt) {
            Some(d) => match d.get_str("content") {
                Some(c) => {
                    self.out_chars = add_chars_exec(self.out_chars, c);
                },
                None => {},
            },
            None => {},
        }
        match evt.get("usage") {
            Some(u) => {
                self.usage = crate::respond::chat_usage(Some(u));
            },
            None => {},
        }
    }

    /// Counts one Anthropic event.
    pub fn on_anthropic_event(&mut self, evt: &Json)
        ensures
            *final(self) == anthropic_count_step(*old(self), evt@),
    {
        let ty = evt.str_or("type", "");
        if str_eq(ty, "content_block_delta") {
            match path2_str_exec(evt, "delta", "text") {
                Some(d) => {
                    self.out_chars = add_chars_exec(self.out_chars, d);
                },
                None => {},
            }
        }
        anthropic_usage_step_exec(&mut self.usage, evt);
    }

    /// Counts one Responses event.
    pub fn on_responses_event(&mut self, evt: &Json)
        ensures
            *final(self) == responses_count_step(*old(self), evt@),
    {
        let ty = evt.str_or("type", "");
        if str_eq(ty, "response.output_text.delta") {
            match evt.get_str("delta") {
                Some(d) => {
                    self.out_chars = add_chars_exec(self.out_chars, d);
                },
                None => {},
            }
        } else if str_eq(ty, "response.completed") {
            match evt.get("response") {
                Some(r) => match r.get("usage") {
                    Some(u) => {
                        self.usage = responses_usage(Some(u));
                    },
                    None => {},
                },
                None => {},
            }
        }
    }

    /// The characters counted and the usage, output estimated where upstream
    /// gave none.
    pub fn finish(&self) -> (r: (u64, TokenCounts))
        ensures
            r == (self.out_chars, with_estimate(self.usage, self.out_chars)),
    {
        (self.out_chars, with_estimate_exec(&self.usage, self.out_chars))
    }
}

/// Usage as reported at the end of a request: upstream's where it gave any
/// input or output, else output estimated from the characters counted.
pub open spec fn final_counts(u: TokenCounts, chars: u64) -> TokenCounts {
    if u.input > 0 || u.output > 0 {
        u
    } else {
        TokenCounts { input: 0, output: ceil3(chars), cached: 0 }
    }
}

/// Usage as reported at the end of a request.
pub fn final_token_counts(u: &TokenCounts, chars: u64) -> (r: TokenCounts)
    ensures
        r == final_counts(*u, chars),
{
    if u.input > 0 || u.output > 0 {
        TokenCounts { input: u.input, output: u.output, cached: u.cached }
    } else {
        TokenCounts { input: 0, output: div_ceil3(chars), cached: 0 }
    }
}

/// Tokens a request counts for in the per-minute limits: input plus output,
/// wrapping as the `u64` sum does.
pub open spec fn request_tokens(u: TokenCounts) -> u64 {
    ((u.input + u.output) % 0x1_0000_0000_0000_0000) as u64
}

/// Tokens a request counts for in the per-minute limits.
pub fn request_token_total(u: &TokenCounts) -> (r: u64)
    ensures
        r == request_tokens(*u),
{
    u.input.wrapping_add(u.output)
}

// ──────── aggregating a converted stream into one completion ────────

/// One tool call being put together: id, function name, arguments.
pub type SlotV = (Seq<char>, Seq<char>, Seq<char>);

/// Slots keyed by tool call index, in index order.
pub open spec fn slots_put(s: Seq<(i64, SlotV)>, k: i64, v: SlotV) -> Seq<(i64, SlotV)>
    decreases s.len(),
{
    if s.len() == 0 {
        seq![(k, v)]
    } else if s[0].0 == k {
        s.update(0, (k, v))
    } else if k < s[0].0 {
        seq![(k, v)] + s
    } else {
        seq![s[0]] + slots_put(s.drop_first(), k, v)
    }
}

/// The slot of index `k`, or an empty one.
pub open spec fn slot_or_empty(s: Seq<(i64, SlotV)>, k: i64) -> SlotV {
    match assoc_get(s, k) {
        Some(v) => v,
        None => (Seq::empty(), Seq::empty(), Seq::empty()),
    }
}

/// A slot after one tool call delta: an id replaces the id, name and
/// arguments pieces are appended.
pub open spec fn slot_apply(v: SlotV, tc: JsonV) -> SlotV {
    (
        match tc.get_str("id"@) {
            Some(id) => id,
            None => v.0,
        },
        match path2_str(tc, "function"@, "name"@) {
            Some(n) => v.1 + n,
            None => v.1,
        },
        match path2_str(tc, "function"@, "arguments"@) {
            Some(a) => v.2 + a,
            None => v.2,
        },
    )
}

/// Slots after the tool call deltas of one chunk.
pub open spec fn slots_apply(s: Seq<(i64, SlotV)>, tcs: Seq<JsonV>) -> Seq<(i64, SlotV)>
    decreases tcs.len(),
{
    if tcs.len() == 0 {
        s
    } else {
        let s0 = slots_apply(s, tcs.drop_last());
        let tc = tcs.last();
        let k = i64_or(tc.get("index"@), 0);
        slots_put(s0, k, slot_apply(slot_or_empty(s0, k), tc))
    }
}

/// The state of an aggregation: text pieces and tool call slots.
pub struct Aggregate {
    pub parts: Vec<String>,
    pub slots: Vec<(i64, String, String, String)>,
}

/// The view of an aggregation.
pub struct AggregateV {
    pub parts: Seq<Seq<char>>,
    pub slots: Seq<(i64, SlotV)>,
}

/// The slot table by views.
pub open spec fn slots_view(s: Seq<(i64, String, String, String)>) -> Seq<(i64, SlotV)> {
    s.map_values(|e: (i64, String, String, String)| (e.0, (e.1@, e.2@, e.3@)))
}

impl View for Aggregate {
    type V = AggregateV;

    open spec fn view(&self) -> AggregateV {
        AggregateV {
            parts: self.parts@.map_values(|p: String| p@),
            slots: slots_view(self.slots@),
        }
    }
}

/// The aggregation after one chunk: its delta's text is kept, its tool call
/// deltas applied.
pub open spec fn aggregate_step(a: AggregateV, chunk: JsonV) -> AggregateV {
    let delta = match chat_delta(chunk) {
        Some(d) => d,
        None => empty_obj(),
    };
    let parts = match delta.get_str("content"@) {
        Some(c) => a.parts.push(c),
        None => a.parts,
    };
    let slots = match delta.get("tool_calls"@) {
        Some(JsonV::Array(tcs)) => slots_apply(a.slots, tcs),
        _ => a.slots,
    };
    AggregateV { parts, slots }
}

/// A tool call of a completion, from its slot.
pub open spec fn slot_call(v: SlotV) -> JsonV {
    crate::convert::chat_tool_call_v(v.0, v.1, v.2)
}

/// The tool calls of all slots, in index order.
pub open spec fn slot_calls(s: Seq<(i64, SlotV)>) -> Seq<JsonV> {
    Seq::new(s.len(), |i: int| slot_call(s[i].1))
}

/// The completion put together from an aggregation.
pub open spec fn aggregate_completion(a: AggregateV, model: Seq<char>, id: u64) -> JsonV {
    let text = crate::text::join_spec(a.parts, ""@);
    let calls = slot_calls(a.slots);
    empty_obj().set("id"@, JsonV::Str(id_text("chatcmpl-"@, id))).set(
        "object"@,
        JsonV::Str("chat.completion"@),
    ).set("created"@, num(1_700_000_000)).set("model"@, JsonV::Str(model)).set(
        "choices"@,
        crate::respond::single_choice(
            crate::respond::chat_message_v(text, calls),
            if calls.len() > 0 {
                "tool_calls"@
            } else {
                "stop"@
            },
        ),
    )
}

impl Aggregate {
    /// Nothing gathered yet.
    pub fn new() -> (r: Self)
        ensures
            r@.parts == Seq::<Seq<char>>::empty(),
            r@.slots == Seq::<(i64, SlotV)>::empty(),
    {
        let r = Aggregate { parts: Vec::new(), slots: Vec::new() };
        assert(r@.parts =~= Seq::<Seq<char>>::empty());
        assert(r@.slots =~= Seq::<(i64, SlotV)>::empty());
        r
    }

    fn slot_get(&self, k: i64) -> (r: (String, String, String))
        ensures
            (r.0@, r.1@, r.2@) == slot_or_empty(self@.slots, k),
    {
        let mut i: usize = 0;
        while i < self.slots.len()
            invariant
                i <= self.slots@.len(),
                forall|j: int| 0 <= j < i ==> self.slots@[j].0 != k,
            decreases self.slots@.len() - i,
        {
            if self.slots[i].0 == k {
                proof {
                    lemma_assoc_found(self@.slots, k, i as int, self@.slots[i as int].1);
                }
                return (self.slots[i].1.clone(), self.slots[i].2.clone(), self.slots[i].3.clone());
            }
            i = i + 1;
        }
        proof {
            lemma_assoc_absent(self@.slots, k, (Seq::empty(), Seq::empty(), Seq::empty()));
        }
        (crate::text::empty_string(), crate::text::empty_string(), crate::text::empty_string())
    }

    fn slot_put(&mut self, k: i64, v: (String, String, String))
        ensures
            final(self)@.slots == slots_put(old(self)@.slots, k, (v.0@, v.1@, v.2@)),
            final(self)@.parts == old(self)@.parts,
    {
        let ghost sv = self@.slots;
        let ghost vv = (v.0@, v.1@, v.2@);
        let mut i: usize = 0;
        while i < self.slots.len() && self.slots[i].0 < k
            invariant
                i <= self.slots@.len(),
                sv == slots_view(self.slots@),
                forall|j: int| 0 <= j < i ==> self.slots@[j].0 < k,
            decreases self.slots@.len() - i,
        {
            i = i + 1;
        }
        proof {
            lemma_slots_put_split(sv, k, vv, i as int);
        }
        if i < self.slots.len() && self.slots[i].0 == k {
            self.slots.set(i, (k, v.0, v.1, v.2));
            assert(slots_view(self.slots@) =~= sv.update(i as int, (k, vv)));
        } else {
            self.slots.insert(i, (k, v.0, v.1, v.2));
            assert(slots_view(self.slots@) =~= sv.take(i as int) + seq![(k, vv)] + sv.skip(
                i as int,
            ));
        }
    }

    /// Takes in one chunk of the converted stream.
    pub fn on_chunk(&mut self, chunk: &Json)
        ensures
            final(self)@ == aggregate_step(old(self)@, chunk@),
    {
        let ghost a0 = self@;
        let empty = Json::object();
        let delta = match chat_delta_exec(chunk) {
            Some(d) => d,
            None => &empty,
        };
        match delta.get_str("content") {
            Some(c) => {
                self.parts.push(to_owned(c));
                assert(self@.parts =~= a0.parts.push(c@));
            },
            None => {},
        }
        match delta.get("tool_calls") {
            Some(t) => match t {
                Json::Array(tcs) => {
                    proof {
                        Json::lemma_array_elements(*tcs);
                    }
                    let ghost cv = tcs@.map_values(|j: Json| j@);
                    let mut i: usize = 0;
                    assert(cv.take(0) =~= Seq::<JsonV>::empty());
                    let ghost p1 = self@.parts;
                    while i < tcs.len()
                        invariant
                            i <= tcs@.len(),
                            cv == tcs@.map_values(|j: Json| j@),
                            self@.slots == slots_apply(a0.slots, cv.take(i as int)),
                            self@.parts == p1,
                        decreases tcs@.len() - i,
                    {
                        assert(cv.take(i as int + 1).drop_last() =~= cv.take(i as int));
                        assert(cv.take(i as int + 1).last() == tcs@[i as int]@);
                        let tc = &tcs[i];
                        let k = i64_or_exec(tc.get("index"), 0);
                        let (mut id, mut name, mut args) = self.slot_get(k);
                        match tc.get_str("id") {
                            Some(x) => {
                                id = to_owned(x);
                            },
                            None => {},
                        }
                        match path2_str_exec(tc, "function", "name") {
                            Some(n) => crate::text::push_str(&mut name, n),
                            None => {},
                        }
                        match path2_str_exec(tc, "function", "arguments") {
                            Some(a) => crate::text::push_str(&mut args, a),
                            None => {},
                        }
                        self.slot_put(k, (id, name, args));
                        i = i + 1;
                    }
                    assert(cv.take(tcs@.len() as int) =~= cv);
                },
                _ => {},
            },
            None => {},
        }
    }

    /// The completion put together, the characters of its text, and the
    /// usage (output estimated from those characters where `usage` has
    /// none).
    pub fn finish(&self, model: &str, usage: &TokenCounts, ids: &mut RequestIds) -> (r: (
        Json,
        u64,
        TokenCounts,
    ))
        ensures
            r.0@ == aggregate_completion(self@, model@, old(ids).next),
            r.1 == crate::text::join_spec(self@.parts, ""@).len() % 0x1_0000_0000_0000_0000,
            r.2 == with_estimate(*usage, r.1),
            final(ids).next == next_id(old(ids).next),
    {
        let text = crate::text::join(&self.parts, "");
        let chars: u64 = text.unicode_len() as u64;
        let mut calls: Vec<Json> = Vec::new();
        let mut i: usize = 0;
        while i < self.slots.len()
            invariant
                i <= self.slots@.len(),
                calls@.len() == i,
                forall|j: int|
                    0 <= j < i ==> (#[trigger] calls@[j])@ == slot_call(slots_view(self.slots@)[j].1),
            decreases self.slots@.len() - i,
        {
            let mut f = Json::object();
            f.set("name", Json::string(self.slots[i].2.as_str()));
            f.set("arguments", Json::string(self.slots[i].3.as_str()));
            let mut tc = Json::object();
            tc.set("id", Json::string(self.slots[i].1.as_str()));
            tc.set("type", Json::string("function"));
            tc.set("function", f);
            calls.push(tc);
            i = i + 1;
        }
        assert(calls@.map_values(|j: Json| j@) =~= slot_calls(self@.slots));
        let has_tools = calls.len() > 0;
        let message = crate::respond::chat_message_exec(text, calls);
        let id = ids.next_request_id();
        let mut name = to_owned("chatcmpl-");
        crate::text::push_str(&mut name, crate::text::u64_to_text(id).as_str());
        let mut o = Json::object();
        o.set("id", Json::from_string(name));
        o.set("object", Json::string("chat.completion"));
        o.set("created", Json::number(1_700_000_000));
        o.set("model", Json::string(model));
        o.set(
            "choices",
            crate::respond::single_choice_exec(
                message,
                if has_tools {
                    "tool_calls"
                } else {
                    "stop"
                },
            ),
        );
        (o, chars, with_estimate_exec(usage, chars))
    }
}

/// Where `slots_put` puts the slot: after the slots of smaller index.
proof fn lemma_slots_put_split(s: Seq<(i64, SlotV)>, k: i64, v: SlotV, i: int)
    requires
        0 <= i <= s.len(),
        forall|j: int| 0 <= j < i ==> (#[trigger] s[j]).0 < k,
        i < s.len() ==> !(s[i].0 < k),
    ensures
        slots_put(s, k, v) == (if i < s.len() && s[i].0 == k {
            s.update(i, (k, v))
        } else {
            s.take(i) + seq![(k, v)] + s.skip(i)
        }),
    decreases i,
{
    if i == 0 {
        if s.len() == 0 {
            assert(s.take(0) + seq![(k, v)] + s.skip(0) =~= seq![(k, v)]);
        } else if s[0].0 != k {
            assert(s.take(0) + seq![(k, v)] + s.skip(0) =~= seq![(k, v)] + s);
        }
    } else {
        let t = s.drop_first();
        assert(s[0].0 < k);
        assert forall|j: int| 0 <= j < i - 1 implies (#[trigger] t[j]).0 < k by {
            assert(t[j] == s[j + 1]);
        }
        lemma_slots_put_split(t, k, v, i - 1);
        if i < s.len() && s[i].0 == k {
            assert(seq![s[0]] + t.update(i - 1, (k, v)) =~= s.update(i, (k, v)));
        } else {
            assert(seq![s[0]] + (t.take(i - 1) + seq![(k, v)] + t.skip(i - 1)) =~= s.take(i)
                + seq![(k, v)] + s.skip(i));
        }
    }
}

// ──────── a Responses stream read whole, as one Chat completion ────────

/// A fresh Responses → Chat state for `model`.
pub open spec fn r2c_init(model: Seq<char>) -> ResponsesToChatV {
    ResponsesToChatV {
        model,
        tools: Seq::empty(),
        used_tool_calls: false,
        out_chars: 0,
        usage: TokenCounts { input: 0, output: 0, cached: 0 },
    }
}

/// The aggregation after each chunk of a list, in order.
pub open spec fn aggregate_all(a: AggregateV, cs: Seq<JsonV>) -> AggregateV
    decreases cs.len(),
{
    if cs.len() == 0 {
        a
    } else {
        aggregate_step(aggregate_all(a, cs.drop_last()), cs.last())
    }
}

/// Parsed Responses events run through the Chat conversion, each chunk
/// aggregated: the conversion's state, the aggregation, the next id, and
/// whether an event ended the stream (the events after it are not read).
pub open spec fn responses_run(evts: Seq<JsonV>, model: Seq<char>, id: u64) -> (
    ResponsesToChatV,
    AggregateV,
    u64,
    bool,
)
    decreases evts.len(),
{
    if evts.len() == 0 {
        (r2c_init(model), AggregateV { parts: Seq::empty(), slots: Seq::empty() }, id, false)
    } else {
        let p = responses_run(evts.drop_last(), model, id);
        if p.3 {
            p
        } else {
            let (st, chunks, stop) = r2c_step(p.0, evts.last(), p.2);
            (
                st,
                aggregate_all(p.1, chunks),
                if chunks.len() > 0 {
                    next_id(p.2)
                } else {
                    p.2
                },
                stop,
            )
        }
    }
}

/// The usage a converted Responses stream ends with: as upstream reported
/// it, the output estimated from the characters sent where it gave none,
/// unless an error event ended the stream.
pub open spec fn responses_run_usage(st: ResponsesToChatV, stopped: bool) -> TokenCounts {
    if stopped {
        st.usage
    } else {
        with_estimate(st.usage, st.out_chars)
    }
}

/// A Responses event stream, parsed, as one Chat completion: the chunks
/// the conversion sends, then a closing chunk (`tool_calls` where a tool was
/// called, else `stop`), are aggregated; gives the completion, the
/// characters of its text, the usage (output estimated from those
/// characters where still none) and the next id.
pub open spec fn responses_aggregate(evts: Seq<JsonV>, model: Seq<char>, id: u64) -> (
    JsonV,
    u64,
    TokenCounts,
    u64,
) {
    let (st, a, n, stopped) = responses_run(evts, model, id);
    let fin = chunk_v(
        model,
        empty_obj(),
        Some(
            if st.used_tool_calls {
                "tool_calls"@
            } else {
                "stop"@
            },
        ),
        n,
    );
    let a2 = aggregate_step(a, fin);
    let n2 = next_id(n);
    let chars = (crate::text::join_spec(a2.parts, ""@).len() % 0x1_0000_0000_0000_0000) as u64;
    (
        aggregate_completion(a2, model, n2),
        chars,
        with_estimate(responses_run_usage(st, stopped), chars),
        next_id(n2),
    )
}

/// Once an event has ended the stream, the events after it change nothing.
proof fn lemma_run_stopped(evts: Seq<JsonV>, model: Seq<char>, id: u64, i: int)
    requires
        0 <= i <= evts.len(),
        responses_run(evts.take(i), model, id).3,
    ensures
        responses_run(evts, model, id) == responses_run(evts.take(i), model, id),
    decreases evts.len() - i,
{
    if evts.len() == i {
        assert(evts.take(i) =~= evts);
    } else {
        let d = evts.drop_last();
        assert(d.take(i) =~= evts.take(i));
        lemma_run_stopped(d, model, id, i);
    }
}

/// A Responses event stream, already read and parsed (the data events up
/// to the end marker), aggregated into one Chat completion; gives the
/// completion, the characters of its text, and the usage.
pub fn aggregate_chat_completion(events: &Vec<Json>, model: &str, ids: &mut RequestIds) -> (r: (
    Json,
    u64,
    TokenCounts,
))
    ensures
        ({
            let (c, chars, u, n) = responses_aggregate(
                events@.map_values(|e: Json| e@),
                model@,
                old(ids).next,
            );
            &&& r.0@ == c
            &&& r.1 == chars
            &&& r.2 == u
            &&& final(ids).next == n
        }),
{
    let ghost ev = events@.map_values(|e: Json| e@);
    let ghost id0 = ids.next;
    let mut conv = ResponsesToChat::new(model);
    let mut agg = Aggregate::new();
    let mut stopped = false;
    let mut i: usize = 0;
    assert(ev.take(0) =~= Seq::<JsonV>::empty());
    assert(agg@ == AggregateV { parts: Seq::empty(), slots: Seq::empty() });
    while i < events.len() && !stopped
        invariant
            i <= events@.len(),
            ev == events@.map_values(|e: Json| e@),
            ({
                let p = responses_run(ev.take(i as int), model@, id0);
                &&& conv@ == p.0
                &&& agg@ == p.1
                &&& ids.next == p.2
                &&& stopped == p.3
            }),
        decreases events@.len() - i,
    {
        assert(ev.take(i as int + 1).drop_last() =~= ev.take(i as int));
        assert(ev.take(i as int + 1).last() == events@[i as int]@);
        let ghost a0 = agg@;
        let ghost s0 = conv@;
        let ghost n0 = ids.next;
        let (frames, stop) = conv.on_event(&events[i], ids);
        let ghost chunks = r2c_step(s0, events@[i as int]@, n0).1;
        let mut k: usize = 0;
        assert(chunks.take(0) =~= Seq::<JsonV>::empty());
        assert(frames_v(frames@).len() == frames@.len());
        assert(data_frames(chunks).len() == chunks.len());
        while k < frames.len()
            invariant
                k <= frames@.len(),
                chunks.len() == frames@.len(),
                frames_v(frames@) == data_frames(chunks),
                agg@ == aggregate_all(a0, chunks.take(k as int)),
            decreases frames@.len() - k,
        {
            assert(frames_v(frames@)[k as int] == frame_v(frames@[k as int]));
            assert(chunks.take(k as int + 1).drop_last() =~= chunks.take(k as int));
            assert(chunks.take(k as int + 1).last() == frames@[k as int].data@);
            agg.on_chunk(&frames[k].data);
            k = k + 1;
        }
        assert(chunks.take(frames@.len() as int) =~= chunks);
        stopped = stop;
        i = i + 1;
    }
    proof {
        if stopped {
            lemma_run_stopped(ev, model@, id0, i as int);
        } else {
            assert(ev.take(i as int) =~= ev);
        }
    }
    let usage = if stopped {
        conv.finish_stopped().2
    } else {
        conv.finish().2
    };
    let fin = make_chunk(
        model,
        Json::object(),
        Some(
            if conv.used_tool_calls {
                "tool_calls"
            } else {
                "stop"
            },
        ),
        ids,
    );
    agg.on_chunk(&fin);
    agg.finish(model, &usage, ids)
}

// ──────── one streamed reply, by reply path ────────

/// A fresh client-Anthropic state for `model`.
pub open spec fn a_out_init(model: Seq<char>) -> AnthropicOutV {
    AnthropicOutV {
        model,
        started: false,
        text_index: None,
        next_index: 0,
        open_blocks: Seq::empty(),
        tool_blocks: Seq::empty(),
        used_tool_calls: false,
        out_chars: 0,
        usage: TokenCounts { input: 0, output: 0, cached: 0 },
    }
}

/// A fresh Anthropic → Chat state for `model`.
pub open spec fn a2c_init(model: Seq<char>) -> AnthropicToChatV {
    AnthropicToChatV {
        model,
        started: false,
        tool_index_map: Seq::empty(),
        next_tool_index: 0,
        used_tool_calls: false,
        out_chars: 0,
        usage: TokenCounts { input: 0, output: 0, cached: 0 },
    }
}

/// Nothing counted yet.
pub open spec fn count_init() -> StreamCount {
    StreamCount { out_chars: 0, usage: TokenCounts { input: 0, output: 0, cached: 0 } }
}

/// The converter of one streamed reply: a conversion for each reply path,
/// or counting only where the stream is passed on as it is.
pub enum StreamConv {
    ResponsesToChat(ResponsesToChat),
    AnthropicToChat(AnthropicToChat),
    ChatToResponses(ChatToResponses),
    AnthropicToResponses(AnthropicToResponses),
    ResponsesToAnthropic(AnthropicOut),
    ChatToAnthropic(AnthropicOut),
    /// A Chat stream passed on, counted as Chat chunks.
    ChatPass(StreamCount),
    /// A Responses stream passed on, counted as Responses events.
    ResponsesPass(StreamCount),
    /// An Anthropic stream passed on, counted as Anthropic events.
    AnthropicPass(StreamCount),
}

impl StreamConv {
    /// The fresh converter of a reply path (for a passed-on stream, the
    /// counting of the client's format).
    pub fn new(api: crate::route::ClientApi, path: crate::route::ReplyPath, model: &str) -> (r: Self)
        ensures
            match path {
                crate::route::ReplyPath::ResponsesToChat => r matches StreamConv::ResponsesToChat(s)
                    && s@ == r2c_init(model@),
                crate::route::ReplyPath::AnthropicToChat => r matches StreamConv::AnthropicToChat(s)
                    && s@ == a2c_init(model@),
                crate::route::ReplyPath::ChatToResponses => r matches StreamConv::ChatToResponses(s)
                    && !s.text_started && !s.used_tool_calls && s.out_chars == 0 && s.usage
                    == count_init().usage,
                crate::route::ReplyPath::AnthropicToResponses => r matches StreamConv::AnthropicToResponses(
                    s,
                ) && !s.used_tool_calls && s.out_chars == 0 && s.usage == count_init().usage,
                crate::route::ReplyPath::ResponsesToAnthropic => r matches StreamConv::ResponsesToAnthropic(
                    s,
                ) && s@ == a_out_init(model@),
                crate::route::ReplyPath::ChatToAnthropic => r matches StreamConv::ChatToAnthropic(s)
                    && s@ == a_out_init(model@),
                crate::route::ReplyPath::Same => match api {
                    crate::route::ClientApi::ChatCompletions => r == StreamConv::ChatPass(count_init()),
                    crate::route::ClientApi::Responses => r == StreamConv::ResponsesPass(count_init()),
                    crate::route::ClientApi::Anthropic => r == StreamConv::AnthropicPass(count_init()),
                },
            },
    {
        match path {
            crate::route::ReplyPath::ResponsesToChat => StreamConv::ResponsesToChat(ResponsesToChat::new(model)),
            crate::route::ReplyPath::AnthropicToChat => StreamConv::AnthropicToChat(AnthropicToChat::new(model)),
            crate::route::ReplyPath::ChatToResponses => StreamConv::ChatToResponses(ChatToResponses::new()),
            crate::route::ReplyPath::AnthropicToResponses => StreamConv::AnthropicToResponses(
                AnthropicToResponses::new(),
            ),
            crate::route::ReplyPath::ResponsesToAnthropic => StreamConv::ResponsesToAnthropic(
                AnthropicOut::new(model),
            ),
            crate::route::ReplyPath::ChatToAnthropic => StreamConv::ChatToAnthropic(AnthropicOut::new(model)),
            crate::route::ReplyPath::Same => match api {
                crate::route::ClientApi::ChatCompletions => StreamConv::ChatPass(StreamCount::new()),
                crate::route::ClientApi::Responses => StreamConv::ResponsesPass(StreamCount::new()),
                crate::route::ClientApi::Anthropic => StreamConv::AnthropicPass(StreamCount::new()),
            },
        }
    }

    /// Whether the upstream bytes go to the client as they are.
    pub fn passes_bytes(&self) -> (r: bool)
        ensures
            r == (self is ChatPass || self is ResponsesPass || self is AnthropicPass),
    {
        match self {
            StreamConv::ChatPass(_) | StreamConv::ResponsesPass(_) | StreamConv::AnthropicPass(_) => true,
            _ => false,
        }
    }

    /// One upstream event: the frames to send and whether the stream ends
    /// here (an upstream error event); each converter takes the step its
    /// own contract states, a passed-on stream is only counted.
    pub fn on_event(&mut self, evt: &Json, ids: &mut RequestIds) -> (r: (Vec<Frame>, bool))
        ensures
            match *old(self) {
                StreamConv::ResponsesToChat(s) => *final(self) matches StreamConv::ResponsesToChat(t) && {
                    let (st, chunks, stop) = r2c_step(s@, evt@, old(ids).next);
                    &&& t@ == st
                    &&& frames_v(r.0@) == data_frames(chunks)
                    &&& r.1 == stop
                    &&& final(ids).next == (if chunks.len() > 0 {
                        next_id(old(ids).next)
                    } else {
                        old(ids).next
                    })
                },
                StreamConv::AnthropicToChat(s) => *final(self) matches StreamConv::AnthropicToChat(t) && {
                    &&& t@ == a2c_stream_step(s@, evt@).0
                    &&& frames_v(r.0@) == chunks_of(s@.model, a2c_stream_step(s@, evt@).1, old(ids).next)
                    &&& final(ids).next == id_after(old(ids).next, a2c_stream_step(s@, evt@).1.len())
                    &&& !r.1
                },
                StreamConv::ChatToResponses(s) => {
                    &&& *final(self) == StreamConv::ChatToResponses(c2r_step(s, evt@).0)
                    &&& frames_v(r.0@) == data_frames(c2r_step(s, evt@).1)
                    &&& !r.1
                    &&& final(ids).next == old(ids).next
                },
                StreamConv::AnthropicToResponses(s) => {
                    &&& *final(self) == StreamConv::AnthropicToResponses(a2r_step(s, evt@).0)
                    &&& frames_v(r.0@) == data_frames(a2r_step(s, evt@).1)
                    &&& !r.1
                    &&& final(ids).next == old(ids).next
                },
                StreamConv::ResponsesToAnthropic(s) => *final(self) matches StreamConv::ResponsesToAnthropic(t)
                    && {
                    let (st, fs, stop) = r2a_stream_step(s@, evt@, old(ids).next);
                    &&& t@ == st
                    &&& frames_v(r.0@) == fs
                    &&& r.1 == stop
                    &&& final(ids).next == ids_after_start(s@, t@, old(ids).next)
                },
                StreamConv::ChatToAnthropic(s) => *final(self) matches StreamConv::ChatToAnthropic(t) && {
                    let (st, fs) = c2a_stream_step(s@, evt@, old(ids).next);
                    &&& t@ == st
                    &&& frames_v(r.0@) == fs
                    &&& !r.1
                    &&& final(ids).next == ids_after_start(s@, t@, old(ids).next)
                },
                StreamConv::ChatPass(c) => {
                    &&& *final(self) == StreamConv::ChatPass(chat_count_step(c, evt@))
                    &&& r.0@.len() == 0
                    &&& !r.1
                    &&& final(ids).next == old(ids).next
                },
                StreamConv::ResponsesPass(c) => {
                    &&& *final(self) == StreamConv::ResponsesPass(responses_count_step(c, evt@))
                    &&& r.0@.len() == 0
                    &&& !r.1
                    &&& final(ids).next == old(ids).next
                },
                StreamConv::AnthropicPass(c) => {
                    &&& *final(self) == StreamConv::AnthropicPass(anthropic_count_step(c, evt@))
                    &&& r.0@.len() == 0
                    &&& !r.1
                    &&& final(ids).next == old(ids).next
                },
            },
    {
        match self {
            StreamConv::ResponsesToChat(s) => s.on_event(evt, ids),
            StreamConv::AnthropicToChat(s) => (s.on_event(evt, ids), false),
            StreamConv::ChatToResponses(s) => (s.on_event(evt), false),
            StreamConv::AnthropicToResponses(s) => (s.on_event(evt), false),
            StreamConv::ResponsesToAnthropic(s) => s.on_responses_event(evt, ids),
            StreamConv::ChatToAnthropic(s) => (s.on_chat_event(evt, ids), false),
            StreamConv::ChatPass(c) => {
                c.on_chat_event(evt);
                (Vec::new(), false)
            },
            StreamConv::ResponsesPass(c) => {
                c.on_responses_event(evt);
                (Vec::new(), false)
            },
            StreamConv::AnthropicPass(c) => {
                c.on_anthropic_event(evt);
                (Vec::new(), false)
            },
        }
    }

    /// The end of the stream: the closing frames, the characters counted,
    /// whether tools were called, and the usage. `stopped`: an upstream
    /// error event ended the stream, and a Responses conversion then closes
    /// nothing more and reports usage as upstream gave it. A passed-on
    /// Responses stream reports usage as upstream gave it; the other
    /// conversions and counts estimate the output where upstream gave none.
    pub fn finish(&mut self, stopped: bool, ids: &mut RequestIds) -> (r: (Vec<Frame>, u64, bool, TokenCounts))
        ensures
            match *old(self) {
                StreamConv::ResponsesToChat(s) => {
                    &&& r.0@.len() == 0
                    &&& r.1 == s@.out_chars
                    &&& r.2 == s@.used_tool_calls
                    &&& r.3 == (if stopped {
                        s@.usage
                    } else {
                        with_estimate(s@.usage, s@.out_chars)
                    })
                    &&& *final(self) == *old(self)
                    &&& final(ids).next == old(ids).next
                },
                StreamConv::AnthropicToChat(s) => {
                    &&& r.0@.len() == 0
                    &&& (r.1, r.2, r.3) == (s@.out_chars, s@.used_tool_calls, with_estimate(
                        s@.usage,
                        s@.out_chars,
                    ))
                    &&& *final(self) == *old(self)
                    &&& final(ids).next == old(ids).next
                },
                StreamConv::ChatToResponses(s) => {
                    &&& r.0@.len() == 0
                    &&& (r.1, r.2, r.3) == (s.out_chars, s.used_tool_calls, with_estimate(
                        s.usage,
                        s.out_chars,
                    ))
                    &&& *final(self) == *old(self)
                    &&& final(ids).next == old(ids).next
                },
                StreamConv::AnthropicToResponses(s) => {
                    &&& r.0@.len() == 0
                    &&& (r.1, r.2, r.3) == (s.out_chars, s.used_tool_calls, with_estimate(
                        s.usage,
                        s.out_chars,
                    ))
                    &&& *final(self) == *old(self)
                    &&& final(ids).next == old(ids).next
                },
                StreamConv::ResponsesToAnthropic(s) => if stopped {
                    &&& r.0@.len() == 0
                    &&& (r.1, r.2, r.3) == (s@.out_chars, false, s@.usage)
                    &&& *final(self) == *old(self)
                    &&& final(ids).next == old(ids).next
                } else {
                    *final(self) matches StreamConv::ResponsesToAnthropic(t) && {
                        &&& frames_v(r.0@) == finish_frames(s@, old(ids).next)
                        &&& (r.1, r.2, r.3) == (s@.out_chars, false, with_estimate(s@.usage, s@.out_chars))
                        &&& t@ == ensure_started(s@, old(ids).next).0
                        &&& final(ids).next == ids_after_start(s@, t@, old(ids).next)
                    }
                },
                StreamConv::ChatToAnthropic(s) => *final(self) matches StreamConv::ChatToAnthropic(t) && {
                    &&& frames_v(r.0@) == finish_frames(s@, old(ids).next)
                    &&& (r.1, r.2, r.3) == (s@.out_chars, false, with_estimate(s@.usage, s@.out_chars))
                    &&& t@ == ensure_started(s@, old(ids).next).0
                    &&& final(ids).next == ids_after_start(s@, t@, old(ids).next)
                },
                StreamConv::ChatPass(c) => {
                    &&& r.0@.len() == 0
                    &&& (r.1, r.2, r.3) == (c.out_chars, false, with_estimate(c.usage, c.out_chars))
                    &&& *final(self) == *old(self)
                    &&& final(ids).next == old(ids).next
                },
                StreamConv::ResponsesPass(c) => {
                    &&& r.0@.len() == 0
                    &&& (r.1, r.2, r.3) == (c.out_chars, false, c.usage)
                    &&& *final(self) == *old(self)
                    &&& final(ids).next == old(ids).next
                },
                StreamConv::AnthropicPass(c) => {
                    &&& r.0@.len() == 0
                    &&& (r.1, r.2, r.3) == (c.out_chars, false, with_estimate(c.usage, c.out_chars))
                    &&& *final(self) == *old(self)
                    &&& final(ids).next == old(ids).next
                },
            },
    {
        match self {
            StreamConv::ResponsesToChat(s) => {
                let (c, used, u) = if stopped {
                    s.finish_stopped()
                } else {
                    s.finish()
                };
                (Vec::new(), c, used, u)
            },
            StreamConv::AnthropicToChat(s) => {
                let (c, used, u) = s.finish();
                (Vec::new(), c, used, u)
            },
            StreamConv::ChatToResponses(s) => {
                let (c, used, u) = s.finish();
                (Vec::new(), c, used, u)
            },
            StreamConv::AnthropicToResponses(s) => {
                let (c, used, u) = s.finish();
                (Vec::new(), c, used, u)
            },
            StreamConv::ResponsesToAnthropic(s) => if stopped {
                let (c, u) = s.finish_stopped();
                (Vec::new(), c, false, u)
            } else {
                let (frames, c, u) = s.finish(ids);
                (frames, c, false, u)
            },
            StreamConv::ChatToAnthropic(s) => {
                let (frames, c, u) = s.finish(ids);
                (frames, c, false, u)
            },
            StreamConv::ChatPass(c) => {
                let (n, u) = c.finish();
                (Vec::new(), n, false, u)
            },
            StreamConv::ResponsesPass(c) => (
                Vec::new(),
                c.out_chars,
                false,
                TokenCounts { input: c.usage.input, output: c.usage.output, cached: c.usage.cached },
            ),
            StreamConv::AnthropicPass(c) => {
                let (n, u) = c.finish();
                (Vec::new(), n, false, u)
            },
        }
    }

    /// The end of a stream cut off by the read timeout: no closing frames;
    /// a conversion counts nothing, a passed-on Responses stream keeps what
    /// it counted (usage as upstream gave it). Gives the characters, whether
    /// tools were called, and the usage.
    pub fn cut_off(&self) -> (r: (u64, bool, TokenCounts))
        ensures
            match *self {
                StreamConv::ResponsesPass(c) => r == (c.out_chars, false, c.usage),
                _ => r == (0u64, false, count_init().usage),
            },
    {
        match self {
            StreamConv::ResponsesPass(c) => (
                c.out_chars,
                false,
                TokenCounts { input: c.usage.input, output: c.usage.output, cached: c.usage.cached },
            ),
            _ => (0, false, TokenCounts { input: 0, output: 0, cached: 0 }),
        }
    }

    /// The characters of output counted so far.
    pub fn chars(&self) -> (r: u64)
        ensures
            r == match *self {
                StreamConv::ResponsesToChat(s) => s@.out_chars,
                StreamConv::AnthropicToChat(s) => s@.out_chars,
                StreamConv::ChatToResponses(s) => s.out_chars,
                StreamConv::AnthropicToResponses(s) => s.out_chars,
                StreamConv::ResponsesToAnthropic(s) => s@.out_chars,
                StreamConv::ChatToAnthropic(s) => s@.out_chars,
                StreamConv::ChatPass(c) => c.out_chars,
                StreamConv::ResponsesPass(c) => c.out_chars,
                StreamConv::AnthropicPass(c) => c.out_chars,
            },
    {
        match self {
            StreamConv::ResponsesToChat(s) => s.out_chars,
            StreamConv::AnthropicToChat(s) => s.out_chars,
            StreamConv::ChatToResponses(s) => s.out_chars,
            StreamConv::AnthropicToResponses(s) => s.out_chars,
            StreamConv::ResponsesToAnthropic(s) => s.out_chars,
            StreamConv::ChatToAnthropic(s) => s.out_chars,
            StreamConv::ChatPass(c) => c.out_chars,
            StreamConv::ResponsesPass(c) => c.out_chars,
            StreamConv::AnthropicPass(c) => c.out_chars,
        }
    }
}

// ──────── what a Chat → Responses stream carries ────────

/// The text a Responses event gives the client: the `delta` of a
/// `response.output_text.delta` event, nothing for any other event.
pub open spec fn event_text(e: JsonV) -> Seq<char> {
    if e.get("type"@) == Some(JsonV::Str("response.output_text.delta"@)) {
        match e.get("delta"@) {
            Some(JsonV::Str(d)) => d,
            _ => Seq::empty(),
        }
    } else {
        Seq::empty()
    }
}

/// The text of a list of Responses events, in order.
pub open spec fn events_text(es: Seq<JsonV>) -> Seq<char>
    decreases es.len(),
{
    if es.len() == 0 {
        Seq::empty()
    } else {
        events_text(es.drop_last()) + event_text(es.last())
    }
}

/// The text an upstream Chat chunk carries: its first choice's delta
/// content, nothing where there is none.
pub open spec fn chunk_text(evt: JsonV) -> Seq<char> {
    match chat_delta(evt) {
        Some(d) => match d.get("content"@) {
            Some(JsonV::Str(c)) => c,
            _ => Seq::empty(),
        },
        None => Seq::empty(),
    }
}

/// The text of a list of upstream Chat chunks, in order.
pub open spec fn chunks_text(evts: Seq<JsonV>) -> Seq<char>
    decreases evts.len(),
{
    if evts.len() == 0 {
        Seq::empty()
    } else {
        chunks_text(evts.drop_last()) + chunk_text(evts.last())
    }
}

/// A Chat → Responses stream after a list of chunks: the state and all the
/// events sent, in order.
pub open spec fn c2r_run(s: ChatToResponses, evts: Seq<JsonV>) -> (ChatToResponses, Seq<JsonV>)
    decreases evts.len(),
{
    if evts.len() == 0 {
        (s, Seq::empty())
    } else {
        let (s0, e0) = c2r_run(s, evts.drop_last());
        let (s1, e1) = c2r_step(s0, evts.last());
        (s1, e0 + e1)
    }
}

proof fn lemma_events_text_append(a: Seq<JsonV>, b: Seq<JsonV>)
    ensures
        events_text(a + b) == events_text(a) + events_text(b),
    decreases b.len(),
{
    if b.len() == 0 {
        assert(a + b =~= a);
        assert(events_text(b) =~= Seq::<char>::empty());
        assert(events_text(a) + events_text(b) =~= events_text(a));
    } else {
        lemma_events_text_append(a, b.drop_last());
        assert((a + b).drop_last() =~= a + b.drop_last());
        assert((a + b).last() == b.last());
        assert(events_text(a) + events_text(b.drop_last()) + event_text(b.last()) =~= events_text(a)
            + (events_text(b.drop_last()) + event_text(b.last())));
    }
}

proof fn lemma_events_text_small(x: JsonV, y: JsonV)
    ensures
        events_text(seq![x]) == event_text(x),
        events_text(seq![x, y]) == event_text(x) + event_text(y),
{
    let e = Seq::<JsonV>::empty();
    assert(events_text(e) == Seq::<char>::empty());
    assert(seq![x].drop_last() =~= e);
    assert(seq![x].last() == x);
    assert(events_text(seq![x]) == events_text(e) + event_text(x));
    assert(events_text(e) + event_text(x) =~= event_text(x));
    assert(seq![x, y].drop_last() =~= seq![x]);
    assert(seq![x, y].last() == y);
}

/// A two-member object read back: its type member and its other member.
proof fn lemma_two_members(t: JsonV, k: Seq<char>, v: JsonV)
    requires
        k != "type"@,
    ensures
        empty_obj().set("type"@, t).set(k, v).get("type"@) == Some(t),
        empty_obj().set("type"@, t).set(k, v).get(k) == Some(v),
{
    let o = empty_obj().set("type"@, t);
    crate::json::law_set_then_get(empty_obj(), "type"@, t);
    crate::json::law_set_keeps_others(o, k, v, "type"@);
    crate::json::law_set_then_get(o, k, v);
}

/// A text delta event gives exactly its text; the tool call events give
/// none.
proof fn lemma_event_texts(d: Seq<char>, n: Seq<char>)
    ensures
        event_text(text_event_v(d)) == d,
        event_text(item_added_v(n)) == Seq::<char>::empty(),
        event_text(args_event_v(n)) == Seq::<char>::empty(),
{
    reveal_strlit("type");
    reveal_strlit("delta");
    reveal_strlit("item");
    reveal_strlit("response.output_text.delta");
    reveal_strlit("response.output_item.added");
    reveal_strlit("response.function_call_arguments.delta");
    lemma_two_members(JsonV::Str("response.output_text.delta"@), "delta"@, JsonV::Str(d));
    lemma_two_members(
        JsonV::Str("response.output_item.added"@),
        "item"@,
        empty_obj().set("type"@, JsonV::Str("function_call"@)).set("name"@, JsonV::Str(n)),
    );
    lemma_two_members(JsonV::Str("response.function_call_arguments.delta"@), "delta"@, JsonV::Str(n));
    assert("response.output_item.added"@ != "response.output_text.delta"@) by {
        assert("response.output_item.added"@[17] != "response.output_text.delta"@[17]);
    }
    assert("response.function_call_arguments.delta"@ != "response.output_text.delta"@) by {
        assert("response.function_call_arguments.delta"@.len() != "response.output_text.delta"@.len());
    }
}

/// Tool call events carry no text.
proof fn lemma_tool_call_events_text(s: (bool, u64), tcs: Seq<JsonV>)
    ensures
        events_text(c2r_tool_calls(s, tcs).1) == Seq::<char>::empty(),
    decreases tcs.len(),
{
    if tcs.len() > 0 {
        lemma_tool_call_events_text(s, tcs.drop_last());
        let (s0, f0) = c2r_tool_calls(s, tcs.drop_last());
        let tc = tcs.last();
        let f1 = match path2_str(tc, "function"@, "name"@) {
            Some(n) => seq![item_added_v(n)],
            None => Seq::<JsonV>::empty(),
        };
        match path2_str(tc, "function"@, "name"@) {
            Some(n) => {
                lemma_event_texts(""@, n);
                lemma_events_text_small(item_added_v(n), item_added_v(n));
            },
            None => {},
        }
        lemma_events_text_append(f0, f1);
        match path2_str(tc, "function"@, "arguments"@) {
            Some(a) => {
                lemma_event_texts(""@, a);
                let g = seq![args_event_v(a)];
                lemma_events_text_small(args_event_v(a), args_event_v(a));
                lemma_events_text_append(f0 + f1, g);
            },
            None => {},
        }
        assert(events_text(f0) + events_text(f1) =~= Seq::<char>::empty());
    }
}

/// The text a Chat chunk carries reaches the Responses client whole, in one
/// chunk: the events sent for it carry exactly its delta content (an empty
/// opening delta first, when the text starts), and the last text event is
/// `{"type": "response.output_text.delta", "delta": c}`.
pub proof fn law_chunk_text_reaches_client(s: ChatToResponses, evt: JsonV)
    ensures
        events_text(c2r_step(s, evt).1) == chunk_text(evt),
        delta_content(evt) matches Some(c) ==> c2r_step(s, evt).1.contains(
            empty_obj().set("type"@, JsonV::Str("response.output_text.delta"@)).set(
                "delta"@,
                JsonV::Str(c),
            ),
        ),
        delta_content(evt) matches Some(c) ==> delta_tool_calls(evt) is None ==> c2r_step(
            s,
            evt,
        ).1.last() == empty_obj().set("type"@, JsonV::Str("response.output_text.delta"@)).set(
            "delta"@,
            JsonV::Str(c),
        ),
        delta_content(evt) is Some ==> c2r_step(s, evt).0.text_started,
        delta_content(evt) is Some && !s.text_started ==> c2r_step(s, evt).1[0] == empty_obj().set(
            "type"@,
            JsonV::Str("response.output_text.delta"@),
        ).set("delta"@, JsonV::Str(""@)),
{
    let (s1, f1) = match delta_content(evt) {
        Some(c) => (
            ChatToResponses { text_started: true, out_chars: add_chars(s.out_chars, c), ..s },
            if s.text_started {
                seq![text_event_v(c)]
            } else {
                seq![text_event_v(""@), text_event_v(c)]
            },
        ),
        None => (s, Seq::<JsonV>::empty()),
    };
    let f2 = match delta_tool_calls(evt) {
        Some(tcs) => c2r_tool_calls((s1.used_tool_calls, s1.out_chars), tcs).1,
        None => Seq::<JsonV>::empty(),
    };
    match delta_tool_calls(evt) {
        Some(tcs) => lemma_tool_call_events_text((s1.used_tool_calls, s1.out_chars), tcs),
        None => {},
    }
    assert(c2r_step(s, evt).1 == f1 + f2);
    lemma_events_text_append(f1, f2);
    match delta_content(evt) {
        Some(c) => {
            lemma_event_texts(c, ""@);
            lemma_event_texts(""@, ""@);
            lemma_events_text_small(text_event_v(c), text_event_v(c));
            lemma_events_text_small(text_event_v(""@), text_event_v(c));
            assert(""@ + c =~= c) by {
                reveal_strlit("");
            }
            assert(events_text(f1) =~= c);
            assert((f1 + f2)[f1.len() - 1] == text_event_v(c));
            assert((f1 + f2)[0] == f1[0]);
            if delta_tool_calls(evt) is None {
                assert(f1 + f2 =~= f1);
            }
        },
        None => {},
    }
    assert(events_text(f2) =~= Seq::<char>::empty());
    assert(events_text(f1) + events_text(f2) =~= events_text(f1));
}

/// Over a whole stream, the text the Responses client receives is the
/// upstream chunks' delta contents joined in order.
pub proof fn law_stream_text_reaches_client(s: ChatToResponses, evts: Seq<JsonV>)
    ensures
        events_text(c2r_run(s, evts).1) == chunks_text(evts),
    decreases evts.len(),
{
    if evts.len() > 0 {
        law_stream_text_reaches_client(s, evts.drop_last());
        let (s0, e0) = c2r_run(s, evts.drop_last());
        law_chunk_text_reaches_client(s0, evts.last());
        lemma_events_text_append(e0, c2r_step(s0, evts.last()).1);
    }
}


/// The function-call arguments a Responses event carries: the delta of a
/// `response.function_call_arguments.delta` event, nothing for another.
pub open spec fn event_args(e: JsonV) -> Seq<char> {
    if e.get("type"@) == Some(JsonV::Str("response.function_call_arguments.delta"@)) {
        match e.get("delta"@) {
            Some(JsonV::Str(d)) => d,
            _ => Seq::empty(),
        }
    } else {
        Seq::empty()
    }
}

/// The function-call arguments of a list of Responses events, in order.
pub open spec fn events_args(es: Seq<JsonV>) -> Seq<char>
    decreases es.len(),
{
    if es.len() == 0 {
        Seq::empty()
    } else {
        events_args(es.drop_last()) + event_args(es.last())
    }
}

/// The arguments text of upstream Chat tool calls: each call's
/// `function.arguments` string, in order.
pub open spec fn calls_args(tcs: Seq<JsonV>) -> Seq<char>
    decreases tcs.len(),
{
    if tcs.len() == 0 {
        Seq::empty()
    } else {
        calls_args(tcs.drop_last()) + match path2_str(tcs.last(), "function"@, "arguments"@) {
            Some(a) => a,
            None => Seq::empty(),
        }
    }
}

/// The arguments text an upstream Chat chunk carries in its delta's tool
/// calls.
pub open spec fn chunk_args(evt: JsonV) -> Seq<char> {
    match delta_tool_calls(evt) {
        Some(tcs) => calls_args(tcs),
        None => Seq::empty(),
    }
}

/// The arguments text of a list of upstream Chat chunks, in order.
pub open spec fn chunks_args(evts: Seq<JsonV>) -> Seq<char>
    decreases evts.len(),
{
    if evts.len() == 0 {
        Seq::empty()
    } else {
        chunks_args(evts.drop_last()) + chunk_args(evts.last())
    }
}

proof fn lemma_events_args_append(a: Seq<JsonV>, b: Seq<JsonV>)
    ensures
        events_args(a + b) == events_args(a) + events_args(b),
    decreases b.len(),
{
    if b.len() == 0 {
        assert(a + b =~= a);
        assert(events_args(b) =~= Seq::<char>::empty());
        assert(events_args(a) + events_args(b) =~= events_args(a));
    } else {
        lemma_events_args_append(a, b.drop_last());
        assert((a + b).drop_last() =~= a + b.drop_last());
        assert((a + b).last() == b.last());
        assert(events_args(a) + events_args(b.drop_last()) + event_args(b.last()) =~= events_args(a)
            + (events_args(b.drop_last()) + event_args(b.last())));
    }
}

proof fn lemma_events_args_small(x: JsonV, y: JsonV)
    ensures
        events_args(seq![x]) == event_args(x),
        events_args(seq![x, y]) == event_args(x) + event_args(y),
{
    let e = Seq::<JsonV>::empty();
    assert(events_args(e) == Seq::<char>::empty());
    assert(seq![x].drop_last() =~= e);
    assert(seq![x].last() == x);
    assert(events_args(seq![x]) == events_args(e) + event_args(x));
    assert(events_args(e) + event_args(x) =~= event_args(x));
    assert(seq![x, y].drop_last() =~= seq![x]);
    assert(seq![x, y].last() == y);
}

/// An arguments delta event gives exactly its arguments; text and item
/// events give none.
proof fn lemma_event_args(d: Seq<char>, n: Seq<char>)
    ensures
        event_args(args_event_v(d)) == d,
        event_args(item_added_v(n)) == Seq::<char>::empty(),
        event_args(text_event_v(n)) == Seq::<char>::empty(),
{
    reveal_strlit("type");
    reveal_strlit("delta");
    reveal_strlit("item");
    reveal_strlit("response.output_text.delta");
    reveal_strlit("response.output_item.added");
    reveal_strlit("response.function_call_arguments.delta");
    lemma_two_members(JsonV::Str("response.function_call_arguments.delta"@), "delta"@, JsonV::Str(d));
    lemma_two_members(
        JsonV::Str("response.output_item.added"@),
        "item"@,
        empty_obj().set("type"@, JsonV::Str("function_call"@)).set("name"@, JsonV::Str(n)),
    );
    lemma_two_members(JsonV::Str("response.output_text.delta"@), "delta"@, JsonV::Str(n));
    assert("response.output_item.added"@ != "response.function_call_arguments.delta"@) by {
        assert("response.output_item.added"@.len() != "response.function_call_arguments.delta"@.len());
    }
    assert("response.function_call_arguments.delta"@ != "response.output_text.delta"@) by {
        assert("response.function_call_arguments.delta"@.len() != "response.output_text.delta"@.len());
    }
}

/// The events of a chunk's tool calls carry their arguments, in order.
proof fn lemma_tool_call_events_args(s: (bool, u64), tcs: Seq<JsonV>)
    ensures
        events_args(c2r_tool_calls(s, tcs).1) == calls_args(tcs),
    decreases tcs.len(),
{
    if tcs.len() > 0 {
        lemma_tool_call_events_args(s, tcs.drop_last());
        let (s0, f0) = c2r_tool_calls(s, tcs.drop_last());
        let tc = tcs.last();
        let f1 = match path2_str(tc, "function"@, "name"@) {
            Some(n) => seq![item_added_v(n)],
            None => Seq::<JsonV>::empty(),
        };
        match path2_str(tc, "function"@, "name"@) {
            Some(n) => {
                lemma_event_args(""@, n);
                lemma_events_args_small(item_added_v(n), item_added_v(n));
            },
            None => {},
        }
        lemma_events_args_append(f0, f1);
        assert(events_args(f0) + events_args(f1) =~= events_args(f0));
        match path2_str(tc, "function"@, "arguments"@) {
            Some(a) => {
                lemma_event_args(a, ""@);
                let g = seq![args_event_v(a)];
                lemma_events_args_small(args_event_v(a), args_event_v(a));
                lemma_events_args_append(f0 + f1, g);
            },
            None => {
                assert(calls_args(tcs) =~= calls_args(tcs.drop_last()));
            },
        }
    }
}

/// The function-call arguments of a Chat chunk reach the Responses client
/// whole: the events sent for the chunk carry exactly the arguments of its
/// tool calls, in order (text deltas carry none).
pub proof fn law_chunk_args_reach_client(s: ChatToResponses, evt: JsonV)
    ensures
        events_args(c2r_step(s, evt).1) == chunk_args(evt),
{
    let (s1, f1) = match delta_content(evt) {
        Some(c) => (
            ChatToResponses { text_started: true, out_chars: add_chars(s.out_chars, c), ..s },
            if s.text_started {
                seq![text_event_v(c)]
            } else {
                seq![text_event_v(""@), text_event_v(c)]
            },
        ),
        None => (s, Seq::<JsonV>::empty()),
    };
    let f2 = match delta_tool_calls(evt) {
        Some(tcs) => c2r_tool_calls((s1.used_tool_calls, s1.out_chars), tcs).1,
        None => Seq::<JsonV>::empty(),
    };
    match delta_tool_calls(evt) {
        Some(tcs) => lemma_tool_call_events_args((s1.used_tool_calls, s1.out_chars), tcs),
        None => {},
    }
    assert(c2r_step(s, evt).1 == f1 + f2);
    lemma_events_args_append(f1, f2);
    match delta_content(evt) {
        Some(c) => {
            lemma_event_args(""@, c);
            lemma_event_args(""@, ""@);
            lemma_events_args_small(text_event_v(c), text_event_v(c));
            lemma_events_args_small(text_event_v(""@), text_event_v(c));
            assert(events_args(f1) =~= Seq::<char>::empty());
        },
        None => {},
    }
    assert(events_args(f2) == chunk_args(evt));
    assert(events_args(f1) + events_args(f2) =~= events_args(f2));
}

/// Over a whole stream, the function-call arguments the Responses client
/// receives are the upstream chunks' tool call arguments joined in order.
pub proof fn law_stream_args_reach_client(s: ChatToResponses, evts: Seq<JsonV>)
    ensures
        events_args(c2r_run(s, evts).1) == chunks_args(evts),
    decreases evts.len(),
{
    if evts.len() > 0 {
        law_stream_args_reach_client(s, evts.drop_last());
        let (s0, e0) = c2r_run(s, evts.drop_last());
        law_chunk_args_reach_client(s0, evts.last());
        lemma_events_args_append(e0, c2r_step(s0, evts.last()).1);
    }
}

/// A Chat chunk built by `chunk_v` carries the given delta.
proof fn lemma_chunk_v_delta(model: Seq<char>, delta: JsonV, finish: Option<Seq<char>>, id: u64)
    ensures
        chat_delta(chunk_v(model, delta, finish, id)) == Some(delta),
{
    reveal_strlit("choices");
    reveal_strlit("delta");
    reveal_strlit("finish_reason");
    let f = match finish {
        Some(x) => JsonV::Str(x),
        None => JsonV::Null,
    };
    let c1 = empty_obj().set("index"@, num(0)).set("delta"@, delta);
    let c = c1.set("finish_reason"@, f);
    crate::json::law_set_then_get(empty_obj().set("index"@, num(0)), "delta"@, delta);
    assert("finish_reason"@.len() != "delta"@.len());
    crate::json::law_set_keeps_others(c1, "finish_reason"@, f, "delta"@);
    let head = empty_obj().set("id"@, JsonV::Str(id_text("chatcmpl-"@, id))).set(
        "object"@,
        JsonV::Str("chat.completion.chunk"@),
    ).set("created"@, num(1_700_000_000)).set("model"@, JsonV::Str(model));
    crate::json::law_set_then_get(head, "choices"@, JsonV::Array(seq![c]));
    assert(JsonV::Array(seq![c]).first() == Some(c));
}

proof fn lemma_chunks_text_one(c: JsonV)
    ensures
        chunks_text(seq![c]) == chunk_text(c),
{
    assert(seq![c].drop_last() =~= Seq::<JsonV>::empty());
    assert(seq![c].last() == c);
    assert(chunks_text(Seq::<JsonV>::empty()) + chunk_text(c) =~= chunk_text(c));
}

/// A tool call delta carries no text content.
proof fn lemma_tool_delta_no_content(index: JsonV, id: Seq<char>, name: Seq<char>, args: Seq<char>)
    ensures
        tool_call_delta(index, id, name, args).get("content"@) is None,
{
    reveal_strlit("content");
    reveal_strlit("tool_calls");
    let x = JsonV::Array(
        seq![
            empty_obj().set("index"@, index).set("id"@, JsonV::Str(id)).set(
                "function"@,
                empty_obj().set("name"@, JsonV::Str(name)).set("arguments"@, JsonV::Str(args)),
            ),
        ],
    );
    assert("content"@.len() != "tool_calls"@.len());
    crate::json::law_set_keeps_others(empty_obj(), "tool_calls"@, x, "content"@);
}

/// The text a Responses event carries reaches the Chat client whole: the
/// chunks sent for any event carry, in their delta contents, exactly the
/// event's text (the delta of a `response.output_text.delta` event, nothing
/// for any other).
pub proof fn law_r2c_text_reaches_client(s: ResponsesToChatV, evt: JsonV, id: u64)
    ensures
        chunks_text(r2c_step(s, evt, id).1) == event_text(evt),
{
    reveal_strlit("");
    reveal_strlit("type");
    reveal_strlit("delta");
    reveal_strlit("content");
    reveal_strlit("tool_calls");
    reveal_strlit("error");
    reveal_strlit("response.failed");
    reveal_strlit("response.output_text.delta");
    reveal_strlit("response.output_item.added");
    reveal_strlit("response.function_call_arguments.delta");
    reveal_strlit("response.completed");
    let ty = evt_type(evt);
    let oi = i64_or(evt.get("output_index"@), 0);
    let tdelta = "response.output_text.delta"@;
    assert(evt.get("type"@) == Some(JsonV::Str(tdelta)) ==> ty == tdelta);
    assert(ty != ""@ ==> evt.get("type"@) == Some(JsonV::Str(ty))) by {
        if ty != ""@ {
            assert(evt.get_str("type"@) == Some(ty));
        }
    }
    assert(chunks_text(Seq::<JsonV>::empty()) == Seq::<char>::empty());
    if ty == "error"@ || ty == "response.failed"@ {
        lemma_chunk_v_delta(s.model, empty_obj(), Some("stop"@), id);
        lemma_chunks_text_one(chunk_v(s.model, empty_obj(), Some("stop"@), id));
        assert(empty_obj().get("content"@) is None);
        assert(chunks_text(r2c_step(s, evt, id).1) == Seq::<char>::empty());
        assert(event_text(evt) == Seq::<char>::empty());
    } else if ty == tdelta {
        match evt.get_str("delta"@) {
            Some(d) => {
                lemma_chunk_v_delta(s.model, content_delta(d), None, id);
                lemma_chunks_text_one(chunk_v(s.model, content_delta(d), None, id));
                crate::json::law_set_then_get(empty_obj(), "content"@, JsonV::Str(d));
                assert(chunks_text(r2c_step(s, evt, id).1) == d);
                assert(tdelta.len() > 0);
                assert(evt.get("type"@) == Some(JsonV::Str(tdelta)));
                assert(evt.get("delta"@) == Some(JsonV::Str(d)));
                assert(event_text(evt) == d);
            },
            None => {
                assert(event_text(evt) == Seq::<char>::empty());
            },
        }
    } else if ty == "response.output_item.added"@ {
        let item = match evt.get("item"@) {
            Some(i) => i,
            None => empty_obj(),
        };
        if item.get_str("type"@) == Some("function_call"@) {
            let td = tool_call_delta(
                JsonV::Number(i64_text(oi)),
                item.str_or("call_id"@, ""@),
                item.str_or("name"@, ""@),
                ""@,
            );
            lemma_chunk_v_delta(s.model, td, None, id);
            lemma_chunks_text_one(chunk_v(s.model, td, None, id));
            lemma_tool_delta_no_content(
                JsonV::Number(i64_text(oi)),
                item.str_or("call_id"@, ""@),
                item.str_or("name"@, ""@),
                ""@,
            );
            assert(chunks_text(r2c_step(s, evt, id).1) == Seq::<char>::empty());
        }
        assert(chunks_text(r2c_step(s, evt, id).1) == Seq::<char>::empty());
    } else if ty == "response.function_call_arguments.delta"@ {
        match assoc_get(s.tools, oi) {
            Some(t) => {
                let args = evt.str_or("delta"@, ""@);
                let td = tool_call_delta(JsonV::Number(i64_text(oi)), t.0, t.1, args);
                lemma_chunk_v_delta(s.model, td, None, id);
                lemma_chunks_text_one(chunk_v(s.model, td, None, id));
                lemma_tool_delta_no_content(JsonV::Number(i64_text(oi)), t.0, t.1, args);
            },
            None => {},
        }
        assert(chunks_text(r2c_step(s, evt, id).1) == Seq::<char>::empty());
    } else {
        assert(chunks_text(r2c_step(s, evt, id).1) == Seq::<char>::empty());
    }
}

/// The text an upstream Anthropic event carries: the `delta.text` of a
/// `content_block_delta` event, nothing for any other event.
pub open spec fn anthropic_event_text(evt: JsonV) -> Seq<char> {
    if evt_type(evt) == "content_block_delta"@ {
        match path2_str(evt, "delta"@, "text"@) {
            Some(d) => d,
            None => Seq::empty(),
        }
    } else {
        Seq::empty()
    }
}

/// The tool input an upstream Anthropic event carries: the
/// `delta.partial_json` of a `content_block_delta` event whose delta is an
/// `input_json_delta`, nothing for any other event.
pub open spec fn anthropic_event_args(evt: JsonV) -> Seq<char> {
    if evt_type(evt) == "content_block_delta"@ && path2_str(evt, "delta"@, "type"@) == Some(
        "input_json_delta"@,
    ) {
        match path2_str(evt, "delta"@, "partial_json"@) {
            Some(a) => a,
            None => Seq::empty(),
        }
    } else {
        Seq::empty()
    }
}

/// An Anthropic event's text and tool input reach the Responses client
/// whole: the events sent for it carry exactly the event's text as output
/// text deltas and exactly its partial JSON as function-call argument
/// deltas.
pub proof fn law_a2r_text_and_args_reach_client(s: AnthropicToResponses, evt: JsonV)
    ensures
        events_text(a2r_step(s, evt).1) == anthropic_event_text(evt),
        events_args(a2r_step(s, evt).1) == anthropic_event_args(evt),
{
    let e = Seq::<JsonV>::empty();
    assert(events_text(e) == Seq::<char>::empty());
    assert(events_args(e) == Seq::<char>::empty());
    let ty = evt_type(evt);
    if ty == "content_block_delta"@ {
        let f1 = match path2_str(evt, "delta"@, "text"@) {
            Some(d) => seq![text_event_v(d)],
            None => e,
        };
        let f2 = if path2_str(evt, "delta"@, "type"@) == Some("input_json_delta"@) {
            match path2_str(evt, "delta"@, "partial_json"@) {
                Some(a) => seq![args_event_v(a)],
                None => e,
            }
        } else {
            e
        };
        assert(a2r_step(s, evt).1 == f1 + f2);
        lemma_events_text_append(f1, f2);
        lemma_events_args_append(f1, f2);
        match path2_str(evt, "delta"@, "text"@) {
            Some(d) => {
                lemma_event_texts(d, ""@);
                lemma_event_args(""@, d);
                lemma_events_text_small(text_event_v(d), text_event_v(d));
                lemma_events_args_small(text_event_v(d), text_event_v(d));
            },
            None => {},
        }
        if path2_str(evt, "delta"@, "type"@) == Some("input_json_delta"@) {
            match path2_str(evt, "delta"@, "partial_json"@) {
                Some(a) => {
                    lemma_event_texts(""@, a);
                    lemma_event_args(a, ""@);
                    lemma_events_text_small(args_event_v(a), args_event_v(a));
                    lemma_events_args_small(args_event_v(a), args_event_v(a));
                },
                None => {},
            }
        }
        assert(events_text(f1) + events_text(f2) =~= anthropic_event_text(evt));
        assert(events_args(f1) + events_args(f2) =~= anthropic_event_args(evt));
    } else if ty == "content_block_start"@ {
        let block = match evt.get("content_block"@) {
            Some(b) => b,
            None => empty_obj(),
        };
        if block.get_str("type"@) == Some("tool_use"@) {
            let n = block.str_or("name"@, ""@);
            lemma_event_texts(""@, n);
            lemma_event_args(""@, n);
            lemma_events_text_small(item_added_v(n), item_added_v(n));
            lemma_events_args_small(item_added_v(n), item_added_v(n));
        }
        reveal_strlit("content_block_delta");
        reveal_strlit("content_block_start");
        assert("content_block_delta"@ != "content_block_start"@) by {
            assert("content_block_delta"@[14] != "content_block_start"@[14]);
        }
    }
}

/// The text content of a Chat delta.
pub open spec fn delta_text(d: JsonV) -> Seq<char> {
    match d.get("content"@) {
        Some(JsonV::Str(c)) => c,
        _ => Seq::empty(),
    }
}

/// The text of a list of Chat deltas, in order.
pub open spec fn deltas_text(ds: Seq<JsonV>) -> Seq<char>
    decreases ds.len(),
{
    if ds.len() == 0 {
        Seq::empty()
    } else {
        deltas_text(ds.drop_last()) + delta_text(ds.last())
    }
}

/// The chunks of the given frames.
pub open spec fn frame_chunks(fs: Seq<FrameV>) -> Seq<JsonV> {
    fs.map_values(|f: FrameV| f.1)
}

proof fn lemma_deltas_text_append(a: Seq<JsonV>, b: Seq<JsonV>)
    ensures
        deltas_text(a + b) == deltas_text(a) + deltas_text(b),
    decreases b.len(),
{
    if b.len() == 0 {
        assert(a + b =~= a);
        assert(deltas_text(a) + deltas_text(b) =~= deltas_text(a));
    } else {
        lemma_deltas_text_append(a, b.drop_last());
        assert((a + b).drop_last() =~= a + b.drop_last());
        assert((a + b).last() == b.last());
        assert(deltas_text(a) + deltas_text(b.drop_last()) + delta_text(b.last()) =~= deltas_text(a)
            + (deltas_text(b.drop_last()) + delta_text(b.last())));
    }
}

proof fn lemma_deltas_text_one(d: JsonV)
    ensures
        deltas_text(seq![d]) == delta_text(d),
{
    assert(seq![d].drop_last() =~= Seq::<JsonV>::empty());
    assert(seq![d].last() == d);
    assert(deltas_text(Seq::<JsonV>::empty()) + delta_text(d) =~= delta_text(d));
}

/// The chunks sent for a list of deltas carry the deltas' text.
proof fn lemma_chunks_of_text(model: Seq<char>, ds: Seq<JsonV>, id: u64)
    ensures
        chunks_text(frame_chunks(chunks_of(model, ds, id))) == deltas_text(ds),
    decreases ds.len(),
{
    if ds.len() > 0 {
        let d = ds.drop_last();
        lemma_chunks_of_text(model, d, id);
        let n = ds.len() - 1;
        assert(frame_chunks(chunks_of(model, ds, id)).drop_last() =~= frame_chunks(
            chunks_of(model, d, id),
        ));
        let c = chunk_v(model, ds[n], None, id_after(id, n as nat));
        assert(frame_chunks(chunks_of(model, ds, id)).last() == c);
        lemma_chunk_v_delta(model, ds[n], None, id_after(id, n as nat));
        assert(chunk_text(c) == delta_text(ds.last()));
    }
}

/// The text an Anthropic event carries reaches the Chat client whole: the
/// chunks sent for any event carry, in their delta contents, exactly the
/// event's text.
pub proof fn law_a2c_text_reaches_client(s: AnthropicToChatV, evt: JsonV, id: u64)
    ensures
        chunks_text(frame_chunks(chunks_of(s.model, a2c_stream_step(s, evt).1, id)))
            == anthropic_event_text(evt),
{
    reveal_strlit("content");
    reveal_strlit("role");
    reveal_strlit("tool_calls");
    let e = Seq::<JsonV>::empty();
    assert(deltas_text(e) == Seq::<char>::empty());
    lemma_chunks_of_text(s.model, a2c_stream_step(s, evt).1, id);
    let role_d = empty_obj().set("role"@, JsonV::Str("assistant"@));
    assert("content"@.len() != "role"@.len());
    crate::json::law_set_keeps_others(empty_obj(), "role"@, JsonV::Str("assistant"@), "content"@);
    assert(delta_text(role_d) == Seq::<char>::empty());
    lemma_deltas_text_one(role_d);
    let s_u = AnthropicToChatV { usage: anthropic_usage_step(s.usage, evt), ..s };
    let (s1, f1) = send_role(s_u);
    assert(deltas_text(f1) == Seq::<char>::empty());
    let ty = evt_type(evt);
    if ty == "content_block_delta"@ {
        let (s2, f2) = match path2_str(evt, "delta"@, "text"@) {
            Some(d) => (AnthropicToChatV { out_chars: add_chars(s1.out_chars, d), ..s1 }, seq![content_delta(d)]),
            None => (s1, e),
        };
        match path2_str(evt, "delta"@, "text"@) {
            Some(d) => {
                crate::json::law_set_then_get(empty_obj(), "content"@, JsonV::Str(d));
                lemma_deltas_text_one(content_delta(d));
            },
            None => {},
        }
        assert(deltas_text(f2) == anthropic_event_text(evt));
        let f3 = a2c_stream_step(s, evt).1.subrange((f1.len() + f2.len()) as int, a2c_stream_step(s, evt).1.len() as int);
        assert(a2c_stream_step(s, evt).1 =~= f1 + f2 + f3);
        assert(f3.len() == 0 || f3.len() == 1);
        if f3.len() == 1 {
            assert(exists|i: u32, a: Seq<char>| f3[0] == args_delta_v(i, a));
            let (i, a) = choose|i: u32, a: Seq<char>| f3[0] == args_delta_v(i, a);
            let x = JsonV::Array(
                seq![
                    empty_obj().set("index"@, num(i as u64)).set(
                        "function"@,
                        empty_obj().set("arguments"@, JsonV::Str(a)),
                    ),
                ],
            );
            assert("content"@.len() != "tool_calls"@.len());
            crate::json::law_set_keeps_others(empty_obj(), "tool_calls"@, x, "content"@);
            lemma_deltas_text_one(f3[0]);
            assert(f3 =~= seq![f3[0]]);
        } else {
            assert(f3 =~= e);
        }
        lemma_deltas_text_append(f1, f2);
        lemma_deltas_text_append(f1 + f2, f3);
        assert(deltas_text(f1) + deltas_text(f2) + deltas_text(f3) =~= anthropic_event_text(evt));
    } else if ty == "content_block_start"@ {
        reveal_strlit("content_block_delta");
        reveal_strlit("content_block_start");
        assert("content_block_delta"@ != "content_block_start"@) by {
            assert("content_block_delta"@[14] != "content_block_start"@[14]);
        }
        let block = match evt.get("content_block"@) {
            Some(b) => b,
            None => empty_obj(),
        };
        if block.get_str("type"@) == Some("tool_use"@) {
            let ti = s1.next_tool_index;
            let td = tool_call_delta(num(ti as u64), block.str_or("id"@, ""@), block.str_or("name"@, ""@), ""@);
            lemma_tool_delta_no_content(num(ti as u64), block.str_or("id"@, ""@), block.str_or("name"@, ""@), ""@);
            lemma_deltas_text_one(td);
            lemma_deltas_text_append(f1, seq![td]);
            assert(deltas_text(f1) + deltas_text(seq![td]) =~= Seq::<char>::empty());
        }
    }
}

/// The text of a list of Anthropic frames, in order: what their
/// `content_block_delta` text deltas carry.
pub open spec fn anthropic_frames_text(fs: Seq<FrameV>) -> Seq<char>
    decreases fs.len(),
{
    if fs.len() == 0 {
        Seq::empty()
    } else {
        anthropic_frames_text(fs.drop_last()) + anthropic_event_text(fs.last().1)
    }
}

proof fn lemma_anthropic_frames_text_append(a: Seq<FrameV>, b: Seq<FrameV>)
    ensures
        anthropic_frames_text(a + b) == anthropic_frames_text(a) + anthropic_frames_text(b),
    decreases b.len(),
{
    if b.len() == 0 {
        assert(a + b =~= a);
        assert(anthropic_frames_text(a) + anthropic_frames_text(b) =~= anthropic_frames_text(a));
    } else {
        lemma_anthropic_frames_text_append(a, b.drop_last());
        assert((a + b).drop_last() =~= a + b.drop_last());
        assert((a + b).last() == b.last());
        assert(anthropic_frames_text(a) + anthropic_frames_text(b.drop_last()) + anthropic_event_text(
            b.last().1,
        ) =~= anthropic_frames_text(a) + (anthropic_frames_text(b.drop_last())
            + anthropic_event_text(b.last().1)));
    }
}

proof fn lemma_anthropic_frames_text_one(f: FrameV)
    ensures
        anthropic_frames_text(seq![f]) == anthropic_event_text(f.1),
{
    assert(seq![f].drop_last() =~= Seq::<FrameV>::empty());
    assert(seq![f].last() == f);
    assert(anthropic_frames_text(Seq::<FrameV>::empty()) + anthropic_event_text(f.1)
        =~= anthropic_event_text(f.1));
}

/// A three-member object read back: its type member and its last member.
proof fn lemma_three_members(t: JsonV, k2: Seq<char>, v2: JsonV, k3: Seq<char>, v3: JsonV)
    requires
        k2 != "type"@,
        k3 != "type"@,
    ensures
        empty_obj().set("type"@, t).set(k2, v2).set(k3, v3).get("type"@) == Some(t),
        empty_obj().set("type"@, t).set(k2, v2).set(k3, v3).get(k3) == Some(v3),
{
    lemma_two_members(t, k2, v2);
    let o = empty_obj().set("type"@, t).set(k2, v2);
    crate::json::law_set_keeps_others(empty_obj(), "type"@, t, k2);
    crate::json::law_set_keeps_others(empty_obj().set("type"@, t), k2, v2, "type"@);
    crate::json::law_set_keeps_others(o, k3, v3, "type"@);
    crate::json::law_set_then_get(o, k3, v3);
}

/// What the Anthropic frames the converters send carry as text: a text
/// delta its text, every other frame nothing.
proof fn lemma_anthropic_frame_texts(
    i: usize,
    t: Seq<char>,
    b: JsonV,
    model: Seq<char>,
    id: u64,
    em: Seq<char>,
)
    ensures
        anthropic_event_text(block_delta_v(i, text_delta_v(t)).1) == t,
        anthropic_event_text(block_delta_v(i, json_delta_v(t)).1) == Seq::<char>::empty(),
        anthropic_event_text(block_start_v(i, b).1) == Seq::<char>::empty(),
        anthropic_event_text(message_start_v(model, id)) == Seq::<char>::empty(),
        anthropic_event_text(message_stop_v().1) == Seq::<char>::empty(),
        anthropic_event_text(
            empty_obj().set("type"@, JsonV::Str("error"@)).set(
                "error"@,
                empty_obj().set("type"@, JsonV::Str("api_error"@)).set(
                    "message"@,
                    JsonV::Str(em),
                ),
            ),
        ) == Seq::<char>::empty(),
{
    reveal_strlit("type");
    reveal_strlit("index");
    reveal_strlit("delta");
    reveal_strlit("text");
    reveal_strlit("partial_json");
    reveal_strlit("content_block");
    reveal_strlit("message");
    reveal_strlit("error");
    reveal_strlit("content_block_delta");
    reveal_strlit("content_block_start");
    reveal_strlit("message_start");
    reveal_strlit("message_stop");
    let cbd = "content_block_delta"@;
    let td = text_delta_v(t);
    lemma_three_members(JsonV::Str(cbd), "index"@, num(i as u64), "delta"@, td);
    assert("text"@ != "type"@) by {
        assert("text"@[1] != "type"@[1]);
    }
    lemma_two_members(JsonV::Str("text_delta"@), "text"@, JsonV::Str(t));
    assert(evt_type(block_delta_v(i, td).1) == cbd);
    let jd = json_delta_v(t);
    lemma_three_members(JsonV::Str(cbd), "index"@, num(i as u64), "delta"@, jd);
    assert("text"@.len() != "partial_json"@.len());
    crate::json::law_set_keeps_others(
        empty_obj().set("type"@, JsonV::Str("input_json_delta"@)),
        "partial_json"@,
        JsonV::Str(t),
        "text"@,
    );
    crate::json::law_set_keeps_others(empty_obj(), "type"@, JsonV::Str("input_json_delta"@), "text"@);
    assert(path2_str(block_delta_v(i, jd).1, "delta"@, "text"@) is None);
    lemma_three_members(JsonV::Str("content_block_start"@), "index"@, num(i as u64), "content_block"@, b);
    assert("content_block_start"@ != cbd) by {
        assert("content_block_start"@[14] != cbd[14]);
    }
    assert(evt_type(block_start_v(i, b).1) != cbd);
    lemma_two_members(
        JsonV::Str("message_start"@),
        "message"@,
        empty_obj().set("id"@, JsonV::Str(id_text("msg_"@, id))).set(
            "type"@,
            JsonV::Str("message"@),
        ).set("role"@, JsonV::Str("assistant"@)).set("model"@, JsonV::Str(model)).set(
            "content"@,
            JsonV::Array(Seq::empty()),
        ).set("stop_reason"@, JsonV::Null).set("stop_sequence"@, JsonV::Null).set(
            "usage"@,
            empty_obj().set("input_tokens"@, num(0)).set("output_tokens"@, num(0)),
        ),
    );
    assert("message_start"@.len() != cbd.len());
    crate::json::law_set_then_get(empty_obj(), "type"@, JsonV::Str("message_stop"@));
    assert("message_stop"@.len() != cbd.len());
    lemma_two_members(
        JsonV::Str("error"@),
        "error"@,
        empty_obj().set("type"@, JsonV::Str("api_error"@)).set("message"@, JsonV::Str(em)),
    );
    assert("error"@.len() != cbd.len());
}

/// The frames of the Anthropic stream helpers: only `send_text` carries
/// text, exactly the text sent.
proof fn lemma_anthropic_helpers_text(s: AnthropicOutV, t: Seq<char>, id: u64, k: i64, cid: Seq<char>)
    ensures
        anthropic_frames_text(ensure_started(s, id).1) == Seq::<char>::empty(),
        anthropic_frames_text(open_text(s).1) == Seq::<char>::empty(),
        anthropic_frames_text(send_text(s, t, id).1) == t,
        anthropic_frames_text(open_tool(s, k, cid, t).1) == Seq::<char>::empty(),
        anthropic_frames_text(send_args(s, k, t).1) == Seq::<char>::empty(),
{
    let e = Seq::<FrameV>::empty();
    assert(anthropic_frames_text(e) == Seq::<char>::empty());
    lemma_anthropic_frame_texts(s.next_index, t, empty_obj(), s.model, id, ""@);
    lemma_anthropic_frames_text_one((Some("message_start"@), message_start_v(s.model, id)));
    let tb = empty_obj().set("type"@, JsonV::Str("text"@)).set("text"@, JsonV::Str(""@));
    lemma_anthropic_frame_texts(s.next_index, t, tb, s.model, id, ""@);
    lemma_anthropic_frames_text_one(block_start_v(s.next_index, tb));
    let (s1, f1) = ensure_started(s, id);
    let (s2, f2, ti) = open_text(s1);
    lemma_anthropic_frame_texts(s1.next_index, t, tb, s.model, id, ""@);
    lemma_anthropic_frames_text_one(block_start_v(s1.next_index, tb));
    lemma_anthropic_frame_texts(ti, t, tb, s.model, id, ""@);
    lemma_anthropic_frames_text_one(block_delta_v(ti, text_delta_v(t)));
    lemma_anthropic_frames_text_append(f1, f2);
    lemma_anthropic_frames_text_append(f1 + f2, seq![block_delta_v(ti, text_delta_v(t))]);
    assert(anthropic_frames_text(f1) + anthropic_frames_text(f2) + t =~= t);
    let tool = tool_block_v(cid, t);
    lemma_anthropic_frame_texts(s.next_index, t, tool, s.model, id, ""@);
    lemma_anthropic_frames_text_one(block_start_v(s.next_index, tool));
    match assoc_get(s.tool_blocks, k) {
        Some(bi) => {
            lemma_anthropic_frame_texts(bi, t, tool, s.model, id, ""@);
            lemma_anthropic_frames_text_one(block_delta_v(bi, json_delta_v(t)));
        },
        None => {},
    }
}

/// The frames of a chunk's tool calls carry no text.
proof fn lemma_c2a_tool_calls_text(s: AnthropicOutV, tcs: Seq<JsonV>)
    ensures
        anthropic_frames_text(c2a_tool_calls(s, tcs).1) == Seq::<char>::empty(),
    decreases tcs.len(),
{
    if tcs.len() > 0 {
        lemma_c2a_tool_calls_text(s, tcs.drop_last());
        let (s0, f0) = c2a_tool_calls(s, tcs.drop_last());
        let tc = tcs.last();
        let k = i64_or(tc.get("index"@), 0);
        let (s1, f1) = match path2_str(tc, "function"@, "name"@) {
            Some(n) => open_tool(s0, k, tc.str_or("id"@, ""@), n),
            None => (s0, Seq::<FrameV>::empty()),
        };
        let f2 = match path2_str(tc, "function"@, "arguments"@) {
            Some(a) => send_args(s1, k, a).1,
            None => Seq::<FrameV>::empty(),
        };
        assert(anthropic_frames_text(Seq::<FrameV>::empty()) == Seq::<char>::empty());
        match path2_str(tc, "function"@, "name"@) {
            Some(n) => lemma_anthropic_helpers_text(s0, n, 0, k, tc.str_or("id"@, ""@)),
            None => {},
        }
        match path2_str(tc, "function"@, "arguments"@) {
            Some(a) => lemma_anthropic_helpers_text(s1, a, 0, k, ""@),
            None => {},
        }
        lemma_anthropic_frames_text_append(f0, f1);
        lemma_anthropic_frames_text_append(f0 + f1, f2);
        assert(anthropic_frames_text(f0) + anthropic_frames_text(f1) + anthropic_frames_text(f2)
            =~= Seq::<char>::empty());
    }
}

/// The text a Chat chunk carries reaches the Anthropic client whole: the
/// frames sent for the chunk carry, in their text deltas, exactly its delta
/// content.
pub proof fn law_c2a_text_reaches_client(s: AnthropicOutV, evt: JsonV, id: u64)
    ensures
        anthropic_frames_text(c2a_stream_step(s, evt, id).1) == chunk_text(evt),
{
    let e = Seq::<FrameV>::empty();
    assert(anthropic_frames_text(e) == Seq::<char>::empty());
    let (s1, f1) = match delta_content(evt) {
        Some(c) => send_text(s, c, id),
        None => (s, e),
    };
    match delta_content(evt) {
        Some(c) => lemma_anthropic_helpers_text(s, c, id, 0, ""@),
        None => {},
    }
    assert(anthropic_frames_text(f1) == chunk_text(evt));
    let f2 = match delta_tool_calls(evt) {
        Some(tcs) => {
            let (sa, fa) = ensure_started(s1, id);
            let (sb, fb) = c2a_tool_calls(sa, tcs);
            fa + fb
        },
        None => e,
    };
    match delta_tool_calls(evt) {
        Some(tcs) => {
            let (sa, fa) = ensure_started(s1, id);
            lemma_anthropic_helpers_text(s1, ""@, id, 0, ""@);
            lemma_c2a_tool_calls_text(sa, tcs);
            lemma_anthropic_frames_text_append(fa, c2a_tool_calls(sa, tcs).1);
        },
        None => {},
    }
    assert(anthropic_frames_text(f2) =~= Seq::<char>::empty());
    assert(c2a_stream_step(s, evt, id).1 == f1 + f2);
    lemma_anthropic_frames_text_append(f1, f2);
    assert(anthropic_frames_text(f1) + anthropic_frames_text(f2) =~= chunk_text(evt));
}

/// The text a Responses event carries reaches the Anthropic client whole:
/// the frames sent for any event carry, in their text deltas, exactly the
/// event's text.
pub proof fn law_r2a_text_reaches_client(s: AnthropicOutV, evt: JsonV, id: u64)
    ensures
        anthropic_frames_text(r2a_stream_step(s, evt, id).1) == event_text(evt),
{
    reveal_strlit("");
    reveal_strlit("type");
    reveal_strlit("delta");
    reveal_strlit("error");
    reveal_strlit("response.failed");
    reveal_strlit("response.output_text.delta");
    reveal_strlit("response.output_item.added");
    reveal_strlit("response.function_call_arguments.delta");
    reveal_strlit("response.completed");
    let e = Seq::<FrameV>::empty();
    assert(anthropic_frames_text(e) == Seq::<char>::empty());
    let ty = evt_type(evt);
    let oi = i64_or(evt.get("output_index"@), 0);
    let tdelta = "response.output_text.delta"@;
    assert(evt.get("type"@) == Some(JsonV::Str(tdelta)) ==> ty == tdelta);
    assert(ty != ""@ ==> evt.get("type"@) == Some(JsonV::Str(ty))) by {
        if ty != ""@ {
            assert(evt.get_str("type"@) == Some(ty));
        }
    }
    if ty == "error"@ || ty == "response.failed"@ {
        let (s1, f1) = ensure_started(s, id);
        lemma_anthropic_helpers_text(s, ""@, id, 0, ""@);
        let ef = (
            Some("error"@),
            empty_obj().set("type"@, JsonV::Str("error"@)).set(
                "error"@,
                empty_obj().set("type"@, JsonV::Str("api_error"@)).set(
                    "message"@,
                    JsonV::Str(error_message(evt)),
                ),
            ),
        );
        lemma_anthropic_frame_texts(0, ""@, empty_obj(), s.model, id, error_message(evt));
        let g = seq![ef, message_stop_v()];
        assert(g.drop_last() =~= seq![ef]);
        lemma_anthropic_frames_text_one(ef);
        assert(anthropic_frames_text(g) == anthropic_frames_text(seq![ef]) + anthropic_event_text(
            message_stop_v().1,
        ));
        lemma_anthropic_frames_text_append(f1, g);
        assert(anthropic_frames_text(f1) + anthropic_frames_text(g) =~= Seq::<char>::empty());
        assert(event_text(evt) == Seq::<char>::empty());
    } else if ty == tdelta {
        match evt.get_str("delta"@) {
            Some(d) => {
                lemma_anthropic_helpers_text(s, d, id, 0, ""@);
                assert(evt.get("type"@) == Some(JsonV::Str(tdelta)));
                assert(evt.get("delta"@) == Some(JsonV::Str(d)));
            },
            None => {},
        }
    } else if ty == "response.output_item.added"@ {
        let item = match evt.get("item"@) {
            Some(i) => i,
            None => empty_obj(),
        };
        if item.get_str("type"@) == Some("function_call"@) {
            let (s1, f1) = ensure_started(s, id);
            lemma_anthropic_helpers_text(s, ""@, id, 0, ""@);
            lemma_anthropic_helpers_text(s1, item.str_or("name"@, ""@), id, oi, item.str_or("call_id"@, ""@));
            lemma_anthropic_frames_text_append(f1, open_tool(s1, oi, item.str_or("call_id"@, ""@), item.str_or("name"@, ""@)).1);
        }
        assert(anthropic_frames_text(r2a_stream_step(s, evt, id).1) =~= Seq::<char>::empty());
    } else if ty == "response.function_call_arguments.delta"@ {
        lemma_anthropic_helpers_text(s, evt.str_or("delta"@, ""@), id, oi, ""@);
    }
}

/// The function call a Responses event announces: the item name of a
/// `response.output_item.added` event, none for another.
pub open spec fn event_calls(e: JsonV) -> Seq<Seq<char>> {
    if e.get("type"@) == Some(JsonV::Str("response.output_item.added"@)) {
        match path2_str(e, "item"@, "name"@) {
            Some(n) => seq![n],
            None => Seq::empty(),
        }
    } else {
        Seq::empty()
    }
}

/// The function calls a list of Responses events announces, in order.
pub open spec fn events_calls(es: Seq<JsonV>) -> Seq<Seq<char>>
    decreases es.len(),
{
    if es.len() == 0 {
        Seq::empty()
    } else {
        events_calls(es.drop_last()) + event_calls(es.last())
    }
}

/// The names of upstream Chat tool calls that carry one, in order.
pub open spec fn calls_names(tcs: Seq<JsonV>) -> Seq<Seq<char>>
    decreases tcs.len(),
{
    if tcs.len() == 0 {
        Seq::empty()
    } else {
        calls_names(tcs.drop_last()) + match path2_str(tcs.last(), "function"@, "name"@) {
            Some(n) => seq![n],
            None => Seq::empty(),
        }
    }
}

/// The names of the tool calls in an upstream Chat chunk's delta.
pub open spec fn chunk_calls(evt: JsonV) -> Seq<Seq<char>> {
    match delta_tool_calls(evt) {
        Some(tcs) => calls_names(tcs),
        None => Seq::empty(),
    }
}

proof fn lemma_events_calls_append(a: Seq<JsonV>, b: Seq<JsonV>)
    ensures
        events_calls(a + b) == events_calls(a) + events_calls(b),
    decreases b.len(),
{
    if b.len() == 0 {
        assert(a + b =~= a);
        assert(events_calls(a) + events_calls(b) =~= events_calls(a));
    } else {
        lemma_events_calls_append(a, b.drop_last());
        assert((a + b).drop_last() =~= a + b.drop_last());
        assert((a + b).last() == b.last());
        assert(events_calls(a) + events_calls(b.drop_last()) + event_calls(b.last()) =~= events_calls(
            a,
        ) + (events_calls(b.drop_last()) + event_calls(b.last())));
    }
}

proof fn lemma_events_calls_one(x: JsonV)
    ensures
        events_calls(seq![x]) == event_calls(x),
{
    assert(seq![x].drop_last() =~= Seq::<JsonV>::empty());
    assert(seq![x].last() == x);
    assert(events_calls(Seq::<JsonV>::empty()) + event_calls(x) =~= event_calls(x));
}

/// An item event announces its name; text and argument deltas announce
/// nothing.
proof fn lemma_event_calls(d: Seq<char>, n: Seq<char>)
    ensures
        event_calls(item_added_v(n)) == seq![n],
        event_calls(args_event_v(d)) == Seq::<Seq<char>>::empty(),
        event_calls(text_event_v(d)) == Seq::<Seq<char>>::empty(),
{
    reveal_strlit("type");
    reveal_strlit("delta");
    reveal_strlit("item");
    reveal_strlit("name");
    reveal_strlit("response.output_text.delta");
    reveal_strlit("response.output_item.added");
    reveal_strlit("response.function_call_arguments.delta");
    let item = empty_obj().set("type"@, JsonV::Str("function_call"@)).set("name"@, JsonV::Str(n));
    lemma_two_members(JsonV::Str("response.output_item.added"@), "item"@, item);
    lemma_two_members(JsonV::Str("function_call"@), "name"@, JsonV::Str(n));
    lemma_two_members(JsonV::Str("response.function_call_arguments.delta"@), "delta"@, JsonV::Str(d));
    lemma_two_members(JsonV::Str("response.output_text.delta"@), "delta"@, JsonV::Str(d));
    assert("response.output_item.added"@ != "response.function_call_arguments.delta"@) by {
        assert("response.output_item.added"@.len() != "response.function_call_arguments.delta"@.len());
    }
    assert("response.output_item.added"@ != "response.output_text.delta"@) by {
        assert("response.output_item.added"@[17] != "response.output_text.delta"@[17]);
    }
}

proof fn lemma_tool_call_events_calls(s: (bool, u64), tcs: Seq<JsonV>)
    ensures
        events_calls(c2r_tool_calls(s, tcs).1) == calls_names(tcs),
    decreases tcs.len(),
{
    if tcs.len() > 0 {
        lemma_tool_call_events_calls(s, tcs.drop_last());
        let (s0, f0) = c2r_tool_calls(s, tcs.drop_last());
        let tc = tcs.last();
        let f1 = match path2_str(tc, "function"@, "name"@) {
            Some(n) => seq![item_added_v(n)],
            None => Seq::<JsonV>::empty(),
        };
        assert(events_calls(Seq::<JsonV>::empty()) == Seq::<Seq<char>>::empty());
        match path2_str(tc, "function"@, "name"@) {
            Some(n) => {
                lemma_event_calls(""@, n);
                lemma_events_calls_one(item_added_v(n));
            },
            None => {},
        }
        lemma_events_calls_append(f0, f1);
        match path2_str(tc, "function"@, "arguments"@) {
            Some(a) => {
                lemma_event_calls(a, ""@);
                lemma_events_calls_one(args_event_v(a));
                lemma_events_calls_append(f0 + f1, seq![args_event_v(a)]);
                assert(events_calls(f0 + f1) + Seq::<Seq<char>>::empty() =~= events_calls(f0 + f1));
            },
            None => {},
        }
        assert(events_calls(c2r_tool_calls(s, tcs).1) =~= calls_names(tcs));
    }
}

/// Every tool call of a Chat chunk that names a function is announced to
/// the Responses client, in order, by a `response.output_item.added` event
/// with that name, and nothing else announces one.
pub proof fn law_chunk_calls_reach_client(s: ChatToResponses, evt: JsonV)
    ensures
        events_calls(c2r_step(s, evt).1) == chunk_calls(evt),
{
    let e = Seq::<JsonV>::empty();
    assert(events_calls(e) == Seq::<Seq<char>>::empty());
    let (s1, f1) = match delta_content(evt) {
        Some(c) => (
            ChatToResponses { text_started: true, out_chars: add_chars(s.out_chars, c), ..s },
            if s.text_started {
                seq![text_event_v(c)]
            } else {
                seq![text_event_v(""@), text_event_v(c)]
            },
        ),
        None => (s, e),
    };
    let f2 = match delta_tool_calls(evt) {
        Some(tcs) => c2r_tool_calls((s1.used_tool_calls, s1.out_chars), tcs).1,
        None => e,
    };
    match delta_tool_calls(evt) {
        Some(tcs) => lemma_tool_call_events_calls((s1.used_tool_calls, s1.out_chars), tcs),
        None => {},
    }
    assert(c2r_step(s, evt).1 == f1 + f2);
    lemma_events_calls_append(f1, f2);
    match delta_content(evt) {
        Some(c) => {
            lemma_event_calls(c, ""@);
            lemma_event_calls(""@, ""@);
            lemma_events_calls_one(text_event_v(c));
            lemma_events_calls_append(seq![text_event_v(""@)], seq![text_event_v(c)]);
            lemma_events_calls_one(text_event_v(""@));
            assert(seq![text_event_v(""@)] + seq![text_event_v(c)] =~= seq![text_event_v(""@), text_event_v(c)]);
            assert(events_calls(f1) =~= Seq::<Seq<char>>::empty());
        },
        None => {},
    }
    assert(events_calls(f1) + events_calls(f2) =~= events_calls(f2));
}
} // verus!
