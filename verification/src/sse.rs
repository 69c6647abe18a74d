//! Server-sent events: finding frame boundaries in a byte buffer, reading the
//! `data:` payload of a frame, and encoding frames.
use vstd::prelude::*;

use crate::json::{json_text, Json};
use crate::text::{empty_string, push_str, str_eq, to_owned, trim_spec, trim_start_spec};

verus! {

/// The length of the line ending at the start of `s`: `\r\n` is 2, a lone
/// `\n` or `\r` is 1.
pub open spec fn line_ending(s: Seq<u8>) -> Option<nat> {
    if s.len() >= 2 && s[0] == 13u8 && s[1] == 10u8 {
        Some(2)
    } else if s.len() >= 1 && (s[0] == 10u8 || s[0] == 13u8) {
        Some(1)
    } else {
        None
    }
}

/// `line_ending_len`: the line ending at the start of `s`, if any.
pub fn line_ending_len(s: &[u8]) -> (r: Option<usize>)
    ensures
        match r {
            Some(n) => line_ending(s@) == Some(n as nat),
            None => line_ending(s@) is None,
        },
{
    if s.len() >= 2 && s[0] == 13u8 && s[1] == 10u8 {
        Some(2)
    } else if s.len() >= 1 && (s[0] == 10u8 || s[0] == 13u8) {
        Some(1)
    } else {
        None
    }
}

/// The end of the run of consecutive line endings starting at `j`, and how
/// many endings it holds.
pub open spec fn ending_run(buf: Seq<u8>, j: nat) -> (nat, nat)
    decreases buf.len() - j,
{
    if j < buf.len() {
        match line_ending(buf.skip(j as int)) {
            Some(l) => {
                let r = ending_run(buf, j + l);
                (r.0, r.1 + 1)
            },
            None => (j, 0),
        }
    } else {
        (j, 0)
    }
}

/// The first frame boundary at or after `i`: a run of two or more line
/// endings (a blank line), given as its start and length. Runs of a single
/// ending are ordinary line breaks and are passed over whole.
pub open spec fn boundary_from(buf: Seq<u8>, i: nat) -> Option<(nat, nat)>
    decreases buf.len() - i,
{
    if i >= buf.len() {
        None
    } else if line_ending(buf.skip(i as int)) is None {
        boundary_from(buf, i + 1)
    } else {
        let r = ending_run(buf, i);
        if r.1 >= 2 {
            Some((i, (r.0 - i) as nat))
        } else if r.0 > i {
            proof {
                lemma_ending_run_bounds(buf, i);
            }
            boundary_from(buf, r.0)
        } else {
            None
        }
    }
}

/// A run of endings stays inside the buffer and moves past its start when it
/// holds any ending.
pub proof fn lemma_ending_run_bounds(buf: Seq<u8>, j: nat)
    requires
        j <= buf.len(),
    ensures
        j <= ending_run(buf, j).0 <= buf.len(),
        ending_run(buf, j).1 > 0 ==> ending_run(buf, j).0 > j,
    decreases buf.len() - j,
{
    if j < buf.len() {
        match line_ending(buf.skip(j as int)) {
            Some(l) => {
                lemma_ending_run_bounds(buf, j + l);
            },
            None => {},
        }
    }
}

/// `find_sse_boundary`: where the first complete frame ends, as the start
/// and length of the blank line that ends it.
pub fn find_sse_boundary(buf: &[u8]) -> (r: Option<(usize, usize)>)
    ensures
        match r {
            Some((s, l)) => boundary_from(buf@, 0) == Some((s as nat, l as nat)),
            None => boundary_from(buf@, 0) is None,
        },
{
    let n = buf.len();
    let mut i: usize = 0;
    while i < n
        invariant
            n == buf@.len(),
            i <= n,
            boundary_from(buf@, 0) == boundary_from(buf@, i as nat),
        decreases n - i,
    {
        assert(buf@.subrange(i as int, n as int) =~= buf@.skip(i as int));
        if line_ending_len(&buf[i..n]).is_none() {
            i = i + 1;
            continue;
        }
        let start = i;
        let mut j = i;
        let mut endings: usize = 0;
        proof {
            lemma_ending_run_bounds(buf@, i as nat);
        }
        loop
            invariant
                n == buf@.len(),
                start <= j <= n,
                ending_run(buf@, start as nat).0 == ending_run(buf@, j as nat).0,
                ending_run(buf@, start as nat).1 == ending_run(buf@, j as nat).1 + endings,
                endings <= j - start,
            ensures
                start <= j <= n,
                ending_run(buf@, start as nat).0 == j,
                ending_run(buf@, start as nat).1 == endings,
                endings <= j - start,
            decreases n - j,
        {
            assert(buf@.subrange(j as int, n as int) =~= buf@.skip(j as int));
            if j >= n {
                break;
            }
            match line_ending_len(&buf[j..n]) {
                Some(l) => {
                    j = j + l;
                    endings = endings + 1;
                },
                None => {
                    break;
                },
            }
        }
        proof {
            lemma_ending_run_bounds(buf@, start as nat);
        }
        if endings >= 2 {
            return Some((start, j - start));
        }
        i = j;
    }
    None
}

/// Bytes waiting to be cut into frames.
pub struct SseBuffer {
    pub buf: Vec<u8>,
}

impl SseBuffer {
    /// An empty buffer.
    pub fn new() -> (r: Self)
        ensures
            r.buf@ == Seq::<u8>::empty(),
    {
        SseBuffer { buf: Vec::new() }
    }

    /// Appends received bytes.
    pub fn push(&mut self, bytes: &[u8])
        ensures
            final(self).buf@ == old(self).buf@ + bytes@,
    {
        let mut i: usize = 0;
        let ghost start = self.buf@;
        while i < bytes.len()
            invariant
                i <= bytes@.len(),
                self.buf@ == start + bytes@.take(i as int),
            decreases bytes@.len() - i,
        {
            self.buf.push(bytes[i]);
            assert(bytes@.take(i as int + 1) =~= bytes@.take(i as int).push(bytes@[i as int]));
            i = i + 1;
        }
        assert(bytes@.take(bytes@.len() as int) =~= bytes@);
    }

    /// Takes the first complete frame, blank line included, off the buffer.
    pub fn next_frame(&mut self) -> (r: Option<Vec<u8>>)
        ensures
            match boundary_from(old(self).buf@, 0) {
                Some((s, l)) => r matches Some(f) && f@ == old(self).buf@.take((s + l) as int)
                    && final(self).buf@ == old(self).buf@.skip((s + l) as int),
                None => r is None && final(self).buf@ == old(self).buf@,
            },
    {
        let found = find_sse_boundary(self.buf.as_slice());
        match found {
            Some((s, l)) => {
                proof {
                    lemma_boundary_within(self.buf@, 0);
                }
                assert(s + l <= self.buf.len());
                let cut = s + l;
                let mut rest = self.buf.split_off(cut);
                std::mem::swap(&mut self.buf, &mut rest);
                Some(rest)
            },
            None => None,
        }
    }
}

proof fn lemma_boundary_within(buf: Seq<u8>, i: nat)
    ensures
        match boundary_from(buf, i) {
            Some((s, l)) => s + l <= buf.len(),
            None => true,
        },
    decreases buf.len() - i,
{
    if i < buf.len() {
        if line_ending(buf.skip(i as int)) is None {
            lemma_boundary_within(buf, i + 1);
        } else {
            lemma_ending_run_bounds(buf, i);
            let r = ending_run(buf, i);
            if r.1 < 2 && r.0 > i {
                lemma_boundary_within(buf, r.0);
            }
        }
    }
}

/// The text of bytes read as UTF-8 with invalid sequences replaced by
/// U+FFFD, as `String::from_utf8_lossy` reads them.
pub uninterp spec fn utf8_lossy(b: Seq<u8>) -> Seq<char>;

/// `String::from_utf8_lossy`, owned. What it returns is stated only through
/// the name `utf8_lossy`: UTF-8 decoding is std's, not restated here.
#[verifier::external_body]
fn decode_lossy(b: &[u8]) -> (r: String)
    ensures
        r@ == utf8_lossy(b@),
{
    String::from_utf8_lossy(b).into_owned()
}

/// `str::lines`: split at `\n`, a `\r` right before it dropped; a final empty
/// line (after a last line ending) is not a line.
pub open spec fn lines_spec(t: Seq<char>) -> Seq<Seq<char>> {
    let parts = split_newlines(t);
    let trimmed = if parts.len() > 0 && parts.last().len() == 0 {
        parts.drop_last()
    } else {
        parts
    };
    Seq::new(trimmed.len(), |i: int| strip_cr(trimmed[i]))
}

/// The pieces of `t` between `\n` characters (always at least one).
pub open spec fn split_newlines(t: Seq<char>) -> Seq<Seq<char>>
    decreases t.len(),
{
    if t.len() == 0 {
        seq![Seq::empty()]
    } else {
        let rest = split_newlines(t.drop_last());
        if t.last() == '\n' {
            rest.push(Seq::empty())
        } else {
            rest.update(rest.len() - 1, rest.last().push(t.last()))
        }
    }
}

/// A line without one trailing `\r`.
pub open spec fn strip_cr(l: Seq<char>) -> Seq<char> {
    if l.len() > 0 && l.last() == '\r' {
        l.drop_last()
    } else {
        l
    }
}

proof fn lemma_split_nonempty(t: Seq<char>)
    ensures
        split_newlines(t).len() >= 1,
    decreases t.len(),
{
    if t.len() > 0 {
        lemma_split_nonempty(t.drop_last());
    }
}

/// Whether a line, leading white space dropped, starts with `data:`.
pub open spec fn is_data_line(l: Seq<char>) -> bool {
    let t = trim_start_spec(l);
    t.len() >= 5 && t.take(5) == seq!['d', 'a', 't', 'a', ':']
}

/// The payload of a data line: after `data:`, trimmed.
pub open spec fn data_of(l: Seq<char>) -> Seq<char> {
    trim_spec(trim_start_spec(l).skip(5))
}

/// The index of the last data line among the first `n` lines.
pub open spec fn last_data_line(ls: Seq<Seq<char>>, n: int) -> Option<int>
    decreases n,
{
    if n <= 0 {
        None
    } else if is_data_line(ls[n - 1]) {
        Some(n - 1)
    } else {
        last_data_line(ls, n - 1)
    }
}

/// The payload of a frame's text: that of its last data line.
pub open spec fn frame_payload_text(t: Seq<char>) -> Option<Seq<char>> {
    let ls = lines_spec(t);
    match last_data_line(ls, ls.len() as int) {
        Some(i) => Some(data_of(ls[i])),
        None => None,
    }
}

/// The lines of `t`.
fn split_lines(t: &str) -> (r: Vec<String>)
    ensures
        r@.map_values(|s: String| s@) == lines_spec(t@),
{
    let mut parts: Vec<String> = Vec::new();
    parts.push(empty_string());
    let ghost tv = t@;
    assert(tv.take(0) =~= Seq::<char>::empty());
    assert(parts@.map_values(|s: String| s@) =~= split_newlines(tv.take(0)));
    for c in it: t.chars()
        invariant
            it.seq() == tv,
            parts@.len() >= 1,
            parts@.map_values(|s: String| s@) == split_newlines(tv.take(it.index() as int)),
    {
        let ghost i = it.index();
        assert(c == tv[i as int]);
        assert(tv.take(i as int + 1).drop_last() =~= tv.take(i as int));
        let ghost before = parts@.map_values(|s: String| s@);
        if c == '\n' {
            parts.push(empty_string());
            assert(parts@.map_values(|s: String| s@) =~= before.push(Seq::<char>::empty()));
        } else {
            let k = parts.len() - 1;
            let mut last = parts.pop().unwrap();
            crate::text::push_char(&mut last, c);
            parts.push(last);
            assert(parts@.map_values(|s: String| s@) =~= before.update(
                before.len() - 1,
                before.last().push(c),
            ));
        }
    }
    assert(tv.take(tv.len() as int) =~= tv);
    let ghost sp = parts@.map_values(|s: String| s@);
    let n = parts.len();
    if n > 0 && parts[n - 1].unicode_len() == 0 {
        parts.pop();
    }
    let ghost trimmed = parts@.map_values(|s: String| s@);
    assert(trimmed == (if sp.len() > 0 && sp.last().len() == 0 {
        sp.drop_last()
    } else {
        sp
    })) by {
        if sp.len() > 0 && sp.last().len() == 0 {
            assert(trimmed =~= sp.drop_last());
        }
    }
    let mut out: Vec<String> = Vec::new();
    let mut i: usize = 0;
    while i < parts.len()
        invariant
            i <= parts@.len(),
            trimmed == parts@.map_values(|s: String| s@),
            out@.len() == i,
            forall|k: int| 0 <= k < i ==> (#[trigger] out@[k])@ == strip_cr(trimmed[k]),
        decreases parts@.len() - i,
    {
        let l = parts[i].as_str();
        let len = l.unicode_len();
        if len > 0 && l.get_char(len - 1) == '\r' {
            out.push(to_owned(l.substring_char(0, len - 1)));
            assert(l@.subrange(0, len as int - 1) =~= l@.drop_last());
        } else {
            out.push(to_owned(l));
        }
        i = i + 1;
    }
    assert(out@.map_values(|s: String| s@) =~= lines_spec(t@));
    out
}

/// The payload of a frame's text, if it has a data line.
pub fn frame_payload(text: &str) -> (r: Option<String>)
    ensures
        match r {
            Some(p) => frame_payload_text(text@) == Some(p@),
            None => frame_payload_text(text@) is None,
        },
{
    let ls = split_lines(text);
    let ghost lv = ls@.map_values(|s: String| s@);
    let mut n: usize = ls.len();
    while n > 0
        invariant
            n <= ls@.len(),
            lv == ls@.map_values(|s: String| s@),
            lv == lines_spec(text@),
            last_data_line(lv, lv.len() as int) == last_data_line(lv, n as int),
        decreases n,
    {
        let l = ls[n - 1].as_str();
        assert(lv[n - 1] == l@);
        let t = crate::text::trim_start(l);
        let is_data = if t.unicode_len() >= 5 {
            let head = t.substring_char(0, 5);
            proof {
                reveal_strlit("data:");
                assert("data:"@ =~= seq!['d', 'a', 't', 'a', ':']);
                assert(head@ =~= t@.take(5));
            }
            str_eq(head, "data:")
        } else {
            false
        };
        if is_data {
            let rest = t.substring_char(5, t.unicode_len());
            assert(rest@ =~= trim_start_spec(l@).skip(5));
            assert(is_data_line(lv[n - 1]));
            assert(last_data_line(lv, n as int) == Some(n as int - 1));
            let p = crate::text::trimmed(rest);
            return Some(p);
        }
        n = n - 1;
    }
    None
}

/// The payload of a raw frame: its bytes read as text, then the payload of
/// its last data line.
pub open spec fn frame_payload_bytes(frame: Seq<u8>) -> Option<Seq<char>> {
    frame_payload_text(utf8_lossy(frame))
}

/// What a frame carries.
pub enum Payload {
    /// No data line: nothing to do.
    Nothing,
    /// The `[DONE]` marker: the stream is over.
    Done,
    /// A data payload (JSON text to be read).
    Data(String),
}

/// The payload of a raw frame, with the `[DONE]` marker told apart.
pub fn read_frame(frame: &[u8]) -> (r: Payload)
    ensures
        match r {
            Payload::Nothing => frame_payload_bytes(frame@) is None,
            Payload::Done => frame_payload_bytes(frame@) == Some("[DONE]"@),
            Payload::Data(p) => frame_payload_bytes(frame@) == Some(p@) && p@ != "[DONE]"@,
        },
{
    let text = decode_lossy(frame);
    match frame_payload(text.as_str()) {
        Some(p) => {
            if str_eq(p.as_str(), "[DONE]") {
                Payload::Done
            } else {
                Payload::Data(p)
            }
        },
        None => Payload::Nothing,
    }
}

/// `data: <json>` and a blank line.
pub open spec fn sse_frame_text(v: crate::json::JsonV) -> Seq<char> {
    "data: "@ + json_text(v) + "\n\n"@
}

/// `sse_frame`: a Chat / Responses stream frame.
pub fn sse_frame(v: &Json) -> (r: String)
    ensures
        r@ == sse_frame_text(v@),
{
    let mut s = to_owned("data: ");
    push_str(&mut s, v.to_text().as_str());
    push_str(&mut s, "\n\n");
    s
}

/// `event: <name>`, then `data: <json>`, then a blank line.
pub open spec fn anthropic_sse_text(event: Seq<char>, v: crate::json::JsonV) -> Seq<char> {
    "event: "@ + event + "\ndata: "@ + json_text(v) + "\n\n"@
}

/// `anthropic_sse`: an Anthropic stream frame.
pub fn anthropic_sse(event: &str, v: &Json) -> (r: String)
    ensures
        r@ == anthropic_sse_text(event@, v@),
{
    let mut s = to_owned("event: ");
    push_str(&mut s, event);
    push_str(&mut s, "\ndata: ");
    push_str(&mut s, v.to_text().as_str());
    push_str(&mut s, "\n\n");
    s
}

} // verus!
