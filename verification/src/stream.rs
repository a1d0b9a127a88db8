//! The model's answer as it streams in: server-sent event lines, the text
//! each one carries, and the answer assembled from them.
use vstd::prelude::*;
use crate::text;
use crate::text::{append_str, str_chars, string_from_chars, trim_chars};

verus! {

/// The pieces of a text between line feeds, and the piece still open at
/// its end.
pub open spec fn split_lines_acc(s: Seq<char>) -> (Seq<Seq<char>>, Seq<char>)
    decreases s.len(),
{
    if s.len() == 0 {
        (Seq::empty(), Seq::empty())
    } else {
        let (done, cur) = split_lines_acc(s.drop_last());
        if s.last() == '\n' {
            (done.push(cur), Seq::empty())
        } else {
            (done, cur.push(s.last()))
        }
    }
}

/// All pieces of a text between line feeds.
pub open spec fn split_lines(s: Seq<char>) -> Seq<Seq<char>> {
    split_lines_acc(s).0.push(split_lines_acc(s).1)
}

/// What one line of the event stream carries: nothing for a blank line or
/// the end marker `data: [DONE]`, else the line without its `data: ` prefix.
pub open spec fn payload_spec(line: Seq<char>) -> Option<Seq<char>> {
    let t = text::trim(line);
    let pre = "data: "@;
    if t.len() == 0 || t == "data: [DONE]"@ {
        None
    } else if pre.len() <= t.len() && t.take(pre.len() as int) == pre {
        Some(t.skip(pre.len() as int))
    } else {
        Some(t)
    }
}

/// The payloads of a sequence of lines, in order.
pub open spec fn payloads_of(lines: Seq<Seq<char>>) -> Seq<Seq<char>>
    decreases lines.len(),
{
    if lines.len() == 0 {
        Seq::empty()
    } else {
        let rest = payloads_of(lines.drop_last());
        match payload_spec(lines.last()) {
            Some(p) => rest.push(p),
            None => rest,
        }
    }
}

/// The payloads of the event lines in a piece of the stream.
pub open spec fn payloads_spec(s: Seq<char>) -> Seq<Seq<char>> {
    payloads_of(split_lines(s))
}

fn chars_from(v: &[char], k: usize) -> (r: Vec<char>)
    requires
        k <= v@.len(),
    ensures
        r@ == v@.skip(k as int),
{
    let mut r: Vec<char> = Vec::new();
    let mut i = k;
    while i < v.len()
        invariant
            k <= i <= v@.len(),
            r@ == v@.subrange(k as int, i as int),
        decreases v@.len() - i,
    {
        r.push(v[i]);
        assert(v@.subrange(k as int, i + 1) =~= v@.subrange(k as int, i as int).push(v@[i as int]));
        i += 1;
    }
    assert(v@.subrange(k as int, v@.len() as int) =~= v@.skip(k as int));
    r
}

fn seq_eq(a: &[char], b: &[char]) -> (r: bool)
    ensures
        r == (a@ == b@),
{
    if a.len() != b.len() {
        return false;
    }
    let mut i: usize = 0;
    while i < a.len()
        invariant
            i <= a@.len(),
            a@.len() == b@.len(),
            forall|k: int| 0 <= k < i ==> a@[k] == b@[k],
        decreases a@.len() - i,
    {
        if a[i] != b[i] {
            return false;
        }
        i += 1;
    }
    assert(a@ =~= b@);
    true
}

/// The payload of one line of the event stream.
pub fn payload(line: &[char]) -> (r: Option<String>)
    ensures
        match payload_spec(line@) {
            Some(p) => r is Some && r.unwrap()@ == p,
            None => r is None,
        },
{
    let t = trim_chars(line);
    let done = str_chars("data: [DONE]");
    if t.len() == 0 || seq_eq(&t, &done) {
        return None;
    }
    let pre = str_chars("data: ");
    if text::starts_with_chars(&t, &pre) {
        let rest = chars_from(&t, pre.len());
        Some(string_from_chars(&rest))
    } else {
        Some(string_from_chars(&t))
    }
}

/// The payloads of the event lines in a piece of the stream, in order.
/// Lines are split at line feeds and trimmed; blank lines and the end
/// marker carry nothing.
pub fn sse_payloads(chunk: &str) -> (r: Vec<String>)
    ensures
        text::string_views(r@) == payloads_spec(chunk@),
{
    let c = str_chars(chunk);
    let mut out: Vec<String> = Vec::new();
    let mut cur: Vec<char> = Vec::new();
    let ghost mut done: Seq<Seq<char>> = Seq::empty();
    let mut i: usize = 0;
    while i < c.len()
        invariant
            i <= c@.len(),
            c@ == chunk@,
            split_lines_acc(c@.take(i as int)) == (done, cur@),
            text::string_views(out@) == payloads_of(done),
        decreases c@.len() - i,
    {
        assert(c@.take(i + 1).drop_last() =~= c@.take(i as int));
        if c[i] == '\n' {
            let p = payload(&cur);
            let ghost before = out@;
            match p {
                Some(s) => {
                    out.push(s);
                },
                None => {},
            }
            proof {
                assert(done.push(cur@).drop_last() =~= done);
                assert(text::string_views(out@) =~= payloads_of(done.push(cur@)));
                done = done.push(cur@);
            }
            cur = Vec::new();
        } else {
            cur.push(c[i]);
        }
        i += 1;
    }
    assert(c@.take(c@.len() as int) =~= c@);
    let p = payload(&cur);
    match p {
        Some(s) => {
            out.push(s);
        },
        None => {},
    }
    assert(done.push(cur@).drop_last() =~= done);
    assert(text::string_views(out@) =~= payloads_of(done.push(cur@)));
    out
}

/// A text with every run of line feeds shortened to a single one (what
/// replacing `\n{2,}` by `\n` gives).
pub open spec fn collapse_newlines_spec(s: Seq<char>) -> Seq<char>
    decreases s.len(),
{
    if s.len() == 0 {
        Seq::empty()
    } else if s.len() >= 2 && s.last() == '\n' && s[s.len() - 2] == '\n' {
        collapse_newlines_spec(s.drop_last())
    } else {
        collapse_newlines_spec(s.drop_last()).push(s.last())
    }
}

/// Shortens every run of line feeds to a single one.
pub fn collapse_newlines(s: &str) -> (r: String)
    ensures
        r@ == collapse_newlines_spec(s@),
{
    let c = str_chars(s);
    let mut out: Vec<char> = Vec::new();
    let mut i: usize = 0;
    while i < c.len()
        invariant
            i <= c@.len(),
            c@ == s@,
            out@ == collapse_newlines_spec(c@.take(i as int)),
        decreases c@.len() - i,
    {
        let ghost pre = c@.take(i + 1);
        assert(pre.drop_last() =~= c@.take(i as int));
        assert(pre.last() == c@[i as int]);
        if !(i >= 1 && c[i] == '\n' && c[i - 1] == '\n') {
            out.push(c[i]);
        } else {
            assert(pre[pre.len() - 2] == c@[i - 1]);
        }
        i += 1;
    }
    assert(c@.take(c@.len() as int) =~= c@);
    string_from_chars(&out)
}

/// What `serde_json` finds at `choices[0].delta.content` of a JSON text,
/// when the text parses and that value is a string.
pub uninterp spec fn delta_content_spec(data: Seq<char>) -> Option<Seq<char>>;

/// `serde_json::from_str` into a `serde_json::Value`, then the string at
/// `choices[0].delta.content`. The contract names the result as a function
/// of the text; JSON's grammar is left to serde_json.
#[verifier::external_body]
fn delta_content(data: &str) -> (r: Option<String>)
    ensures
        match delta_content_spec(data@) {
            Some(c) => r is Some && r.unwrap()@ == c,
            None => r is None,
        },
{
    let v: serde_json::Value = match serde_json::from_str(data) {
        Ok(v) => v,
        Err(_) => return None,
    };
    v["choices"][0]["delta"]["content"].as_str().map(|c| c.to_string())
}

/// What `String::from_utf8_lossy` gives for some bytes.
pub uninterp spec fn utf8_lossy_spec(bytes: Seq<u8>) -> Seq<char>;

/// `String::from_utf8_lossy` (std): the bytes decoded as UTF-8, with each
/// invalid sequence replaced by U+FFFD. The contract names the result as a
/// function of the bytes; the decoding is left to std.
#[verifier::external_body]
pub(crate) fn utf8_lossy(bytes: &[u8]) -> (r: String)
    ensures
        r@ == utf8_lossy_spec(bytes@),
{
    String::from_utf8_lossy(bytes).into_owned()
}

/// The pieces of answer text carried by a sequence of payloads: the
/// `delta.content` of each, with runs of line feeds shortened.
pub open spec fn tokens_of(payloads: Seq<Seq<char>>) -> Seq<Seq<char>>
    decreases payloads.len(),
{
    if payloads.len() == 0 {
        Seq::empty()
    } else {
        let rest = tokens_of(payloads.drop_last());
        match delta_content_spec(payloads.last()) {
            Some(c) => rest.push(collapse_newlines_spec(c)),
            None => rest,
        }
    }
}

/// The pieces written one after another.
pub open spec fn concat_spec(parts: Seq<Seq<char>>) -> Seq<char>
    decreases parts.len(),
{
    if parts.len() == 0 {
        Seq::empty()
    } else {
        concat_spec(parts.drop_last()) + parts.last()
    }
}

/// One piece of the answer, and whether it is the first of the answer.
pub struct StreamToken {
    pub text: String,
    pub first: bool,
}

/// The answer received so far.
pub struct StreamState {
    pub buffer: String,
    /// No piece has been received yet.
    pub first_chunk: bool,
}

impl StreamState {
    /// Nothing received yet.
    pub fn new() -> (r: StreamState)
        ensures
            r.buffer@.len() == 0,
            r.first_chunk,
    {
        StreamState { buffer: String::new(), first_chunk: true }
    }

    /// Takes in a chunk of the response body: returns the pieces of
    /// answer it carries, in order, and appends them to the answer.
    pub fn absorb_chunk(&mut self, chunk: &[u8]) -> (r: Vec<StreamToken>)
        ensures
            ({
                let toks = tokens_of(payloads_spec(utf8_lossy_spec(chunk@)));
                &&& r@.len() == toks.len()
                &&& forall|k: int| 0 <= k < r@.len() ==> #[trigger] r@[k].text@ == toks[k]
                    && r@[k].first == (old(self).first_chunk && k == 0)
                &&& final(self).buffer@ == old(self).buffer@ + concat_spec(toks)
                &&& final(self).first_chunk == (old(self).first_chunk && toks.len() == 0)
            }),
    {
        let text = utf8_lossy(chunk);
        let ps = sse_payloads(text.as_str());
        let ghost pv = text::string_views(ps@);
        let ghost b0 = self.buffer@;
        let ghost f0 = self.first_chunk;
        let mut buf = str_chars(self.buffer.as_str());
        let mut out: Vec<StreamToken> = Vec::new();
        let mut i: usize = 0;
        while i < ps.len()
            invariant
                i <= ps@.len(),
                pv == text::string_views(ps@),
                pv == payloads_spec(utf8_lossy_spec(chunk@)),
                self.first_chunk == f0,
                out@.len() == tokens_of(pv.take(i as int)).len(),
                forall|k: int| 0 <= k < out@.len() ==> #[trigger] out@[k].text@ == tokens_of(pv.take(i as int))[k],
                forall|k: int| 0 <= k < out@.len() ==> #[trigger] out@[k].first == (f0 && k == 0),
                buf@ == b0 + concat_spec(tokens_of(pv.take(i as int))),
            decreases ps@.len() - i,
        {
            let ghost tk0 = tokens_of(pv.take(i as int));
            assert(pv.take(i + 1).drop_last() =~= pv.take(i as int));
            assert(pv.take(i + 1).last() == ps@[i as int]@);
            match delta_content(ps[i].as_str()) {
                Some(c) => {
                    let t = collapse_newlines(c.as_str());
                    append_str(&mut buf, t.as_str());
                    let first = self.first_chunk && out.len() == 0;
                    let ghost o0 = out@;
                    out.push(StreamToken { text: t, first });
                    assert(tokens_of(pv.take(i + 1)) == tk0.push(t@));
                    assert(concat_spec(tk0.push(t@)) == concat_spec(tk0) + t@) by {
                        assert(tk0.push(t@).drop_last() =~= tk0);
                    }
                    assert forall|k: int| 0 <= k < out@.len() implies #[trigger] out@[k].text@
                        == tokens_of(pv.take(i + 1))[k] && out@[k].first == (f0 && k == 0) by {
                        if k < o0.len() {
                            assert(out@[k] == o0[k]);
                            assert(o0[k].text@ == tk0[k]);
                        } else {
                            assert(out@[k].text@ == t@);
                        }
                    }
                },
                None => {
                    assert(tokens_of(pv.take(i + 1)) == tk0);
                },
            }
            i += 1;
        }
        assert(pv.len() == ps@.len());
        assert(pv.take(ps@.len() as int) =~= pv);
        assert(tokens_of(pv.take(i as int)) == tokens_of(pv));
        if out.len() > 0 {
            self.first_chunk = false;
        }
        self.buffer = string_from_chars(&buf);
        assert(forall|k: int| 0 <= k < out@.len() ==> #[trigger] out@[k].text@ == tokens_of(pv)[k]
            && out@[k].first == (f0 && k == 0));
        out
    }

    /// What is handed on once the stream ends: the answer trimmed, or
    /// nothing when no text came.
    pub fn finish(&self) -> (r: Option<String>)
        ensures
            self.buffer@.len() == 0 ==> r is None,
            self.buffer@.len() > 0 ==> r is Some && r.unwrap()@ == text::trim(self.buffer@),
    {
        if self.buffer.unicode_len() == 0 {
            None
        } else {
            let c = str_chars(self.buffer.as_str());
            let t = trim_chars(&c);
            Some(string_from_chars(&t))
        }
    }
}

} // verus!
