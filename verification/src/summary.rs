//! The two requests that summarize a paper. The first asks for a brief; the
//! second continues the same conversation (the brief as the assistant's
//! answer) and asks for a deep recap, so that the second request begins with
//! the first one exactly and the model's prompt cache can serve that part.
use vstd::prelude::*;
use crate::chat::{model_id, model_id_spec};
use crate::error::ArxivError;
use crate::repl::{turn_views, ChatTurn};
use crate::text;
use crate::text::{append_chars, append_str, decimal, decimal_spec, str_chars, string_from_chars, trim, trim_chars};

verus! {

/// Shared system prompt of both requests.
pub const SUMMARY_SYSTEM: &'static str = "You are a precise academic reader. You read arXiv paper LaTeX source and write faithful, information-dense summaries. Output markdown only. Never invent numbers, formulas, or claims that are not present in the provided text. Keep every number exactly as written in the source.";

/// What the first request asks for, at the end of its user message.
pub const BRIEF_INSTRUCTION: &'static str = "Write a structured markdown brief for this paper. The brief will later be used for semantic paper search inside a local workspace. Be detailed but compact, faithful to the provided paper text, and emphasize searchable technical concepts. Output markdown only. Use these sections exactly: # Overview, ## Problem, ## Method, ## Key Contributions, ## Technical Details, ## Search Tags, ## Good Match Queries.";

/// What the second request asks for, as a new user message.
pub const DEEP_INSTRUCTION: &'static str = "Now write a DEEP technical recap of the same paper, in Chinese, based on the paper text and the brief above. Structure: 1. 核心问题 (why existing methods are not enough, with concrete numbers); 2. 核心洞察 (the single key idea); 3. 方法细节 (architecture, training, datasets, hyperparameters, formula intuition); 4. 实验结果 (main numbers, ablations, baselines); 5. 局限性与未解决问题 (author-stated and critical-reader columns). Be detailed enough that a PhD student in the field can discuss the paper without reading the full paper. Preserve numbers at the precision the paper gives. Do NOT include tables from the source — raw tables are appended separately. Output markdown only.";

/// Most characters of one file sent for summarizing; beyond it the middle
/// is dropped and both ends kept.
pub const MAX_CTX_CHARS: usize = 2000000;

/// Answer length asked for the brief.
pub const BRIEF_MAX_TOKENS: u32 = 1400;

/// Answer length asked for the deep recap.
pub const DEEP_MAX_TOKENS: u32 = 16000;

/// A text within [`MAX_CTX_CHARS`] characters as it is; a longer one as its
/// first and last halves of that many, with a note of how many characters
/// were left out between them.
pub open spec fn cap_spec(s: Seq<char>) -> Seq<char> {
    let n = s.len();
    let keep = (MAX_CTX_CHARS / 2) as int;
    if n <= MAX_CTX_CHARS {
        s
    } else {
        s.take(keep) + "\n\n...[truncated by arxivcat: "@ + decimal_spec((n - MAX_CTX_CHARS) as nat)
            + " chars omitted from middle]\n\n"@ + s.subrange(n - keep, n as int)
    }
}

/// Caps one file's text as [`cap_spec`] says.
pub fn cap_text(s: &str) -> (r: String)
    ensures
        r@ == cap_spec(s@),
{
    let v = str_chars(s);
    let n = v.len();
    if n <= MAX_CTX_CHARS {
        return string_from_chars(&v);
    }
    let keep: usize = MAX_CTX_CHARS / 2;
    let mut out: Vec<char> = Vec::new();
    let mut i: usize = 0;
    while i < keep
        invariant
            i <= keep < n == v@.len(),
            keep == MAX_CTX_CHARS / 2,
            out@ == v@.take(i as int),
        decreases keep - i,
    {
        out.push(v[i]);
        assert(v@.take(i + 1) =~= v@.take(i as int).push(v@[i as int]));
        i += 1;
    }
    append_str(&mut out, "\n\n...[truncated by arxivcat: ");
    let d = decimal((n - MAX_CTX_CHARS) as u64);
    append_str(&mut out, d.as_str());
    append_str(&mut out, " chars omitted from middle]\n\n");
    let ghost o0 = out@;
    let mut j: usize = n - keep;
    while j < n
        invariant
            n - keep <= j <= n == v@.len(),
            keep == MAX_CTX_CHARS / 2,
            n > MAX_CTX_CHARS,
            out@ == o0 + v@.subrange(n - keep, j as int),
        decreases n - j,
    {
        out.push(v[j]);
        assert(o0 + v@.subrange(n - keep, j + 1) =~= (o0 + v@.subrange(n - keep, j as int)).push(v@[j as int]));
        j += 1;
    }
    string_from_chars(&out)
}

/// The paper text sent for summarizing: the capped body, then the capped
/// appendix under an `[Appendix]` line; either may be missing.
pub open spec fn paper_text_spec(body: Option<Seq<char>>, appendix: Option<Seq<char>>) -> Seq<char> {
    (match body {
        Some(b) => cap_spec(b),
        None => Seq::empty(),
    }) + (match appendix {
        Some(a) => "\n\n[Appendix]\n"@ + cap_spec(a),
        None => Seq::empty(),
    })
}

/// The first user message: the paper's id and title, its text, and the
/// brief instruction.
pub open spec fn user1_spec(id: Seq<char>, title: Seq<char>, ctx: Seq<char>) -> Seq<char> {
    "arXiv ID: "@ + id + "\nTitle: "@ + title + "\n\nPaper text snippet:\n"@ + ctx + "\n\n"@ + BRIEF_INSTRUCTION@
}

pub open spec fn opt_view(o: Option<String>) -> Option<Seq<char>> {
    match o {
        Some(s) => Some(s@),
        None => None,
    }
}

/// The first user message, from the texts of the paper's `body.tex` and
/// `appendix.tex` (None where a file is absent). A paper with no text but
/// whitespace cannot be summarized.
pub fn build_user1(arxiv_id: &str, title: &str, body: Option<String>, appendix: Option<String>) -> (r: Result<String, ArxivError>)
    ensures
        trim(paper_text_spec(opt_view(body), opt_view(appendix))).len() == 0 ==> (r matches Err(
            ArxivError::Extraction(m),
        ) && m@ == "paper text is empty"@),
        trim(paper_text_spec(opt_view(body), opt_view(appendix))).len() > 0 ==> r is Ok && r->Ok_0@ == user1_spec(
            arxiv_id@,
            title@,
            paper_text_spec(opt_view(body), opt_view(appendix)),
        ),
{
    let mut ctx: Vec<char> = Vec::new();
    match &body {
        Some(b) => {
            let c = cap_text(b.as_str());
            append_str(&mut ctx, c.as_str());
        },
        None => {},
    }
    match &appendix {
        Some(a) => {
            append_str(&mut ctx, "\n\n[Appendix]\n");
            let c = cap_text(a.as_str());
            append_str(&mut ctx, c.as_str());
        },
        None => {},
    }
    assert(ctx@ =~= paper_text_spec(opt_view(body), opt_view(appendix)));
    let t = trim_chars(&ctx);
    if t.len() == 0 {
        return Err(ArxivError::Extraction(String::from_str("paper text is empty")));
    }
    let mut out = str_chars("arXiv ID: ");
    append_str(&mut out, arxiv_id);
    append_str(&mut out, "\nTitle: ");
    append_str(&mut out, title);
    append_str(&mut out, "\n\nPaper text snippet:\n");
    append_chars(&mut out, &ctx);
    append_str(&mut out, "\n\n");
    append_str(&mut out, BRIEF_INSTRUCTION);
    Ok(string_from_chars(&out))
}

/// The messages of the brief request.
pub open spec fn brief_turns_spec(user1: Seq<char>) -> Seq<(Seq<char>, Seq<char>)> {
    seq![("system"@, SUMMARY_SYSTEM@), ("user"@, user1)]
}

/// The messages of the deep request: those of the brief request, the brief
/// as the answer, then the deep instruction.
pub open spec fn deep_turns_spec(user1: Seq<char>, brief: Seq<char>) -> Seq<(Seq<char>, Seq<char>)> {
    brief_turns_spec(user1) + seq![("assistant"@, brief), ("user"@, DEEP_INSTRUCTION@)]
}

fn turn(role: &str, content: &str) -> (t: ChatTurn)
    ensures
        t.role@ == role@,
        t.content@ == content@,
{
    ChatTurn { role: String::from_str(role), content: String::from_str(content) }
}

/// The messages of the brief request.
pub fn brief_turns(user1: &str) -> (r: Vec<ChatTurn>)
    ensures
        turn_views(r@) == brief_turns_spec(user1@),
{
    let mut r: Vec<ChatTurn> = Vec::new();
    r.push(turn("system", SUMMARY_SYSTEM));
    r.push(turn("user", user1));
    assert(turn_views(r@) =~= brief_turns_spec(user1@));
    r
}

/// The messages of the deep request.
pub fn deep_turns(user1: &str, brief: &str) -> (r: Vec<ChatTurn>)
    ensures
        turn_views(r@) == deep_turns_spec(user1@, brief@),
{
    let mut r = brief_turns(user1);
    let ghost r0 = r@;
    r.push(turn("assistant", brief));
    r.push(turn("user", DEEP_INSTRUCTION));
    assert(turn_views(r@) =~= turn_views(r0) + seq![("assistant"@, brief@), ("user"@, DEEP_INSTRUCTION@)]);
    r
}

/// The model the summaries use: the preferred one, or Flash.
pub open spec fn summary_model_spec(pref: Seq<char>) -> Seq<char> {
    match model_id_spec(pref) {
        Some(id) => id,
        None => "deepseek-v4-flash"@,
    }
}

/// The model the summaries use.
pub fn summary_model(pref: &str) -> (r: &'static str)
    ensures
        r@ == summary_model_spec(pref@),
{
    match model_id(pref) {
        Some(id) => id,
        None => "deepseek-v4-flash",
    }
}

/// What asks the model for a conversation's title, after the conversation.
pub const TITLE_INSTRUCTION: &'static str = "Generate a short title for this conversation in the same language as the conversation. Output only the title.";

/// Answer length asked for a title.
pub const TITLE_MAX_TOKENS: u32 = 20;

/// The messages of a title request: the conversation, then the instruction.
pub fn title_turns(conversation: &Vec<ChatTurn>) -> (r: Vec<ChatTurn>)
    ensures
        turn_views(r@) == turn_views(conversation@).push(("user"@, TITLE_INSTRUCTION@)),
{
    let mut r: Vec<ChatTurn> = Vec::new();
    let mut i: usize = 0;
    while i < conversation.len()
        invariant
            i <= conversation@.len(),
            turn_views(r@) == turn_views(conversation@.take(i as int)),
        decreases conversation@.len() - i,
    {
        let t = turn(conversation[i].role.as_str(), conversation[i].content.as_str());
        let ghost r0 = r@;
        r.push(t);
        assert(turn_views(r@) =~= turn_views(r0).push((t.role@, t.content@)));
        assert(conversation@.take(i + 1) =~= conversation@.take(i as int).push(conversation@[i as int]));
        assert(turn_views(conversation@.take(i + 1)) =~= turn_views(conversation@.take(i as int)).push(
            (conversation@[i as int].role@, conversation@[i as int].content@),
        ));
        i += 1;
    }
    assert(conversation@.take(conversation@.len() as int) =~= conversation@);
    let ghost r0 = r@;
    r.push(turn("user", TITLE_INSTRUCTION));
    assert(turn_views(r@) =~= turn_views(r0).push(("user"@, TITLE_INSTRUCTION@)));
    r
}

/// The title in the model's reply, trimmed; a blank reply is an error.
pub fn title_from_reply(content: &str) -> (r: Result<String, ArxivError>)
    ensures
        trim(content@).len() > 0 ==> (r matches Ok(t) && t@ == trim(content@)),
        trim(content@).len() == 0 ==> (r matches Err(ArxivError::Chat(m)) && m@ == "empty title response"@),
{
    let t = trim_chars(&str_chars(content));
    if t.len() == 0 {
        return Err(ArxivError::Chat(String::from_str("empty title response")));
    }
    Ok(string_from_chars(&t))
}

/// A stored brief that can stand as the first answer: present and not blank.
pub open spec fn usable_brief_spec(brief: Option<String>) -> bool {
    match brief {
        Some(b) => trim(b@).len() > 0,
        None => false,
    }
}

/// Whether a stored brief can stand as the first answer, or must be made
/// again.
pub fn usable_brief(brief: &Option<String>) -> (r: bool)
    ensures
        r == usable_brief_spec(*brief),
{
    match brief {
        Some(b) => trim_chars(&str_chars(b.as_str())).len() > 0,
        None => false,
    }
}

/// One table as it is appended to the deep recap.
pub open spec fn table_block(t: Seq<char>) -> Seq<char> {
    "```latex\n"@ + t + "\n```\n\n"@
}

/// The table blocks, in order.
pub open spec fn table_blocks(ts: Seq<Seq<char>>) -> Seq<char>
    decreases ts.len(),
{
    if ts.len() == 0 {
        Seq::empty()
    } else {
        table_blocks(ts.drop_last()) + table_block(ts.last())
    }
}

/// The deep recap as saved: the model's text, then (when the paper has
/// tables) a heading and each source table verbatim in a code block, so no
/// number passes through the model.
pub open spec fn deep_document_spec(deep: Seq<char>, tables: Seq<Seq<char>>) -> Seq<char> {
    if tables.len() == 0 {
        deep
    } else {
        deep + "\n\n---\n\n## 附录：原始数据表格\n\n"@ + table_blocks(tables)
    }
}

/// The deep recap as saved.
pub fn deep_document(deep: &str, tables: &Vec<String>) -> (r: String)
    ensures
        r@ == deep_document_spec(deep@, text::string_views(tables@)),
{
    let mut out = str_chars(deep);
    if tables.len() == 0 {
        return string_from_chars(&out);
    }
    append_str(&mut out, "\n\n---\n\n## 附录：原始数据表格\n\n");
    let ghost o0 = out@;
    let ghost tv = text::string_views(tables@);
    let mut i: usize = 0;
    while i < tables.len()
        invariant
            i <= tables@.len(),
            tv == text::string_views(tables@),
            out@ == o0 + table_blocks(tv.take(i as int)),
        decreases tables@.len() - i,
    {
        append_str(&mut out, "```latex\n");
        append_str(&mut out, tables[i].as_str());
        append_str(&mut out, "\n```\n\n");
        assert(tv.take(i + 1).drop_last() =~= tv.take(i as int));
        assert(out@ =~= o0 + table_blocks(tv.take(i + 1)));
        i += 1;
    }
    assert(tv.take(tables@.len() as int) =~= tv);
    string_from_chars(&out)
}

/// Which summaries a download makes: the brief unless it is switched off;
/// the deep recap unless it is switched off, and only when a brief will be
/// there to continue from (made now, or already usable).
pub open spec fn auto_steps_spec(no_describe: bool, no_deep: bool, brief_ready: bool) -> (bool, bool) {
    (!no_describe, !no_deep && (!no_describe || brief_ready))
}

/// Which summaries a download makes, as [`auto_steps_spec`] says.
pub fn auto_steps(no_describe: bool, no_deep: bool, brief_ready: bool) -> (r: (bool, bool))
    ensures
        r == auto_steps_spec(no_describe, no_deep, brief_ready),
{
    (!no_describe, !no_deep && (!no_describe || brief_ready))
}

/// With the brief switched off and no usable brief on disk, a download asks
/// the model for nothing.
pub proof fn law_no_describe_means_no_requests(no_deep: bool)
    ensures
        auto_steps_spec(true, no_deep, false) == (false, false),
{
}

/// The deep request repeats the brief request word for word before adding
/// the brief and the deep instruction: the two share their prefix.
pub proof fn law_deep_request_extends_brief(user1: Seq<char>, brief: Seq<char>)
    ensures
        deep_turns_spec(user1, brief).take(2) == brief_turns_spec(user1),
        deep_turns_spec(user1, brief).len() == 4,
        deep_turns_spec(user1, brief)[2] == ("assistant"@, brief),
{
    assert(deep_turns_spec(user1, brief).take(2) =~= brief_turns_spec(user1));
}

/// A text within the cap is sent whole; a longer one keeps its first and
/// last halves of the cap exactly.
pub proof fn law_cap_keeps_both_ends(s: Seq<char>)
    ensures
        s.len() <= MAX_CTX_CHARS ==> cap_spec(s) == s,
        s.len() > MAX_CTX_CHARS ==> {
            &&& cap_spec(s).take((MAX_CTX_CHARS / 2) as int) == s.take((MAX_CTX_CHARS / 2) as int)
            &&& cap_spec(s).skip(cap_spec(s).len() - (MAX_CTX_CHARS / 2) as int) == s.skip(s.len() - (MAX_CTX_CHARS / 2) as int)
        },
{
    if s.len() > MAX_CTX_CHARS {
        let keep = (MAX_CTX_CHARS / 2) as int;
        let mid = "\n\n...[truncated by arxivcat: "@ + decimal_spec((s.len() - MAX_CTX_CHARS) as nat)
            + " chars omitted from middle]\n\n"@;
        let c = cap_spec(s);
        assert(c == s.take(keep) + mid + s.subrange(s.len() - keep, s.len() as int)) by {
            assert(s.take(keep) + "\n\n...[truncated by arxivcat: "@ + decimal_spec((s.len() - MAX_CTX_CHARS) as nat)
                + " chars omitted from middle]\n\n"@ + s.subrange(s.len() - keep, s.len() as int)
                =~= s.take(keep) + mid + s.subrange(s.len() - keep, s.len() as int));
        }
        assert(c.take(keep) =~= s.take(keep));
        assert(c.skip(c.len() - keep) =~= s.skip(s.len() - keep));
    }
}

} // verus!
