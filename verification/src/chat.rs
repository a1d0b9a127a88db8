//! Chat with the language model: the models offered, which parts of a paper
//! go into the prompt, how that context is laid out, and chat sessions.
use vstd::prelude::*;
use crate::text;
use crate::text::{
    append_chars, append_str, decimal, join_strings, str_chars, str_eq, string_from_chars,
    trim_chars,
};

verus! {

// ---------------------------------------------------------------- models

/// The API identifier behind a model's display name.
pub open spec fn model_id_spec(name: Seq<char>) -> Option<Seq<char>> {
    if name == "Flash"@ {
        Some("deepseek-v4-flash"@)
    } else if name == "Pro"@ {
        Some("deepseek-v4-pro"@)
    } else {
        None
    }
}

/// The API identifier of the model called `name` ("Flash" or "Pro").
pub fn model_id(name: &str) -> (r: Option<&'static str>)
    ensures
        match model_id_spec(name@) {
            Some(id) => r is Some && r.unwrap()@ == id,
            None => r is None,
        },
{
    if str_eq(name, "Flash") {
        Some("deepseek-v4-flash")
    } else if str_eq(name, "Pro") {
        Some("deepseek-v4-pro")
    } else {
        None
    }
}

/// What a streamed chat request asks of the API besides the messages.
pub struct StreamRequest {
    /// The API model: the one behind the chosen name, else Flash.
    pub model_id: String,
    /// Whether the model thinks before it answers.
    pub thinking: bool,
    /// How hard it thinks, sent only when it does.
    pub reasoning_effort: Option<String>,
}

/// The model identifier a request names for a model's display name: the
/// one behind it, else the Flash model.
pub open spec fn request_model_spec(name: Seq<char>) -> Seq<char> {
    match model_id_spec(name) {
        Some(id) => id,
        None => "deepseek-v4-flash"@,
    }
}

/// The choices of a streamed request for `model` at `reasoning_effort`:
/// thinking is on unless the effort is `off`, and then the effort is sent.
pub fn stream_request(model: &str, reasoning_effort: &str) -> (r: StreamRequest)
    ensures
        r.model_id@ == request_model_spec(model@),
        r.thinking == (reasoning_effort@ != "off"@),
        r.thinking ==> (r.reasoning_effort matches Some(e) && e@ == reasoning_effort@),
        !r.thinking ==> r.reasoning_effort is None,
{
    let id = match model_id(model) {
        Some(i) => i,
        None => "deepseek-v4-flash",
    };
    let thinking = !str_eq(reasoning_effort, "off");
    StreamRequest {
        model_id: string_from_chars(&str_chars(id)),
        thinking,
        reasoning_effort: if thinking { Some(string_from_chars(&str_chars(reasoning_effort))) } else { None },
    }
}

// ---------------------------------------------------------------- context selection

/// Which parts of a paper are sent to the model.
#[derive(Clone, Copy, Debug, PartialEq, Eq, Structural)]
pub struct ContextSelection {
    pub body: bool,
    pub appendix: bool,
    pub description: bool,
    pub note: bool,
}

/// No part selected.
pub open spec fn nothing_selected() -> ContextSelection {
    ContextSelection { body: false, appendix: false, description: false, note: false }
}

impl Default for ContextSelection {
    fn default() -> (r: Self)
        ensures
            r == nothing_selected(),
    {
        ContextSelection { body: false, appendix: false, description: false, note: false }
    }
}

/// The four texts of a paper, as they are sent to the model.
pub struct ChatContext {
    pub body: String,
    pub appendix: String,
    pub description: String,
    pub note: String,
}

/// The texts that could be read from a paper's folder; `None` where the
/// file is missing or unreadable.
pub struct ContextFiles {
    pub body: Option<String>,
    pub appendix: Option<String>,
    /// The brief summary, as chosen by [`choose_brief`].
    pub description: Option<String>,
    pub note: Option<String>,
}

/// Whether a text is empty once surrounding whitespace is removed.
pub open spec fn is_blank(s: Seq<char>) -> bool {
    text::trim(s).len() == 0
}

/// The brief that stands for a paper's description: `brief_summary.md`
/// unless it is missing or blank, in which case the legacy `description.md`.
pub open spec fn choose_brief_spec(brief: Option<String>, legacy: Option<String>) -> Option<String> {
    match brief {
        Some(b) => if !is_blank(b@) { Some(b) } else { legacy },
        None => legacy,
    }
}

/// Picks the description text from the two files that may hold it.
pub fn choose_brief(brief: Option<String>, legacy: Option<String>) -> (r: Option<String>)
    ensures
        r == choose_brief_spec(brief, legacy),
{
    match brief {
        Some(b) => {
            let c = str_chars(b.as_str());
            let t = trim_chars(&c);
            if t.len() > 0 {
                Some(b)
            } else {
                legacy
            }
        },
        None => legacy,
    }
}

/// Most characters of one file that go into a chat prompt.
pub const MAX_CONTEXT_CHARS: usize = 120000;

/// A text cut to [`MAX_CONTEXT_CHARS`] characters, with a note appended
/// when something was cut.
pub open spec fn truncate_context_spec(s: Seq<char>) -> Seq<char> {
    if s.len() > MAX_CONTEXT_CHARS {
        s.take(MAX_CONTEXT_CHARS as int) + "\n\n...[truncated by arxivcat]"@
    } else {
        s
    }
}

/// Caps one file's text for the chat prompt.
pub fn truncate_context(content: &str) -> (r: String)
    ensures
        r@ == truncate_context_spec(content@),
{
    let mut v = str_chars(content);
    if v.len() > MAX_CONTEXT_CHARS {
        v.truncate(MAX_CONTEXT_CHARS);
        append_str(&mut v, "\n\n...[truncated by arxivcat]");
    }
    string_from_chars(&v)
}

/// One labelled section, present when the part is selected and its file
/// could be read.
pub open spec fn section_spec(on: bool, header: Seq<char>, content: Option<String>, cap: bool) -> Seq<Seq<char>> {
    match content {
        Some(c) => if on {
            seq![header + (if cap { truncate_context_spec(c@) } else { c@ })]
        } else {
            Seq::empty()
        },
        None => Seq::empty(),
    }
}

/// The sections of one paper, in the fixed order body, appendix,
/// description, note. Body and appendix are capped; the others are not.
pub open spec fn sections_spec(f: ContextFiles, sel: ContextSelection) -> Seq<Seq<char>> {
    section_spec(sel.body, "body:\n"@, f.body, true)
        + section_spec(sel.appendix, "appendix:\n"@, f.appendix, true)
        + section_spec(sel.description, "description:\n"@, f.description, false)
        + section_spec(sel.note, "note:\n"@, f.note, false)
}

fn push_section(
    parts: &mut Vec<String>,
    on: bool,
    header: &str,
    content: &Option<String>,
    cap: bool,
)
    ensures
        text::string_views(final(parts)@) == text::string_views(old(parts)@) + section_spec(
            on,
            header@,
            *content,
            cap,
        ),
{
    let ghost before = parts@;
    if on {
        if let Some(c) = content {
            let mut v = str_chars(header);
            if cap {
                let t = truncate_context(c.as_str());
                append_str(&mut v, t.as_str());
            } else {
                append_str(&mut v, c.as_str());
            }
            parts.push(string_from_chars(&v));
            assert(text::string_views(parts@) =~= text::string_views(before) + section_spec(
                on,
                header@,
                *content,
                cap,
            ));
            return;
        }
    }
    assert(text::string_views(parts@) =~= text::string_views(before) + section_spec(
        on,
        header@,
        *content,
        cap,
    ));
}

/// The selected sections of one paper.
pub fn sections(files: &ContextFiles, sel: &ContextSelection) -> (r: Vec<String>)
    ensures
        text::string_views(r@) == sections_spec(*files, *sel),
{
    let mut parts: Vec<String> = Vec::new();
    assert(text::string_views(parts@) =~= Seq::<Seq<char>>::empty());
    push_section(&mut parts, sel.body, "body:\n", &files.body, true);
    push_section(&mut parts, sel.appendix, "appendix:\n", &files.appendix, true);
    push_section(&mut parts, sel.description, "description:\n", &files.description, false);
    push_section(&mut parts, sel.note, "note:\n", &files.note, false);
    assert(sections_spec(*files, *sel) =~= Seq::<Seq<char>>::empty() + section_spec(
        sel.body,
        "body:\n"@,
        files.body,
        true,
    ) + section_spec(sel.appendix, "appendix:\n"@, files.appendix, true) + section_spec(
        sel.description,
        "description:\n"@,
        files.description,
        false,
    ) + section_spec(sel.note, "note:\n"@, files.note, false));
    parts
}

/// The context of a chat about one paper.
pub open spec fn side_context_spec(f: ContextFiles, sel: ContextSelection) -> Seq<char> {
    let p = sections_spec(f, sel);
    if p.len() == 0 {
        "(no context selected)"@
    } else {
        text::join_spec(p, "\n\n"@)
    }
}

/// The context of a chat about one paper: its selected sections separated
/// by blank lines, or a placeholder when nothing is there to send.
pub fn build_side_chat_context(files: &ContextFiles, selection: &ContextSelection) -> (r: String)
    ensures
        r@ == side_context_spec(*files, *selection),
{
    let parts = sections(files, selection);
    if parts.len() == 0 {
        String::from_str("(no context selected)")
    } else {
        join_strings(&parts, "\n\n")
    }
}

/// What a chat over the whole workspace knows of one paper.
pub struct PaperContext {
    pub arxiv_id: String,
    pub title: String,
    pub files: ContextFiles,
}

/// The block for the `n`-th paper (counting from one).
pub open spec fn paper_block_spec(n: nat, p: PaperContext, secs: Seq<Seq<char>>) -> Seq<char> {
    "Paper ["@ + text::decimal_spec(n) + "]\narXiv ID: "@ + p.arxiv_id@ + "\nTitle: "@ + p.title@
        + "\n---\n"@ + text::join_spec(secs, "\n\n"@)
}

/// The blocks of the papers that have a selected section, in order; a
/// paper's number is its place in the whole list.
pub open spec fn global_parts_spec(papers: Seq<PaperContext>, sel: ContextSelection) -> Seq<Seq<char>>
    decreases papers.len(),
{
    if papers.len() == 0 {
        Seq::empty()
    } else {
        let rest = global_parts_spec(papers.drop_last(), sel);
        let secs = sections_spec(papers.last().files, sel);
        if secs.len() == 0 {
            rest
        } else {
            rest.push(paper_block_spec(papers.len(), papers.last(), secs))
        }
    }
}

/// The context of a chat over the whole workspace.
pub open spec fn global_context_spec(papers: Seq<PaperContext>, sel: ContextSelection) -> Seq<char> {
    let p = global_parts_spec(papers, sel);
    if p.len() == 0 {
        "(no context selected or no matching papers)"@
    } else {
        text::join_spec(p, "\n\n---\n\n"@)
    }
}

/// The context of a chat over the whole workspace: one numbered block per
/// paper with something selected, or a placeholder.
pub fn build_global_chat_context(papers: &Vec<PaperContext>, selection: &ContextSelection) -> (r: String)
    ensures
        r@ == global_context_spec(papers@, *selection),
{
    let mut parts: Vec<String> = Vec::new();
    let mut i: usize = 0;
    while i < papers.len()
        invariant
            i <= papers@.len(),
            text::string_views(parts@) == global_parts_spec(papers@.take(i as int), *selection),
        decreases papers@.len() - i,
    {
        let p = &papers[i];
        let secs = sections(&p.files, selection);
        assert(papers@.take(i + 1).drop_last() =~= papers@.take(i as int));
        assert(papers@.take(i + 1).last() == papers@[i as int]);
        if secs.len() > 0 {
            let mut v = str_chars("Paper [");
            let n = decimal((i + 1) as u64);
            append_str(&mut v, n.as_str());
            append_str(&mut v, "]\narXiv ID: ");
            append_str(&mut v, p.arxiv_id.as_str());
            append_str(&mut v, "\nTitle: ");
            append_str(&mut v, p.title.as_str());
            append_str(&mut v, "\n---\n");
            let body = join_strings(&secs, "\n\n");
            append_str(&mut v, body.as_str());
            let ghost before = parts@;
            parts.push(string_from_chars(&v));
            assert(text::string_views(parts@) =~= text::string_views(before).push(v@));
        }
        i += 1;
    }
    assert(papers@.take(papers@.len() as int) =~= papers@);
    if parts.len() == 0 {
        String::from_str("(no context selected or no matching papers)")
    } else {
        join_strings(&parts, "\n\n---\n\n")
    }
}

// ---------------------------------------------------------------- sessions

/// `chrono::NaiveDateTime`, a calendar date and time of day.
#[verifier::external_type_specification]
#[verifier::external_body]
pub struct ExNaiveDateTime(chrono::NaiveDateTime);

/// `chrono::Local::now`: the current date and time in the local time zone,
/// as a calendar date and time of day. Nothing is stated of the value: it
/// depends on the clock.
#[verifier::external_body]
fn local_now() -> (t: chrono::NaiveDateTime) {
    chrono::Local::now().naive_local()
}

/// `%Y` as chrono writes a year: four digits, zero-padded, for years 0 to
/// 9999; other years with a sign before at least four digits.
pub open spec fn year_text(y: int) -> Seq<char> {
    if 0 <= y <= 9999 {
        text::zero_padded(y as nat, 4)
    } else if y > 9999 {
        "+"@ + text::zero_padded(y as nat, 4)
    } else {
        "-"@ + text::zero_padded((-y) as nat, 4)
    }
}

/// `%m`, `%d`, `%H`, `%M`, `%S`: a number zero-padded to two digits.
pub open spec fn two_digits(n: nat) -> Seq<char> {
    text::zero_padded(n, 2)
}

/// The ranges chrono documents for a date and time: the years it supports,
/// months 1 to 12, days 1 to 31, hours 0 to 23, minutes 0 to 59, seconds 0
/// to 60 (a leap second).
pub open spec fn time_fields_ok(y: int, mo: nat, d: nat, h: nat, mi: nat, s: nat) -> bool {
    -262144 <= y <= 262143 && 1 <= mo <= 12 && 1 <= d <= 31 && h <= 23 && mi <= 59 && s <= 60
}

/// The text of a date and time written with one of the patterns this
/// library uses: `%Y%m%d_%H%M%S`, `%Y-%m-%d %H:%M` or `%Y-%m-%dT%H:%M:%S`.
pub open spec fn time_text(pattern: Seq<char>, y: int, mo: nat, d: nat, h: nat, mi: nat, s: nat) -> Seq<char> {
    if pattern == "%Y%m%d_%H%M%S"@ {
        year_text(y) + two_digits(mo) + two_digits(d) + "_"@ + two_digits(h) + two_digits(mi) + two_digits(s)
    } else if pattern == "%Y-%m-%d %H:%M"@ {
        year_text(y) + "-"@ + two_digits(mo) + "-"@ + two_digits(d) + " "@ + two_digits(h) + ":"@ + two_digits(mi)
    } else {
        year_text(y) + "-"@ + two_digits(mo) + "-"@ + two_digits(d) + "T"@ + two_digits(h) + ":"@
            + two_digits(mi) + ":"@ + two_digits(s)
    }
}

/// `t` is the text of some date and time within chrono's ranges, written
/// with `pattern`.
pub open spec fn is_time_text(pattern: Seq<char>, t: Seq<char>) -> bool {
    exists|y: int, mo: nat, d: nat, h: nat, mi: nat, s: nat|
        time_fields_ok(y, mo, d, h, mi, s) && t == #[trigger] time_text(pattern, y, mo, d, h, mi, s)
}

/// `NaiveDateTime::format` with a `strftime` pattern, rendered to a `String`.
/// The patterns allowed are the valid ones this library uses. What chrono
/// documents for their specifiers is stated: the text is the pattern with
/// the year and the zero-padded month, day, hour, minute and second of some
/// date and time within chrono's ranges. Which date and time is not stated:
/// the value is opaque here.
#[verifier::external_body]
fn format_time(t: &chrono::NaiveDateTime, pattern: &str) -> (r: String)
    requires
        pattern@ == "%Y-%m-%d %H:%M"@ || pattern@ == "%Y-%m-%dT%H:%M:%S"@ || pattern@
            == "%Y%m%d_%H%M%S"@,
    ensures
        is_time_text(pattern@, r@),
{
    t.format(pattern).to_string()
}

/// One message of a conversation.
#[derive(Clone, Debug)]
pub struct ChatMessage {
    /// "user" or "assistant".
    pub speaker: String,
    pub content: String,
}

impl ChatMessage {
    /// A message by `speaker`.
    pub fn new(speaker: &str, content: &str) -> (r: ChatMessage)
        ensures
            r.speaker@ == speaker@,
            r.content@ == content@,
    {
        ChatMessage { speaker: String::from_str(speaker), content: String::from_str(content) }
    }

    /// A field-by-field copy.
    pub fn duplicate(&self) -> (r: ChatMessage)
        ensures
            r == *self,
    {
        ChatMessage { speaker: self.speaker.clone(), content: self.content.clone() }
    }
}

/// A stored conversation.
#[derive(Clone, Debug)]
pub struct ChatSession {
    /// Where the session is stored; empty until it is first saved.
    pub path: String,
    pub title: String,
    /// "paper" or "global".
    pub kind: String,
    pub model: String,
    /// "high" when the model reasons at length, "off" when it does not.
    pub reasoning_effort: String,
    pub messages: Vec<ChatMessage>,
    pub context_selection: ContextSelection,
    pub updated_at: String,
}

/// The title of a new session, given the time of day written as
/// `YYYY-MM-DD HH:MM`.
pub open spec fn session_title_spec(kind: Seq<char>, arxiv_id: Seq<char>, minute: Seq<char>) -> Seq<char> {
    if kind == "global"@ {
        "Global Chat "@ + minute
    } else {
        (if arxiv_id.len() == 0 { "Paper"@ } else { arxiv_id }) + " "@ + minute
    }
}

/// The fields every new session starts with.
pub open spec fn fresh_session(r: ChatSession, kind: Seq<char>) -> bool {
    &&& r.path@.len() == 0
    &&& r.kind@ == kind
    &&& r.model@ == "Flash"@
    &&& r.reasoning_effort@ == "high"@
    &&& r.messages@.len() == 0
    &&& r.context_selection == nothing_selected()
}

impl ChatSession {
    /// A new, empty session created at the given time, written as
    /// `YYYY-MM-DD HH:MM` (`minute`) and `YYYY-MM-DDTHH:MM:SS` (`second`).
    pub fn new_at(kind: &str, arxiv_id: &str, minute: &str, second: &str) -> (r: ChatSession)
        ensures
            fresh_session(r, kind@),
            r.title@ == session_title_spec(kind@, arxiv_id@, minute@),
            r.updated_at@ == second@,
    {
        let mut t: Vec<char> = Vec::new();
        if str_eq(kind, "global") {
            append_str(&mut t, "Global Chat ");
        } else {
            if arxiv_id.unicode_len() == 0 {
                append_str(&mut t, "Paper");
            } else {
                append_str(&mut t, arxiv_id);
            }
            append_str(&mut t, " ");
        }
        append_str(&mut t, minute);
        ChatSession {
            path: String::new(),
            title: string_from_chars(&t),
            kind: String::from_str(kind),
            model: String::from_str("Flash"),
            reasoning_effort: String::from_str("high"),
            messages: Vec::new(),
            context_selection: ContextSelection::default(),
            updated_at: String::from_str(second),
        }
    }

    /// A new, empty session created now (local time).
    pub fn new(kind: &str, arxiv_id: &str) -> (r: ChatSession)
        ensures
            fresh_session(r, kind@),
            exists|minute: Seq<char>| r.title@ == session_title_spec(kind@, arxiv_id@, minute),
    {
        let now = local_now();
        let minute = format_time(&now, "%Y-%m-%d %H:%M");
        let second = format_time(&now, "%Y-%m-%dT%H:%M:%S");
        let r = ChatSession::new_at(kind, arxiv_id, minute.as_str(), second.as_str());
        assert(r.title@ == session_title_spec(kind@, arxiv_id@, minute@));
        r
    }
}

/// The file name of a session saved at a given time (`YYYYMMDD_HHMMSS`),
/// with a numeric suffix from the second attempt on.
pub open spec fn session_file_name_spec(base: Seq<char>, attempt: nat) -> Seq<char> {
    if attempt == 0 {
        base + ".json"@
    } else {
        base + "_"@ + text::decimal_spec(attempt) + ".json"@
    }
}

/// The `attempt`-th candidate file name for a session (the first is
/// `<base>.json`, then `<base>_1.json`, `<base>_2.json`, ...).
pub fn session_file_name(base: &str, attempt: u64) -> (r: String)
    ensures
        r@ == session_file_name_spec(base@, attempt as nat),
{
    let mut v = str_chars(base);
    if attempt > 0 {
        append_str(&mut v, "_");
        let d = decimal(attempt);
        append_str(&mut v, d.as_str());
    }
    append_str(&mut v, ".json");
    string_from_chars(&v)
}

/// The time stamp used in a session's file name: the local date and time
/// now, as `YYYYMMDD_HHMMSS`.
pub fn session_file_stamp() -> (r: String)
    ensures
        is_time_text("%Y%m%d_%H%M%S"@, r@),
{
    let now = local_now();
    format_time(&now, "%Y%m%d_%H%M%S")
}

/// A session is written only when it holds at least one message.
pub fn should_save_session(session: &ChatSession) -> (r: bool)
    ensures
        r == (session.messages@.len() > 0),
{
    session.messages.len() > 0
}

/// Each selected part whose file was read is sent under its own header: the
/// body and the appendix capped, the description and the note whole.
pub proof fn law_selected_parts_are_sent(f: ContextFiles, sel: ContextSelection)
    ensures
        sel.body && f.body is Some ==> sections_spec(f, sel).contains("body:\n"@ + truncate_context_spec(f.body->0@)),
        sel.appendix && f.appendix is Some
            ==> sections_spec(f, sel).contains("appendix:\n"@ + truncate_context_spec(f.appendix->0@)),
        sel.description && f.description is Some
            ==> sections_spec(f, sel).contains("description:\n"@ + f.description->0@),
        sel.note && f.note is Some ==> sections_spec(f, sel).contains("note:\n"@ + f.note->0@),
{
    let b = section_spec(sel.body, "body:\n"@, f.body, true);
    let a = section_spec(sel.appendix, "appendix:\n"@, f.appendix, true);
    let d = section_spec(sel.description, "description:\n"@, f.description, false);
    let n = section_spec(sel.note, "note:\n"@, f.note, false);
    let all = b + a + d + n;
    assert(sections_spec(f, sel) == all);
    if sel.body && f.body is Some {
        assert(all[0] == b[0]);
    }
    if sel.appendix && f.appendix is Some {
        assert(all[b.len() as int] == a[0]);
    }
    if sel.description && f.description is Some {
        assert(all[(b.len() + a.len()) as int] == d[0]);
    }
    if sel.note && f.note is Some {
        assert(all[(b.len() + a.len() + d.len()) as int] == n[0]);
    }
}

/// How many sections are sent: one per selected part whose file was read.
pub proof fn law_section_count(f: ContextFiles, sel: ContextSelection)
    ensures
        sections_spec(f, sel).len() == (if sel.body && f.body is Some { 1int } else { 0 })
            + (if sel.appendix && f.appendix is Some { 1int } else { 0 })
            + (if sel.description && f.description is Some { 1int } else { 0 })
            + (if sel.note && f.note is Some { 1int } else { 0 }),
{
}

/// What is sent depends only on the selected parts: files that agree on
/// every selected part give the same sections, whatever the others hold.
pub proof fn law_unselected_parts_are_ignored(f: ContextFiles, g: ContextFiles, sel: ContextSelection)
    requires
        sel.body ==> f.body == g.body,
        sel.appendix ==> f.appendix == g.appendix,
        sel.description ==> f.description == g.description,
        sel.note ==> f.note == g.note,
    ensures
        sections_spec(f, sel) == sections_spec(g, sel),
{
}

} // verus!
