//! The command-line contract: exit codes, error kinds and their
//! retryability, view names, paper lookup outcomes, workspace resolution,
//! token masking and the outcome of a batch download.
use vstd::prelude::*;
use crate::text;
use crate::text::{str_chars, string_from_chars, concat_str};
use crate::error::ArxivError;
use crate::workspace::{Workspace, Paper};
use crate::workspace;
use crate::ids;
use crate::extract;

verus! {

// Exit codes (frozen contract).
pub const EXIT_OK: i32 = 0;
pub const EXIT_OTHER: i32 = 1;
pub const EXIT_USAGE: i32 = 2;
pub const EXIT_NETWORK: i32 = 3;
pub const EXIT_CONFIG: i32 = 4;
pub const EXIT_DATA: i32 = 5;
pub const EXIT_IO: i32 = 6;
pub const EXIT_CHAT: i32 = 7;
pub const EXIT_PARTIAL: i32 = 8;
pub const EXIT_INTERRUPTED: i32 = 130;

pub open spec fn exit_code_spec(err: ArxivError) -> i32 {
    match err {
        ArxivError::Io(_) => EXIT_IO,
        ArxivError::Http(_) | ArxivError::HttpStatus(_) => EXIT_NETWORK,
        ArxivError::Parse(_) | ArxivError::Extraction(_) | ArxivError::NotFound(_) | ArxivError::Json(_) => EXIT_DATA,
        ArxivError::Chat(_) => EXIT_CHAT,
        ArxivError::Config(_) => EXIT_CONFIG,
        ArxivError::Other(_) => EXIT_OTHER,
    }
}

/// The process exit code for an error.
pub fn exit_code_for(err: &ArxivError) -> (c: i32)
    ensures
        c == exit_code_spec(*err),
{
    match err {
        ArxivError::Io(_) => EXIT_IO,
        ArxivError::Http(_) | ArxivError::HttpStatus(_) => EXIT_NETWORK,
        ArxivError::Parse(_) | ArxivError::Extraction(_) | ArxivError::NotFound(_) | ArxivError::Json(_) => EXIT_DATA,
        ArxivError::Chat(_) => EXIT_CHAT,
        ArxivError::Config(_) => EXIT_CONFIG,
        ArxivError::Other(_) => EXIT_OTHER,
    }
}

pub open spec fn kind_spec(err: ArxivError) -> Seq<char> {
    match err {
        ArxivError::Io(_) => "io"@,
        ArxivError::Http(_) | ArxivError::HttpStatus(_) => "http"@,
        ArxivError::Parse(_) => "parse"@,
        ArxivError::Extraction(_) => "extraction"@,
        ArxivError::Chat(_) => "chat"@,
        ArxivError::Config(_) => "config"@,
        ArxivError::NotFound(_) => "not_found"@,
        ArxivError::Json(_) => "json"@,
        ArxivError::Other(_) => "other"@,
    }
}

/// The `kind` field of the JSON error envelope for an error.
pub fn kind_for(err: &ArxivError) -> (k: &'static str)
    ensures
        k@ == kind_spec(*err),
{
    match err {
        ArxivError::Io(_) => "io",
        ArxivError::Http(_) | ArxivError::HttpStatus(_) => "http",
        ArxivError::Parse(_) => "parse",
        ArxivError::Extraction(_) => "extraction",
        ArxivError::Chat(_) => "chat",
        ArxivError::Config(_) => "config",
        ArxivError::NotFound(_) => "not_found",
        ArxivError::Json(_) => "json",
        ArxivError::Other(_) => "other",
    }
}

pub open spec fn retryable_spec(kind: Seq<char>, message: Seq<char>) -> bool {
    if kind == "http"@ {
        true
    } else if kind == "chat"@ {
        !text::contains_seq(message, "401"@) && !text::contains_seq(message, "403"@)
    } else {
        false
    }
}

/// Whether an error of this kind and message is worth retrying: network
/// errors always; chat errors unless they are authorisation failures (401/403,
/// retrying would only cost money); nothing else.
pub fn retryable_for(kind: &str, message: &str) -> (b: bool)
    ensures
        b == retryable_spec(kind@, message@),
{
    if text::str_eq(kind, "http") {
        return true;
    }
    if text::str_eq(kind, "chat") {
        let m = str_chars(message);
        let a = str_chars("401");
        let b = str_chars("403");
        return !text::contains_chars(&m, &a) && !text::contains_chars(&m, &b);
    }
    false
}

pub open spec fn view_file_spec(view: Seq<char>) -> Option<Seq<char>> {
    if view == "body"@ {
        Some("body.tex"@)
    } else if view == "appendix"@ {
        Some("appendix.tex"@)
    } else if view == "note"@ {
        Some("note.txt"@)
    } else if view == "description"@ || view == "brief"@ {
        Some("brief_summary.md"@)
    } else if view == "deep"@ {
        Some("deep_summary.md"@)
    } else {
        None
    }
}

pub open spec fn unknown_view_message(view: Seq<char>) -> Seq<char> {
    "unknown view '"@ + view + "'. options: body, appendix, note, description|brief, deep"@
}

/// The file shown for a preview view name (`description` is an alias of `brief`).
pub fn resolve_view_file(view: &str) -> (r: Result<&'static str, String>)
    ensures
        match view_file_spec(view@) {
            Some(f) => r matches Ok(x) && x@ == f,
            None => r matches Err(m) && m@ == unknown_view_message(view@),
        },
{
    if text::str_eq(view, "body") {
        Ok("body.tex")
    } else if text::str_eq(view, "appendix") {
        Ok("appendix.tex")
    } else if text::str_eq(view, "note") {
        Ok("note.txt")
    } else if text::str_eq(view, "description") || text::str_eq(view, "brief") {
        Ok("brief_summary.md")
    } else if text::str_eq(view, "deep") {
        Ok("deep_summary.md")
    } else {
        let a = concat_str("unknown view '", view);
        Err(concat_str(a.as_str(), "'. options: body, appendix, note, description|brief, deep"))
    }
}

/// The result of resolving a paper query.
pub enum PaperLookup {
    Found(Paper),
    NotFound,
    /// Several papers match; their IDs, in listing order.
    Ambiguous(Vec<String>),
}

pub open spec fn ids_of(s: Seq<Paper>) -> Seq<Seq<char>> {
    s.map_values(|p: Paper| p.arxiv_id@)
}

/// The query a lookup goes by: the query itself when it matches a paper,
/// else the arXiv ID found in it, if any.
pub open spec fn lookup_query(papers: Seq<Paper>, query: Seq<char>) -> Option<Seq<char>> {
    if workspace::matches_by_id(papers, query).len() > 0 {
        Some(query)
    } else {
        ids::extract_arxiv_id_spec(query)
    }
}

/// The papers a query resolves to: the matches of the query itself, or, when
/// there are none and the query holds an arXiv ID (e.g. a URL), the matches
/// of that ID.
pub open spec fn lookup_matches(papers: Seq<Paper>, query: Seq<char>) -> Seq<Paper> {
    match lookup_query(papers, query) {
        Some(q) => workspace::matches_by_id(papers, q),
        None => Seq::empty(),
    }
}

/// The matches are copies of one paper found by its exact identifier.
pub open spec fn exact_hit(papers: Seq<Paper>, query: Seq<char>) -> bool {
    match lookup_query(papers, query) {
        Some(q) => papers.filter(workspace::exact_match(q)).len() > 0,
        None => false,
    }
}

/// A paper in its canonical folder, named by its version-less identifier.
pub open spec fn is_canonical(p: Paper) -> bool {
    p.folder_name@ == extract::cache_dir_name_spec(p.arxiv_id@)
}

/// `m[i]` is the first paper of `m` in its canonical folder.
pub open spec fn first_canonical_at(m: Seq<Paper>, i: int) -> bool {
    0 <= i < m.len() && is_canonical(m[i]) && forall|j: int| 0 <= j < i ==> !#[trigger] is_canonical(m[j])
}

fn ids_of_refs(v: &Vec<&Paper>) -> (r: Vec<String>)
    ensures
        r@.map_values(|s: String| s@) == ids_of(workspace::derefs(v@)),
{
    let mut r: Vec<String> = Vec::new();
    let mut i: usize = 0;
    while i < v.len()
        invariant
            i <= v@.len(),
            r@.len() == i,
            forall|k: int| 0 <= k < i ==> #[trigger] r@[k]@ == v@[k].arxiv_id@,
        decreases v@.len() - i,
    {
        let id = v[i].arxiv_id.clone();
        assert(id@ == v@[i as int].arxiv_id@);
        r.push(id);
        i += 1;
    }
    assert(r@.map_values(|s: String| s@) =~= ids_of(workspace::derefs(v@)));
    r
}

/// The index of the first paper in its canonical folder, if any.
fn first_canonical(v: &Vec<&Paper>) -> (r: Option<usize>)
    ensures
        match r {
            Some(i) => first_canonical_at(workspace::derefs(v@), i as int),
            None => forall|j: int| 0 <= j < v@.len() ==> !#[trigger] is_canonical(workspace::derefs(v@)[j]),
        },
{
    let ghost d = workspace::derefs(v@);
    let mut i: usize = 0;
    while i < v.len()
        invariant
            i <= v@.len(),
            d == workspace::derefs(v@),
            forall|j: int| 0 <= j < i ==> !#[trigger] is_canonical(d[j]),
        decreases v@.len() - i,
    {
        let canon = extract::cache_dir_name(v[i].arxiv_id.as_str());
        if text::str_eq(canon.as_str(), v[i].folder_name.as_str()) {
            assert(d[i as int] == *v@[i as int]);
            return Some(i);
        }
        assert(d[i as int] == *v@[i as int]);
        i += 1;
    }
    None
}

/// Resolves a paper query: exactly one match is found, none is not found.
/// Several matches are an ambiguity (never silently resolved), except that
/// an exact identifier matching a paper kept both in its canonical folder
/// and in older folders finds the canonical one.
pub fn lookup_paper(ws: &Workspace, query: &str) -> (r: PaperLookup)
    ensures
        ({
            let m = lookup_matches(ws.papers@, query@);
            let canon = exact_hit(ws.papers@, query@) && exists|i: int| #[trigger] first_canonical_at(m, i);
            &&& m.len() == 0 ==> r is NotFound
            &&& m.len() == 1 ==> (r matches PaperLookup::Found(p) && p == m[0])
            &&& m.len() > 1 && canon ==> (r matches PaperLookup::Found(p) && exists|i: int|
                #[trigger] first_canonical_at(m, i) && p == m[i])
            &&& m.len() > 1 && !canon ==> (r matches PaperLookup::Ambiguous(ids) && ids@.map_values(|s: String| s@) == ids_of(m))
        }),
{
    let mut found = ws.find_papers_by_id(query);
    let mut used: String = String::from_str(query);
    if found.len() == 0 {
        match ids::extract_arxiv_id(query) {
            Some(id) => {
                found = ws.find_papers_by_id(id.as_str());
                used = id;
            },
            None => {},
        }
    }
    let ghost m = lookup_matches(ws.papers@, query@);
    assert(workspace::derefs(found@) == m);
    if found.len() == 1 {
        assert(workspace::derefs(found@)[0] == *found@[0]);
        return PaperLookup::Found(found[0].duplicate());
    }
    if found.len() == 0 {
        return PaperLookup::NotFound;
    }
    assert(lookup_query(ws.papers@, query@) == Some(used@));
    let exact = ws.exact_papers(used.as_str());
    if exact.len() > 0 {
        match first_canonical(&found) {
            Some(i) => {
                assert(workspace::derefs(found@)[i as int] == *found@[i as int]);
                return PaperLookup::Found(found[i].duplicate());
            },
            None => {
                assert(!exists|i: int| #[trigger] first_canonical_at(m, i));
            },
        }
    }
    PaperLookup::Ambiguous(ids_of_refs(&found))
}

/// Finds a paper by ID, query or URL: the first match of the query itself,
/// else the first match of the arXiv ID found in it.
pub fn find_paper(workspace: &Workspace, query: &str) -> (r: Option<Paper>)
    ensures
        ({
            let direct = workspace::matches_by_id(workspace.papers@, query@);
            if direct.len() > 0 {
                r == Some(direct[0])
            } else {
                match ids::extract_arxiv_id_spec(query@) {
                    Some(id) => {
                        let m = workspace::matches_by_id(workspace.papers@, id);
                        if m.len() > 0 { r == Some(m[0]) } else { r is None }
                    },
                    None => r is None,
                }
            }
        }),
{
    if let Some(p) = workspace.find_paper_by_id(query) {
        return Some(p.duplicate());
    }
    match ids::extract_arxiv_id(query) {
        Some(id) => match workspace.find_paper_by_id(id.as_str()) {
            Some(p) => Some(p.duplicate()),
            None => None,
        },
        None => None,
    }
}

/// The workspace to use: the `-w` flag when given (only if it exists; a
/// missing flagged path is never replaced by the configured one), else the
/// configured workspace when it exists.
pub fn resolve_workspace(flag: Option<&str>, flag_exists: bool, configured: Option<&str>, configured_exists: bool) -> (r: Option<String>)
    ensures
        match flag {
            Some(f) => if flag_exists { r matches Some(x) && x@ == f@ } else { r is None },
            None => match configured {
                Some(c) => if configured_exists { r matches Some(x) && x@ == c@ } else { r is None },
                None => r is None,
            },
        },
{
    match flag {
        Some(f) => if flag_exists { Some(string_from_chars(&str_chars(f))) } else { None },
        None => match configured {
            Some(c) => if configured_exists { Some(string_from_chars(&str_chars(c))) } else { None },
            None => None,
        },
    }
}

pub open spec fn mask_spec(t: Seq<char>) -> Seq<char> {
    if t.len() > 8 {
        t.take(4) + "..."@ + t.skip(t.len() - 4)
    } else {
        "***"@
    }
}

/// The token as shown to the user: its first and last four characters, or
/// `***` for short tokens.
pub fn mask_token(token: &str) -> (r: String)
    ensures
        r@ == mask_spec(token@),
{
    let t = str_chars(token);
    if t.len() > 8 {
        let head = string_from_chars(&t[0..4]);
        let tail = string_from_chars(&t[t.len() - 4..t.len()]);
        let a = concat_str(head.as_str(), "...");
        let r = concat_str(a.as_str(), tail.as_str());
        assert(t@.subrange(0, 4) =~= t@.take(4));
        assert(t@.subrange(t@.len() - 4, t@.len() as int) =~= t@.skip(t@.len() - 4));
        r
    } else {
        string_from_chars(&str_chars("***"))
    }
}

/// Parallel download jobs actually used: clamped to 1..=8.
pub fn clamp_jobs(jobs: u8) -> (r: u8)
    ensures
        r == (if jobs < 1 { 1 } else if jobs > 8 { 8 } else { jobs }),
{
    if jobs < 1 { 1 } else if jobs > 8 { 8 } else { jobs }
}

pub open spec fn batch_status_spec(cancelled: bool, success: nat, failed: nat) -> Seq<char> {
    if cancelled {
        "cancelled"@
    } else if failed == 0 {
        "done"@
    } else if success > 0 {
        "partial"@
    } else {
        "failed"@
    }
}

pub open spec fn batch_exit_spec(cancelled: bool, success: nat, failed: nat) -> i32 {
    if cancelled {
        EXIT_INTERRUPTED
    } else if failed > 0 && success > 0 {
        EXIT_PARTIAL
    } else if failed > 0 {
        EXIT_OTHER
    } else {
        EXIT_OK
    }
}

/// The `status` of a batch download and its exit code: 130 when interrupted,
/// 0 when all succeeded, 8 when some failed, 1 when all failed.
pub fn batch_outcome(cancelled: bool, success: usize, failed: usize) -> (r: (&'static str, i32))
    ensures
        r.0@ == batch_status_spec(cancelled, success as nat, failed as nat),
        r.1 == batch_exit_spec(cancelled, success as nat, failed as nat),
{
    if cancelled {
        ("cancelled", EXIT_INTERRUPTED)
    } else if failed == 0 {
        ("done", EXIT_OK)
    } else if success > 0 {
        ("partial", EXIT_PARTIAL)
    } else {
        ("failed", EXIT_OTHER)
    }
}

/// What a `/models` check answered, from its HTTP status: valid on success,
/// an explanatory error otherwise.
pub fn token_check_result(success: bool, status: u16) -> (r: Result<(), String>)
    ensures
        success ==> r is Ok,
        !success && status == 401 ==> (r matches Err(m) && m@ == "authentication failed: invalid token"@),
        !success && status == 429 ==> (r matches Err(m) && m@ == "rate limit exceeded \u{2014} wait and retry"@),
        !success && status == 403 ==> (r matches Err(m) && m@ == "access forbidden \u{2014} token may lack permissions"@),
        !success && status != 401 && status != 429 && status != 403 ==> (r matches Err(m)
            && m@ == "API returned HTTP "@ + text::decimal_spec(status as nat)),
{
    if success {
        return Ok(());
    }
    if status == 401 {
        Err(string_from_chars(&str_chars("authentication failed: invalid token")))
    } else if status == 429 {
        Err(string_from_chars(&str_chars("rate limit exceeded \u{2014} wait and retry")))
    } else if status == 403 {
        Err(string_from_chars(&str_chars("access forbidden \u{2014} token may lack permissions")))
    } else {
        let d = text::decimal(status as u64);
        Err(concat_str("API returned HTTP ", d.as_str()))
    }
}

// ---------------------------------------------------------------- the command line

/// The parsed command line.
pub struct Cli {
    /// `-w`: the workspace to use instead of the configured one.
    pub workspace: Option<String>,
    /// `--json`: machine-readable output.
    pub json: bool,
    pub command: Commands,
}

/// The top-level commands.
pub enum Commands {
    Workspace(WorkspaceCmd),
    Paper(PaperCmd),
    Chat(ChatCmd),
    Token(TokenCmd),
    Internal(InternalCmd),
}

pub enum WorkspaceCmd {
    Open { path: String },
    Scan,
}

pub enum TagCmd {
    List,
    Add { id_or_query: String, tag: String },
    Remove { id_or_query: String, tag: String },
    /// `set`: replace the whole tag list.
    SetTags { id_or_query: String, tags: String },
    Clear { id_or_query: String },
}

pub enum PaperCmd {
    List,
    Download { id_or_url: String, no_describe: bool, no_deep: bool },
    DownloadAll { jobs: u8, force: bool, no_describe: bool, no_deep: bool },
    Tag(TagCmd),
    Preview { id_or_query: String, view: String },
    Note { id_or_query: String, text: Vec<String>, edit: bool },
    Strip { id_or_query: String },
    Open { id_or_query: String },
    Pdf { id_or_query: String },
    Info { id_or_query: String },
    Describe { id_or_query: String },
    DeepSummarize { id_or_query: String, force: bool },
    Remove { id_or_query: String },
    Redownload { id_or_query: String },
}

pub enum ChatCmd {
    Side { id_or_query: String },
    Global,
}

pub enum InternalCmd {
    DeepWorker { paper_dir: String },
    DownloadWorker { paper_dir: String, no_describe: bool, no_deep: bool },
}

pub enum TokenCmd {
    Status,
    /// `set`: store a token.
    SetToken,
    Validate,
}

/// The usage error of a command that has no JSON output, if it has none:
/// the chat commands, `paper note`, `paper strip`, `token set` and
/// `token validate`.
pub open spec fn json_refusal_spec(c: Commands) -> Option<Seq<char>> {
    match c {
        Commands::Chat(_) => Some("--json is not supported for chat commands"@),
        Commands::Paper(PaperCmd::Note { .. }) => Some("--json is not supported for paper note"@),
        Commands::Paper(PaperCmd::Strip { .. }) => Some("--json is not supported for paper strip"@),
        Commands::Token(TokenCmd::SetToken) => Some("--json is not supported for token set"@),
        Commands::Token(TokenCmd::Validate) => Some("--json is not supported for token validate"@),
        _ => None,
    }
}

/// Why `--json` is refused for a command, when it is.
pub fn json_refusal(c: &Commands) -> (r: Option<&'static str>)
    ensures
        match json_refusal_spec(*c) {
            Some(m) => r matches Some(x) && x@ == m,
            None => r is None,
        },
{
    match c {
        Commands::Chat(_) => Some("--json is not supported for chat commands"),
        Commands::Paper(PaperCmd::Note { .. }) => Some("--json is not supported for paper note"),
        Commands::Paper(PaperCmd::Strip { .. }) => Some("--json is not supported for paper strip"),
        Commands::Token(TokenCmd::SetToken) => Some("--json is not supported for token set"),
        Commands::Token(TokenCmd::Validate) => Some("--json is not supported for token validate"),
        _ => None,
    }
}

/// The text of a note given as words on the command line: the words joined
/// with single spaces.
pub fn note_text(words: &Vec<String>) -> (r: String)
    ensures
        r@ == text::join_spec(text::string_views(words@), " "@),
{
    text::join_strings(words, " ")
}

/// The pieces of a text between commas, built left to right: the finished
/// pieces and the piece still open.
pub open spec fn comma_acc(s: Seq<char>) -> (Seq<Seq<char>>, Seq<char>)
    decreases s.len(),
{
    if s.len() == 0 {
        (Seq::empty(), Seq::empty())
    } else {
        let (done, cur) = comma_acc(s.drop_last());
        if s.last() == ',' {
            (done.push(cur), Seq::empty())
        } else {
            (done, cur.push(s.last()))
        }
    }
}

/// The trimmed pieces that are not blank, in order.
pub open spec fn nonblank_trimmed(pieces: Seq<Seq<char>>) -> Seq<Seq<char>>
    decreases pieces.len(),
{
    if pieces.len() == 0 {
        Seq::empty()
    } else {
        let rest = nonblank_trimmed(pieces.drop_last());
        let t = text::trim(pieces.last());
        if t.len() > 0 { rest.push(t) } else { rest }
    }
}

/// The tags of a comma-separated list: each piece trimmed, blank pieces
/// left out.
pub open spec fn tag_list_spec(tags: Seq<char>) -> Seq<Seq<char>> {
    nonblank_trimmed(comma_acc(tags).0.push(comma_acc(tags).1))
}

fn push_trimmed(out: &mut Vec<String>, piece: &Vec<char>)
    ensures
        text::string_views(final(out)@) == ({
            let t = text::trim(piece@);
            if t.len() > 0 { text::string_views(old(out)@).push(t) } else { text::string_views(old(out)@) }
        }),
{
    let t = text::trim_chars(piece);
    if t.len() > 0 {
        let ghost o0 = out@;
        out.push(string_from_chars(&t));
        assert(text::string_views(out@) =~= text::string_views(o0).push(t@));
    }
}

/// The tags of a comma-separated list (`paper tag set`).
pub fn parse_tag_list(tags: &str) -> (r: Vec<String>)
    ensures
        text::string_views(r@) == tag_list_spec(tags@),
{
    let c = str_chars(tags);
    let mut out: Vec<String> = Vec::new();
    let mut cur: Vec<char> = Vec::new();
    let ghost mut done: Seq<Seq<char>> = Seq::empty();
    let mut i: usize = 0;
    while i < c.len()
        invariant
            i <= c@.len(),
            c@ == tags@,
            comma_acc(c@.take(i as int)) == (done, cur@),
            text::string_views(out@) == nonblank_trimmed(done),
        decreases c@.len() - i,
    {
        assert(c@.take(i + 1).drop_last() =~= c@.take(i as int));
        if c[i] == ',' {
            push_trimmed(&mut out, &cur);
            proof {
                assert(done.push(cur@).drop_last() =~= done);
                done = done.push(cur@);
            }
            cur = Vec::new();
        } else {
            cur.push(c[i]);
        }
        i += 1;
    }
    assert(c@.take(c@.len() as int) =~= c@);
    push_trimmed(&mut out, &cur);
    assert(done.push(cur@).drop_last() =~= done);
    out
}

} // verus!
