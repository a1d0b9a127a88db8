//! Turning a downloaded LaTeX source into the paper's texts: choosing the
//! main file, flagging inclusions that were not expanded, the extraction
//! result, raw tables, and which archive members are safe to unpack.
use vstd::prelude::*;
use crate::body;
use crate::error::ArxivError;
use crate::inputs;
use crate::manifest;
use crate::tex;
use crate::text;
use crate::text::{append_str, contains_chars, matches_at, str_chars, string_from_chars};
use crate::workspace;

verus! {

// ---------------------------------------------------------------- the main file

/// Whether a LaTeX text declares a document class.
pub fn contains_documentclass(tex_text: &str) -> (r: bool)
    ensures
        r == text::contains_seq(tex_text@, "\\documentclass"@),
{
    let s = str_chars(tex_text);
    let pat = str_chars("\\documentclass");
    contains_chars(&s, &pat)
}

/// A `.tex` file that declares a document class, with the depth it was
/// found at.
pub struct TexCandidate {
    pub depth: usize,
    pub path: String,
}

/// Candidates are ordered by depth, then by path.
pub open spec fn candidate_less(a: TexCandidate, b: TexCandidate) -> bool {
    a.depth < b.depth || (a.depth == b.depth && workspace::text_less(a.path@, b.path@))
}

/// The main file: `main.tex` when it declares a document class, else the
/// first candidate in (depth, path) order, if any.
pub open spec fn main_tex_ok(main_ok: bool, main_path: Seq<char>, cands: Seq<TexCandidate>, r: Option<String>) -> bool {
    if main_ok {
        r matches Some(p) && p@ == main_path
    } else if cands.len() == 0 {
        r is None
    } else {
        r matches Some(p) && exists|i: int| 0 <= i < cands.len() && cands[i].path@ == p@
            && forall|j: int| 0 <= j < cands.len() ==> !#[trigger] candidate_less(cands[j], cands[i])
    }
}

fn candidate_less_exec(a: &TexCandidate, b: &TexCandidate) -> (r: bool)
    ensures
        r == candidate_less(*a, *b),
{
    if a.depth < b.depth {
        true
    } else if a.depth == b.depth {
        let x = str_chars(a.path.as_str());
        let y = str_chars(b.path.as_str());
        workspace::text_less_exec(&x, &y)
    } else {
        false
    }
}

proof fn lemma_text_less_trans(a: Seq<char>, b: Seq<char>, c: Seq<char>)
    requires
        workspace::text_less(a, b),
        workspace::text_less(b, c),
    ensures
        workspace::text_less(a, c),
    decreases a.len(),
{
    if a.len() > 0 && b.len() > 0 && c.len() > 0 && a[0] == b[0] && b[0] == c[0] {
        lemma_text_less_trans(a.drop_first(), b.drop_first(), c.drop_first());
    }
}

proof fn lemma_text_less_irrefl(a: Seq<char>)
    ensures
        !workspace::text_less(a, a),
    decreases a.len(),
{
    if a.len() > 0 {
        lemma_text_less_irrefl(a.drop_first());
    }
}

/// Chooses the main `.tex` file of a source tree. `main_ok` tells whether
/// `main.tex` is a file that declares a document class; `cands` are the
/// other files that do.
pub fn pick_main_tex(main_ok: bool, main_path: &str, cands: &Vec<TexCandidate>) -> (r: Option<String>)
    ensures
        main_tex_ok(main_ok, main_path@, cands@, r),
{
    if main_ok {
        return Some(String::from_str(main_path));
    }
    if cands.len() == 0 {
        return None;
    }
    let mut best: usize = 0;
    let mut i: usize = 1;
    proof {
        lemma_text_less_irrefl(cands@[0].path@);
    }
    while i < cands.len()
        invariant
            1 <= i <= cands@.len(),
            best < i,
            forall|j: int| 0 <= j < i ==> !#[trigger] candidate_less(cands@[j], cands@[best as int]),
        decreases cands@.len() - i,
    {
        if candidate_less_exec(&cands[i], &cands[best]) {
            let ghost old_best = best;
            proof {
                assert forall|j: int| 0 <= j < i + 1 implies !#[trigger] candidate_less(cands@[j], cands@[i as int]) by {
                    if j < i && candidate_less(cands@[j], cands@[i as int]) {
                        let (x, y, z) = (cands@[j], cands@[i as int], cands@[old_best as int]);
                        if x.depth == y.depth && y.depth == z.depth {
                            lemma_text_less_trans(x.path@, y.path@, z.path@);
                        }
                        assert(candidate_less(x, z));
                    }
                    if j == i {
                        lemma_text_less_irrefl(cands@[j].path@);
                    }
                }
            }
            best = i;
        }
        i += 1;
    }
    Some(cands[best].path.clone())
}

// ---------------------------------------------------------------- inclusions left unexpanded

/// A braced `\input{` or `\include{` starts at `p`.
pub open spec fn leftover_at(s: Seq<char>, p: int) -> bool {
    match inputs::keyword_end(s, p) {
        Some(q) => {
            let w = body::ws_end(s, q);
            w < s.len() && s[w] == '{'
        },
        None => false,
    }
}

/// The text still holds a braced `\input`/`\include` (the regular
/// expression `\\(?:input|include)\s*\{`).
pub open spec fn has_leftover(s: Seq<char>) -> bool {
    exists|p: int| 0 <= p < s.len() && #[trigger] leftover_at(s, p)
}

/// A word character (taken here as an ASCII letter, digit or `_`).
pub open spec fn is_word(c: char) -> bool {
    ('a' <= c && c <= 'z') || ('A' <= c && c <= 'Z') || ('0' <= c && c <= '9') || c == '_'
}

/// A word boundary after a word character at index `i - 1`.
pub open spec fn boundary_at(s: Seq<char>, i: int) -> bool {
    i >= s.len() || !is_word(s[i])
}

/// `\input`, white space, then something other than `{`, with the white
/// space starting at `q` (the regular expression `\\input\s+[^\{]`).
pub open spec fn space_form_at(s: Seq<char>, q: int) -> bool {
    let w = body::ws_end(s, q);
    w - q >= 2 || (w - q == 1 && w < s.len() && s[w] != '{')
}

/// `\subfile` or `\import` as a whole word, or a space-form `\input`,
/// starts at `p`.
pub open spec fn silent_at(s: Seq<char>, p: int) -> bool {
    (text::occurs_at(s, "\\subfile"@, p) && boundary_at(s, p + "\\subfile"@.len()))
        || (text::occurs_at(s, "\\import"@, p) && boundary_at(s, p + "\\import"@.len()))
        || (text::occurs_at(s, "\\input"@, p) && space_form_at(s, p + "\\input"@.len()))
}

/// The text holds a `\subfile`, an `\import` or a space-form `\input`.
pub open spec fn has_silent(s: Seq<char>) -> bool {
    exists|p: int| 0 <= p < s.len() && #[trigger] silent_at(s, p)
}

fn is_word_exec(c: char) -> (r: bool)
    ensures
        r == is_word(c),
{
    ('a' <= c && c <= 'z') || ('A' <= c && c <= 'Z') || ('0' <= c && c <= '9') || c == '_'
}

fn ws_end_exec(s: &[char], i: usize) -> (r: usize)
    requires
        i <= s@.len(),
    ensures
        r == body::ws_end(s@, i as int),
        i <= r <= s@.len(),
{
    let mut j = i;
    while j < s.len() && text::is_whitespace(s[j])
        invariant
            i <= j <= s@.len(),
            body::ws_end(s@, i as int) == body::ws_end(s@, j as int),
        decreases s@.len() - j,
    {
        j += 1;
    }
    j
}

/// Whether a braced `\input`/`\include` remains in the text.
pub fn find_leftover(t: &str) -> (r: bool)
    ensures
        r == has_leftover(t@),
{
    let s = str_chars(t);
    let input_kw = str_chars("\\input");
    let include_kw = str_chars("\\include");
    proof {
        reveal_strlit("\\input");
        reveal_strlit("\\include");
    }
    let mut p: usize = 0;
    while p < s.len()
        invariant
            p <= s@.len(),
            s@ == t@,
            input_kw@ == "\\input"@,
            include_kw@ == "\\include"@,
            forall|j: int| 0 <= j < p ==> !#[trigger] leftover_at(s@, j),
        decreases s@.len() - p,
    {
        let q = if matches_at(&s, &input_kw, p) {
            Some(p + input_kw.len())
        } else if matches_at(&s, &include_kw, p) {
            Some(p + include_kw.len())
        } else {
            None
        };
        match q {
            Some(q) => {
                let w = ws_end_exec(&s, q);
                if w < s.len() && s[w] == '{' {
                    assert(leftover_at(s@, p as int));
                    return true;
                }
            },
            None => {},
        }
        p += 1;
    }
    false
}

/// Whether a `\subfile`, an `\import` or a space-form `\input` is in the text.
pub fn find_silent(t: &str) -> (r: bool)
    ensures
        r == has_silent(t@),
{
    let s = str_chars(t);
    let subfile = str_chars("\\subfile");
    let import = str_chars("\\import");
    let input = str_chars("\\input");
    proof {
        reveal_strlit("\\subfile");
        reveal_strlit("\\import");
        reveal_strlit("\\input");
    }
    let n = s.len();
    let mut p: usize = 0;
    while p < n
        invariant
            p <= n,
            n == s@.len(),
            s@ == t@,
            subfile@ == "\\subfile"@,
            import@ == "\\import"@,
            input@ == "\\input"@,
            "\\subfile"@.len() == 8,
            "\\import"@.len() == 7,
            "\\input"@.len() == 6,
            forall|j: int| 0 <= j < p ==> !#[trigger] silent_at(s@, j),
        decreases n - p,
    {
        let a = if matches_at(&s, &subfile, p) {
            p + 8 >= n || !is_word_exec(s[p + 8])
        } else {
            false
        };
        let b = if matches_at(&s, &import, p) {
            p + 7 >= n || !is_word_exec(s[p + 7])
        } else {
            false
        };
        let c = if matches_at(&s, &input, p) {
            let q = p + 6;
            let w = ws_end_exec(&s, q);
            w - q >= 2 || (w - q == 1 && w < n && s[w] != '{')
        } else {
            false
        };
        if a || b || c {
            assert(silent_at(s@, p as int));
            return true;
        }
        p += 1;
    }
    false
}

/// The warnings, in order, for inclusions left unexpanded in a body.
pub open spec fn unexpanded_warnings(body: Seq<char>) -> Seq<Seq<char>> {
    let marked = if has_leftover(body) { leftover_marker() + body } else { body };
    (if has_leftover(body) { seq![leftover_warning()] } else { Seq::empty() }) + (if has_silent(marked) {
        seq![silent_warning()]
    } else {
        Seq::empty()
    })
}

/// The body with a comment line put in front for each kind of inclusion
/// left unexpanded.
pub open spec fn marked_body(body: Seq<char>) -> Seq<char> {
    let marked = if has_leftover(body) { leftover_marker() + body } else { body };
    if has_silent(marked) { silent_marker() + marked } else { marked }
}

pub open spec fn leftover_marker() -> Seq<char> {
    "% [arxivcat] unexpanded \\input/\\include present\n"@
}

pub open spec fn silent_marker() -> Seq<char> {
    "% [arxivcat] unexpanded \\subfile/\\import present\n"@
}

pub open spec fn leftover_warning() -> Seq<char> {
    "unresolved \\input/\\include references remain after expansion"@
}

pub open spec fn silent_warning() -> Seq<char> {
    "\\subfile/\\import or space-form \\input detected (not expanded); content may be missing"@
}

/// Flags inclusions left unexpanded: returns the marked body and the
/// warnings to report.
pub fn mark_unexpanded(body_text: &str) -> (r: (String, Vec<String>))
    ensures
        r.0@ == marked_body(body_text@),
        text::string_views(r.1@) == unexpanded_warnings(body_text@),
{
    let mut warnings: Vec<String> = Vec::new();
    let mut marked = String::from_str(body_text);
    if find_leftover(body_text) {
        warnings.push(String::from_str("unresolved \\input/\\include references remain after expansion"));
        let mut v = str_chars("% [arxivcat] unexpanded \\input/\\include present\n");
        append_str(&mut v, body_text);
        marked = string_from_chars(&v);
    }
    let ghost w0 = warnings@;
    if find_silent(marked.as_str()) {
        warnings.push(String::from_str(
            "\\subfile/\\import or space-form \\input detected (not expanded); content may be missing",
        ));
        let mut v = str_chars("% [arxivcat] unexpanded \\subfile/\\import present\n");
        append_str(&mut v, marked.as_str());
        marked = string_from_chars(&v);
    }
    assert(text::string_views(warnings@) =~= unexpanded_warnings(body_text@));
    (marked, warnings)
}

// ---------------------------------------------------------------- the result

/// What extracting a paper produced.
pub struct ExtractionOutput {
    pub body: String,
    pub appendix: Option<String>,
    pub body_path: String,
    pub appendix_path: Option<String>,
    pub pdf_path: Option<String>,
    /// Non-fatal problems (inclusions left unexpanded).
    pub warnings: Vec<String>,
}

/// Splits an expanded source into the texts written to the paper's folder:
/// `body.tex` (marked when inclusions were left unexpanded) and, when
/// there is one, `appendix.tex`.
pub fn extract_body_from_text(expanded: &str, output_dir: &str) -> (r: Result<ExtractionOutput, ArxivError>)
    ensures
        match body::body_start(expanded@) {
            None => r matches Err(ArxivError::Extraction(m)) && m@ == body::no_start_message(),
            Some(start) => r matches Ok(o) && ({
                let b = body::body_of(expanded@, start);
                &&& o.body@ == marked_body(b)
                &&& text::string_views(o.warnings@) == unexpanded_warnings(b)
                &&& o.body_path@ == workspace::join_path(output_dir@, "body.tex"@)
                &&& o.pdf_path is None
                &&& match body::appendix_part(expanded@, start) {
                    None => o.appendix is None && o.appendix_path is None,
                    Some(a) => (o.appendix matches Some(x) && x@ == a) && (o.appendix_path matches Some(
                        p,
                    ) && p@ == workspace::join_path(output_dir@, "appendix.tex"@)),
                }
            }),
        },
{
    let (b, appendix) = match body::extract_body_and_appendix(expanded) {
        Ok(x) => x,
        Err(e) => {
            return Err(e);
        },
    };
    let (marked, warnings) = mark_unexpanded(b.as_str());
    let body_path = workspace::join_path_exec(output_dir, "body.tex");
    let appendix_path = match &appendix {
        Some(_) => Some(workspace::join_path_exec(output_dir, "appendix.tex")),
        None => None,
    };
    Ok(ExtractionOutput { body: marked, appendix, body_path, appendix_path, pdf_path: None, warnings })
}

/// The raw `tabular` environments of a paper's body, then of its appendix.
pub open spec fn paper_tables(body_text: Option<String>, appendix: Option<String>) -> Seq<Seq<char>> {
    (match body_text {
        Some(b) => tex::tabulars(b@, 0),
        None => Seq::empty(),
    }) + (match appendix {
        Some(a) => tex::tabulars(a@, 0),
        None => Seq::empty(),
    })
}

/// The raw `tabular` environments of `body.tex` and then `appendix.tex`
/// (each `None` when the file could not be read), verbatim and in order.
pub fn extract_tabular(body_text: Option<String>, appendix: Option<String>) -> (r: Vec<String>)
    ensures
        text::string_views(r@) == paper_tables(body_text, appendix),
{
    let mut out: Vec<String> = Vec::new();
    match &body_text {
        Some(b) => tex::collect_tabular(b.as_str(), &mut out),
        None => {},
    }
    let ghost t1 = paper_tables(body_text, None);
    let ghost t2 = paper_tables(None, appendix);
    let ghost mid = out@;
    assert(mid.len() == t1.len());
    assert(forall|k: int| 0 <= k < mid.len() ==> #[trigger] mid[k]@ == t1[k]) by {
        assert forall|k: int| 0 <= k < mid.len() implies #[trigger] mid[k]@ == t1[k] by {
            assert(mid[0 + k]@ == t1[k]);
        }
    }
    match &appendix {
        Some(a) => tex::collect_tabular(a.as_str(), &mut out),
        None => {},
    }
    assert(t1 =~= (match body_text { Some(b) => tex::tabulars(b@, 0), None => Seq::empty() }));
    assert(t2 =~= (match appendix { Some(a) => tex::tabulars(a@, 0), None => Seq::empty() }));
    assert(paper_tables(body_text, appendix) =~= t1 + t2);
    assert(out@.len() == t1.len() + t2.len());
    assert forall|k: int| 0 <= k < out@.len() implies #[trigger] out@[k]@ == (t1 + t2)[k] by {
        if k < t1.len() {
            assert(out@[k] == mid[k]);
        } else {
            assert(out@[t1.len() + (k - t1.len())]@ == t2[k - t1.len()]);
        }
    }
    assert(text::string_views(out@) =~= paper_tables(body_text, appendix));
    out
}

// ---------------------------------------------------------------- the downloaded source

/// The folder a paper's source is cached under: its identifier without
/// version, dots turned into underscores.
pub open spec fn cache_dir_name_spec(arxiv_id: Seq<char>) -> Seq<char> {
    manifest::strip_version_spec(arxiv_id).map_values(|c: char| if c == '.' { '_' } else { c })
}

/// The name of a paper's source cache folder.
pub fn cache_dir_name(arxiv_id: &str) -> (r: String)
    ensures
        r@ == cache_dir_name_spec(arxiv_id@),
{
    let base = manifest::strip_version(arxiv_id);
    let c = str_chars(base.as_str());
    let mut v: Vec<char> = Vec::new();
    let mut i: usize = 0;
    while i < c.len()
        invariant
            i <= c@.len(),
            v@ == c@.take(i as int).map_values(|x: char| if x == '.' { '_' } else { x }),
        decreases c@.len() - i,
    {
        v.push(if c[i] == '.' { '_' } else { c[i] });
        assert(c@.take(i + 1).map_values(|x: char| if x == '.' { '_' } else { x }) =~= c@.take(
            i as int,
        ).map_values(|x: char| if x == '.' { '_' } else { x }).push(
            if c@[i as int] == '.' { '_' } else { c@[i as int] },
        ));
        i += 1;
    }
    assert(c@.take(c@.len() as int) =~= c@);
    string_from_chars(&v)
}

/// The name a paper's PDF is stored under: its identifier without version.
pub fn pdf_file_name(arxiv_id: &str) -> (r: String)
    ensures
        r@ == manifest::strip_version_spec(arxiv_id@) + ".pdf"@,
{
    let base = manifest::strip_version(arxiv_id);
    text::concat_str(base.as_str(), ".pdf")
}

/// What is known of one member of a source archive.
pub struct TarMember {
    /// The member is a symbolic or hard link.
    pub is_link: bool,
    /// Its path inside the archive, when it could be read.
    pub path: Option<String>,
    /// The directory it would be unpacked into could be resolved.
    pub target_resolves: bool,
}

/// The `/`-separated pieces of a path.
pub open spec fn segments_acc(s: Seq<char>) -> (Seq<Seq<char>>, Seq<char>)
    decreases s.len(),
{
    if s.len() == 0 {
        (Seq::empty(), Seq::empty())
    } else {
        let (done, cur) = segments_acc(s.drop_last());
        if s.last() == '/' {
            (done.push(cur), Seq::empty())
        } else {
            (done, cur.push(s.last()))
        }
    }
}

/// A member path escapes the target directory when it is absolute or has a
/// `..` component.
pub open spec fn path_escapes(p: Seq<char>) -> bool {
    (p.len() > 0 && p[0] == '/') || segments_acc(p).0.push(segments_acc(p).1).contains(".."@)
}

/// A member may be unpacked: it is not a link, its path reads, stays inside
/// the target, and the target resolves.
pub open spec fn safe_member_spec(m: TarMember) -> bool {
    !m.is_link && m.target_resolves && match m.path {
        Some(p) => !path_escapes(p@),
        None => false,
    }
}

fn is_dotdot(v: &Vec<char>) -> (r: bool)
    ensures
        r == (v@ == ".."@),
{
    proof {
        reveal_strlit("..");
    }
    if v.len() == 2 && v[0] == '.' && v[1] == '.' {
        assert(v@ =~= ".."@);
        true
    } else {
        false
    }
}

/// Whether an archive member may be unpacked into the target directory.
pub fn is_safe_tar_member(m: &TarMember) -> (r: bool)
    ensures
        r == safe_member_spec(*m),
{
    if m.is_link || !m.target_resolves {
        return false;
    }
    let p = match &m.path {
        Some(p) => p,
        None => {
            return false;
        },
    };
    let s = str_chars(p.as_str());
    if s.len() > 0 && s[0] == '/' {
        return false;
    }
    let mut cur: Vec<char> = Vec::new();
    let ghost mut done: Seq<Seq<char>> = Seq::empty();
    let mut i: usize = 0;
    while i < s.len()
        invariant
            i <= s@.len(),
            s@ == p@,
            m.path == Some(*p),
            !m.is_link,
            m.target_resolves,
            segments_acc(s@.take(i as int)) == (done, cur@),
            !done.contains(".."@),
        decreases s@.len() - i,
    {
        assert(s@.take(i + 1).drop_last() =~= s@.take(i as int));
        if s[i] == '/' {
            if is_dotdot(&cur) {
                proof {
                    assert(segments_acc(s@.take(i + 1)).0 == done.push(cur@));
                    assert(done.push(cur@)[done.len() as int] == ".."@);
                    assert(segments_acc(s@.take(i + 1)).0.contains(".."@));
                    lemma_segments_monotone(s@, i + 1);
                    assert(segments_acc(s@).0.push(segments_acc(s@).1).contains(".."@));
                    assert(path_escapes(p@));
                }
                return false;
            }
            proof {
                assert forall|x: Seq<char>| done.push(cur@).contains(x) implies x != ".."@ by {
                    let k = choose|k: int| 0 <= k < done.push(cur@).len() && done.push(cur@)[k] == x;
                    if k < done.len() {
                        assert(done.contains(done[k]));
                    }
                }
                done = done.push(cur@);
            }
            cur = Vec::new();
        } else {
            cur.push(s[i]);
        }
        i += 1;
    }
    assert(s@.take(s@.len() as int) =~= s@);
    if is_dotdot(&cur) {
        assert(done.push(cur@)[done.len() as int] == ".."@);
        return false;
    }
    assert forall|x: Seq<char>| done.push(cur@).contains(x) implies x != ".."@ by {
        let k = choose|k: int| 0 <= k < done.push(cur@).len() && done.push(cur@)[k] == x;
        if k < done.len() {
            assert(done.contains(done[k]));
        }
    }
    true
}

/// Pieces found in a prefix of a path stay among the pieces of the path.
proof fn lemma_segments_monotone(s: Seq<char>, n: int)
    requires
        0 <= n <= s.len(),
    ensures
        forall|x: Seq<char>| segments_acc(s.take(n)).0.contains(x) ==> #[trigger] segments_acc(s).0.push(
            segments_acc(s).1,
        ).contains(x),
    decreases s.len() - n,
{
    if n == s.len() {
        assert(s.take(n) =~= s);
        assert forall|x: Seq<char>| segments_acc(s).0.contains(x) implies #[trigger] segments_acc(s).0.push(
            segments_acc(s).1,
        ).contains(x) by {
            let k = choose|k: int| 0 <= k < segments_acc(s).0.len() && segments_acc(s).0[k] == x;
            assert(segments_acc(s).0.push(segments_acc(s).1)[k] == x);
        }
    } else {
        lemma_segments_monotone(s, n + 1);
        assert(s.take(n + 1).drop_last() =~= s.take(n));
        assert forall|x: Seq<char>| segments_acc(s.take(n)).0.contains(x) implies #[trigger] segments_acc(s.take(n + 1)).0.contains(x) by {
            let k = choose|k: int| 0 <= k < segments_acc(s.take(n)).0.len() && segments_acc(s.take(n)).0[k] == x;
            if s.take(n + 1).last() == '/' {
                assert(segments_acc(s.take(n + 1)).0[k] == x);
            }
        }
    }
}

/// The text of a file read as bytes, invalid UTF-8 replaced; empty when
/// the file could not be read.
pub fn read_to_string_lossy(bytes: Option<&[u8]>) -> (r: String)
    ensures
        match bytes {
            Some(b) => r@ == crate::stream::utf8_lossy_spec(b@),
            None => r@.len() == 0,
        },
{
    match bytes {
        Some(b) => crate::stream::utf8_lossy(b),
        None => String::new(),
    }
}

/// A text with every run of three or more line feeds cut to two (what
/// replacing `\n{3,}` by `\n\n` gives).
pub open spec fn squeeze_blank_lines(s: Seq<char>) -> Seq<char>
    decreases s.len(),
{
    if s.len() == 0 {
        Seq::empty()
    } else {
        let n = s.len() - 1;
        if s[n] == '\n' && n >= 2 && s[n - 1] == '\n' && s[n - 2] == '\n' {
            squeeze_blank_lines(s.drop_last())
        } else {
            squeeze_blank_lines(s.drop_last()).push(s[n])
        }
    }
}

/// A paper's body for reading: comments removed, runs of blank lines
/// shortened to one blank line.
pub fn strip_for_display(content: &str) -> (r: String)
    ensures
        r@ == squeeze_blank_lines(tex::strip_comments_spec(content@)),
{
    let stripped = tex::strip_latex_comments(content);
    let c = str_chars(stripped.as_str());
    let mut out: Vec<char> = Vec::new();
    let mut i: usize = 0;
    while i < c.len()
        invariant
            i <= c@.len(),
            c@ == tex::strip_comments_spec(content@),
            out@ == squeeze_blank_lines(c@.take(i as int)),
        decreases c@.len() - i,
    {
        let ghost pre = c@.take(i + 1);
        assert(pre.drop_last() =~= c@.take(i as int));
        assert(pre[i as int] == c@[i as int]);
        if i >= 2 && c[i] == '\n' && c[i - 1] == '\n' && c[i - 2] == '\n' {
            assert(pre[i - 1] == c@[i - 1] && pre[i - 2] == c@[i - 2]);
        } else {
            out.push(c[i]);
            proof {
                if i >= 2 {
                    assert(pre[i - 1] == c@[i - 1] && pre[i - 2] == c@[i - 2]);
                }
            }
        }
        i += 1;
    }
    assert(c@.take(c@.len() as int) =~= c@);
    string_from_chars(&out)
}

} // verus!
