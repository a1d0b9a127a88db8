//! Splitting an expanded LaTeX source into its body and its appendix.
//!
//! The split is driven by a handful of LaTeX markers (`\begin{abstract}`,
//! `\section{`, `\appendix`, `\bibliography{`, a concluding section, ...).
//! Each marker is described here as a small grammar over characters, searched
//! leftmost-first like a regular-expression scan.
use vstd::prelude::*;
use crate::text;
use crate::text::{str_chars, string_from_chars};
use crate::error::ArxivError;

verus! {

/// The markers that steer the split.
#[derive(Clone, Copy, PartialEq, Eq)]
pub enum Pat {
    /// `\begin{abstract}`
    Abstract,
    /// `\section` `\s*` `*`? `\s*` `{`
    Section,
    /// `\chapter` `\s*` `*`? `\s*` `{`
    Chapter,
    /// `\begin{document}`
    DocBegin,
    /// `\end{document}`
    DocEnd,
    /// `\section` `*`? `\s*` `{` ... `}` whose braces name a conclusion or summary
    Conclusion,
    /// `\appendix` followed by white space or the end of text, or `\begin{appendix}`
    Appendix,
    /// `\bibliography` or `\bibliographystyle`, `\s*`, `{`
    Bibliography,
    /// `\bibliography` or `\bibliographystyle`, `\s*`, `{`, argument, `}`
    BibCommand,
    /// `\clearpage`
    ClearPage,
}

pub open spec fn lit_abstract() -> Seq<char> { "\\begin{abstract}"@ }
pub open spec fn lit_section() -> Seq<char> { "\\section"@ }
pub open spec fn lit_chapter() -> Seq<char> { "\\chapter"@ }
pub open spec fn lit_doc_begin() -> Seq<char> { "\\begin{document}"@ }
pub open spec fn lit_doc_end() -> Seq<char> { "\\end{document}"@ }
pub open spec fn lit_appendix() -> Seq<char> { "\\appendix"@ }
pub open spec fn lit_begin_appendix() -> Seq<char> { "\\begin{appendix}"@ }
pub open spec fn lit_bibliography() -> Seq<char> { "\\bibliography"@ }
pub open spec fn lit_style() -> Seq<char> { "style"@ }
pub open spec fn lit_clearpage() -> Seq<char> { "\\clearpage"@ }
pub open spec fn lit_close() -> Seq<char> { "}"@ }
pub open spec fn lit_conclusion_u() -> Seq<char> { "Conclusion"@ }
pub open spec fn lit_conclusion_l() -> Seq<char> { "conclusion"@ }
pub open spec fn lit_summary_u() -> Seq<char> { "Summary"@ }
pub open spec fn lit_summary_l() -> Seq<char> { "summary"@ }

/// End of the run of white space starting at `i`.
pub open spec fn ws_end(s: Seq<char>, i: int) -> int
    decreases s.len() - i,
{
    if 0 <= i < s.len() && text::is_ws(s[i]) {
        ws_end(s, i + 1)
    } else {
        i
    }
}

/// `cmd`, then (when `ws_before_star`) `\s*`, an optional `*`, `\s*` and `{`:
/// the index just after the `{`.
pub open spec fn cmd_brace_end(s: Seq<char>, p: int, cmd: Seq<char>, ws_before_star: bool) -> Option<int> {
    if !text::occurs_at(s, cmd, p) {
        None
    } else {
        let q = p + cmd.len();
        let q1 = if ws_before_star { ws_end(s, q) } else { q };
        let q2 = if q1 < s.len() && s[q1] == '*' { ws_end(s, q1 + 1) } else { ws_end(s, q1) };
        if q2 < s.len() && s[q2] == '{' {
            Some(q2 + 1)
        } else {
            None
        }
    }
}

/// `\bibliography`, an optional `style`, `\s*` and `{`: the index after the `{`.
pub open spec fn bib_brace_end(s: Seq<char>, p: int) -> Option<int> {
    if !text::occurs_at(s, lit_bibliography(), p) {
        None
    } else {
        let q = p + lit_bibliography().len();
        let q1 = if text::occurs_at(s, lit_style(), q) { q + lit_style().len() } else { q };
        let q2 = ws_end(s, q1);
        if q2 < s.len() && s[q2] == '{' {
            Some(q2 + 1)
        } else {
            None
        }
    }
}

/// A brace argument naming a conclusion or a summary.
pub open spec fn names_conclusion(c: Seq<char>) -> bool {
    text::contains_seq(c, lit_conclusion_u()) || text::contains_seq(c, lit_conclusion_l())
        || text::contains_seq(c, lit_summary_u()) || text::contains_seq(c, lit_summary_l())
}

/// Whether marker `k` matches at `p`, and if so the index just after the match.
pub open spec fn pat_at(s: Seq<char>, k: Pat, p: int) -> Option<int> {
    match k {
        Pat::Abstract => if text::occurs_at(s, lit_abstract(), p) { Some(p + lit_abstract().len()) } else { None },
        Pat::Section => cmd_brace_end(s, p, lit_section(), true),
        Pat::Chapter => cmd_brace_end(s, p, lit_chapter(), true),
        Pat::DocBegin => if text::occurs_at(s, lit_doc_begin(), p) { Some(p + lit_doc_begin().len()) } else { None },
        Pat::DocEnd => if text::occurs_at(s, lit_doc_end(), p) { Some(p + lit_doc_end().len()) } else { None },
        Pat::Conclusion => match cmd_brace_end(s, p, lit_section(), false) {
            None => None,
            Some(b) => match text::find_from(s, lit_close(), b) {
                None => None,
                Some(e) => if names_conclusion(s.subrange(b, e)) { Some(e + 1) } else { None },
            },
        },
        Pat::Appendix => {
            let q = p + lit_appendix().len();
            if text::occurs_at(s, lit_appendix(), p) && (q == s.len() || (q < s.len() && text::is_ws(s[q]))) {
                Some(q)
            } else if text::occurs_at(s, lit_begin_appendix(), p) {
                Some(p + lit_begin_appendix().len())
            } else {
                None
            }
        },
        Pat::Bibliography => bib_brace_end(s, p),
        Pat::BibCommand => match bib_brace_end(s, p) {
            None => None,
            Some(b) => match text::find_from(s, lit_close(), b) {
                None => None,
                Some(e) => Some(e + 1),
            },
        },
        Pat::ClearPage => if text::occurs_at(s, lit_clearpage(), p) { Some(p + lit_clearpage().len()) } else { None },
    }
}

/// Leftmost start, at or after `from`, of a match of `k`.
pub open spec fn first_match(s: Seq<char>, k: Pat, from: int) -> Option<int>
    decreases s.len() + 1 - from,
{
    if from < 0 || from > s.len() {
        None
    } else if pat_at(s, k, from) is Some {
        Some(from)
    } else {
        first_match(s, k, from + 1)
    }
}

/// What `first_match` finds: the first place at or after `from` where the
/// pattern matches, if any.
pub proof fn lemma_first_match(s: Seq<char>, k: Pat, from: int)
    requires
        0 <= from,
    ensures
        match first_match(s, k, from) {
            Some(m) => from <= m <= s.len() && pat_at(s, k, m) is Some && forall|j: int|
                from <= j < m ==> #[trigger] pat_at(s, k, j) is None,
            None => forall|j: int| from <= j <= s.len() ==> #[trigger] pat_at(s, k, j) is None,
        },
    decreases s.len() + 1 - from,
{
    if from <= s.len() && pat_at(s, k, from) is None {
        lemma_first_match(s, k, from + 1);
    }
}

proof fn lemma_ws_end(s: Seq<char>, i: int)
    requires
        0 <= i <= s.len(),
    ensures
        i <= ws_end(s, i) <= s.len(),
        forall|j: int| i <= j < ws_end(s, i) ==> text::is_ws(#[trigger] s[j]),
        ws_end(s, i) < s.len() ==> !text::is_ws(s[ws_end(s, i)]),
    decreases s.len() - i,
{
    if i < s.len() && text::is_ws(s[i]) {
        lemma_ws_end(s, i + 1);
    }
}

proof fn reveal_lits()
    ensures
        lit_abstract().len() == 16,
        lit_section().len() == 8,
        lit_chapter().len() == 8,
        lit_doc_begin().len() == 16,
        lit_doc_end().len() == 14,
        lit_appendix().len() == 9,
        lit_begin_appendix().len() == 16,
        lit_bibliography().len() == 13,
        lit_style().len() == 5,
        lit_clearpage().len() == 10,
        lit_close() =~= seq!['}'],
{
    reveal_strlit("\\begin{abstract}");
    reveal_strlit("\\section");
    reveal_strlit("\\chapter");
    reveal_strlit("\\begin{document}");
    reveal_strlit("\\end{document}");
    reveal_strlit("\\appendix");
    reveal_strlit("\\begin{appendix}");
    reveal_strlit("\\bibliography");
    reveal_strlit("style");
    reveal_strlit("\\clearpage");
    reveal_strlit("}");
}

/// Every match is non-empty and ends inside the text.
pub proof fn lemma_pat_end(s: Seq<char>, k: Pat, p: int)
    requires
        0 <= p,
        pat_at(s, k, p) is Some,
    ensures
        p < pat_at(s, k, p)->0 <= s.len(),
{
    reveal_lits();
    match k {
        Pat::Section => {
            lemma_ws_end(s, p + lit_section().len());
            let q1 = ws_end(s, p + lit_section().len());
            if q1 < s.len() && s[q1] == '*' { lemma_ws_end(s, q1 + 1); } else { lemma_ws_end(s, q1); }
        },
        Pat::Chapter => {
            lemma_ws_end(s, p + lit_chapter().len());
            let q1 = ws_end(s, p + lit_chapter().len());
            if q1 < s.len() && s[q1] == '*' { lemma_ws_end(s, q1 + 1); } else { lemma_ws_end(s, q1); }
        },
        Pat::Conclusion => {
            let q = p + lit_section().len();
            if q < s.len() && s[q] == '*' { lemma_ws_end(s, q + 1); } else { lemma_ws_end(s, q); }
            let b = cmd_brace_end(s, p, lit_section(), false)->0;
            text::lemma_find_from(s, lit_close(), b);
        },
        Pat::Bibliography => {
            let q = p + lit_bibliography().len();
            let q1 = if text::occurs_at(s, lit_style(), q) { q + lit_style().len() } else { q };
            lemma_ws_end(s, q1);
        },
        Pat::BibCommand => {
            let q = p + lit_bibliography().len();
            let q1 = if text::occurs_at(s, lit_style(), q) { q + lit_style().len() } else { q };
            lemma_ws_end(s, q1);
            let b = bib_brace_end(s, p)->0;
            text::lemma_find_from(s, lit_close(), b);
        },
        _ => {},
    }
}

/// The marker texts, held as character vectors.
pub struct Lits {
    pub abstract_: Vec<char>,
    pub section: Vec<char>,
    pub chapter: Vec<char>,
    pub doc_begin: Vec<char>,
    pub doc_end: Vec<char>,
    pub appendix: Vec<char>,
    pub begin_appendix: Vec<char>,
    pub bibliography: Vec<char>,
    pub style: Vec<char>,
    pub clearpage: Vec<char>,
    pub close: Vec<char>,
    pub conc_u: Vec<char>,
    pub conc_l: Vec<char>,
    pub sum_u: Vec<char>,
    pub sum_l: Vec<char>,
}

impl Lits {
    /// Each field holds the literal its name says.
    pub open spec fn wf(&self) -> bool {
        &&& self.abstract_@ == lit_abstract()
        &&& self.section@ == lit_section()
        &&& self.chapter@ == lit_chapter()
        &&& self.doc_begin@ == lit_doc_begin()
        &&& self.doc_end@ == lit_doc_end()
        &&& self.appendix@ == lit_appendix()
        &&& self.begin_appendix@ == lit_begin_appendix()
        &&& self.bibliography@ == lit_bibliography()
        &&& self.style@ == lit_style()
        &&& self.clearpage@ == lit_clearpage()
        &&& self.close@ == lit_close()
        &&& self.conc_u@ == lit_conclusion_u()
        &&& self.conc_l@ == lit_conclusion_l()
        &&& self.sum_u@ == lit_summary_u()
        &&& self.sum_l@ == lit_summary_l()
    }

    /// The literals the split looks for.
    pub fn new() -> (l: Lits)
        ensures
            l.wf(),
    {
        Lits {
            abstract_: str_chars("\\begin{abstract}"),
            section: str_chars("\\section"),
            chapter: str_chars("\\chapter"),
            doc_begin: str_chars("\\begin{document}"),
            doc_end: str_chars("\\end{document}"),
            appendix: str_chars("\\appendix"),
            begin_appendix: str_chars("\\begin{appendix}"),
            bibliography: str_chars("\\bibliography"),
            style: str_chars("style"),
            clearpage: str_chars("\\clearpage"),
            close: str_chars("}"),
            conc_u: str_chars("Conclusion"),
            conc_l: str_chars("conclusion"),
            sum_u: str_chars("Summary"),
            sum_l: str_chars("summary"),
        }
    }
}

fn ws_end_exec(s: &[char], i: usize) -> (r: usize)
    requires
        i <= s@.len(),
    ensures
        r as int == ws_end(s@, i as int),
        i <= r <= s@.len(),
{
    let mut j = i;
    while j < s.len() && text::is_whitespace(s[j])
        invariant
            i <= j <= s@.len(),
            ws_end(s@, i as int) == ws_end(s@, j as int),
        decreases s@.len() - j,
    {
        j += 1;
    }
    j
}

fn cmd_brace_end_exec(s: &[char], p: usize, cmd: &[char], ws_before_star: bool) -> (r: Option<usize>)
    requires
        p <= s@.len(),
    ensures
        text::opt_int(r) == cmd_brace_end(s@, p as int, cmd@, ws_before_star),
{
    if !text::matches_at(s, cmd, p) {
        return None;
    }
    let q = p + cmd.len();
    let q1 = if ws_before_star { ws_end_exec(s, q) } else { q };
    let q2 = if q1 < s.len() && s[q1] == '*' { ws_end_exec(s, q1 + 1) } else { ws_end_exec(s, q1) };
    if q2 < s.len() && s[q2] == '{' {
        Some(q2 + 1)
    } else {
        None
    }
}

fn bib_brace_end_exec(s: &[char], p: usize, lits: &Lits) -> (r: Option<usize>)
    requires
        p <= s@.len(),
        lits.wf(),
    ensures
        text::opt_int(r) == bib_brace_end(s@, p as int),
{
    if !text::matches_at(s, &lits.bibliography, p) {
        return None;
    }
    let q = p + lits.bibliography.len();
    let q1 = if text::matches_at(s, &lits.style, q) { q + lits.style.len() } else { q };
    let q2 = ws_end_exec(s, q1);
    if q2 < s.len() && s[q2] == '{' {
        Some(q2 + 1)
    } else {
        None
    }
}

/// Index of the first `}` at or after `b`.
fn close_brace(s: &[char], b: usize, lits: &Lits) -> (r: Option<usize>)
    requires
        lits.wf(),
    ensures
        text::opt_int(r) == text::find_from(s@, lit_close(), b as int),
{
    text::find_chars(s, &lits.close, b)
}

/// Whether marker `k` matches at `p` of `s`, and where the match ends.
pub fn pat_at_exec(s: &[char], k: Pat, p: usize, lits: &Lits) -> (r: Option<usize>)
    requires
        p <= s@.len(),
        lits.wf(),
    ensures
        text::opt_int(r) == pat_at(s@, k, p as int),
{
    proof {
        reveal_lits();
    }
    let n = s.len();
    match k {
        Pat::Abstract => if text::matches_at(s, &lits.abstract_, p) { Some(p + lits.abstract_.len()) } else { None },
        Pat::Section => cmd_brace_end_exec(s, p, &lits.section, true),
        Pat::Chapter => cmd_brace_end_exec(s, p, &lits.chapter, true),
        Pat::DocBegin => if text::matches_at(s, &lits.doc_begin, p) { Some(p + lits.doc_begin.len()) } else { None },
        Pat::DocEnd => if text::matches_at(s, &lits.doc_end, p) { Some(p + lits.doc_end.len()) } else { None },
        Pat::Conclusion => match cmd_brace_end_exec(s, p, &lits.section, false) {
            None => None,
            Some(b) => match close_brace(s, b, lits) {
                None => None,
                Some(e) => {
                    proof {
                        text::lemma_find_from(s@, lit_close(), b as int);
                    }
                    let inner = &s[b..e];
                    assert(inner@ == s@.subrange(b as int, e as int));
                    if text::contains_chars(inner, &lits.conc_u) || text::contains_chars(inner, &lits.conc_l)
                        || text::contains_chars(inner, &lits.sum_u) || text::contains_chars(inner, &lits.sum_l)
                    {
                        Some(e + 1)
                    } else {
                        None
                    }
                },
            },
        },
        Pat::Appendix => {
            if text::matches_at(s, &lits.appendix, p) {
                let q = p + lits.appendix.len();
                if q == s.len() || (q < s.len() && text::is_whitespace(s[q])) {
                    return Some(q);
                }
            }
            if text::matches_at(s, &lits.begin_appendix, p) {
                Some(p + lits.begin_appendix.len())
            } else {
                None
            }
        },
        Pat::Bibliography => bib_brace_end_exec(s, p, lits),
        Pat::BibCommand => match bib_brace_end_exec(s, p, lits) {
            None => None,
            Some(b) => match close_brace(s, b, lits) {
                None => None,
                Some(e) => {
                    proof {
                        text::lemma_find_from(s@, lit_close(), b as int);
                    }
                    Some(e + 1)
                },
            },
        },
        Pat::ClearPage => if text::matches_at(s, &lits.clearpage, p) { Some(p + lits.clearpage.len()) } else { None },
    }
}

/// Leftmost match of `k` in `s` at or after `from`.
pub fn first_match_exec(s: &[char], k: Pat, from: usize, lits: &Lits) -> (r: Option<usize>)
    requires
        lits.wf(),
    ensures
        text::opt_int(r) == first_match(s@, k, from as int),
{
    if from > s.len() {
        return None;
    }
    let mut i = from;
    while i < s.len()
        invariant
            from <= i <= s@.len(),
            lits.wf(),
            first_match(s@, k, from as int) == first_match(s@, k, i as int),
        decreases s@.len() - i,
    {
        if pat_at_exec(s, k, i, lits).is_some() {
            return Some(i);
        }
        i += 1;
    }
    if pat_at_exec(s, k, i, lits).is_some() {
        return Some(i);
    }
    assert(first_match(s@, k, i + 1) is None);
    None
}

/// The last concluding-section match found by a left-to-right scan of
/// non-overlapping matches starting at `from`: `(start, end)`.
pub open spec fn last_conclusion(s: Seq<char>, from: int) -> Option<(int, int)>
    decreases s.len() + 1 - from,
{
    if from < 0 {
        None
    } else {
        match first_match(s, Pat::Conclusion, from) {
            None => None,
            Some(st) => {
                let e = pat_at(s, Pat::Conclusion, st)->0;
                proof {
                    lemma_first_match(s, Pat::Conclusion, from);
                    lemma_pat_end(s, Pat::Conclusion, st);
                }
                match last_conclusion(s, e) {
                    Some(x) => Some(x),
                    None => Some((st, e)),
                }
            },
        }
    }
}

/// `s` from `from` on, with every match of `k` (found left to right, without
/// overlap) deleted.
pub open spec fn remove_all(s: Seq<char>, k: Pat, from: int) -> Seq<char>
    decreases s.len() + 1 - from,
{
    if from < 0 || from > s.len() {
        Seq::empty()
    } else {
        match first_match(s, k, from) {
            None => s.subrange(from, s.len() as int),
            Some(st) => {
                let e = pat_at(s, k, st)->0;
                proof {
                    lemma_first_match(s, k, from);
                    lemma_pat_end(s, k, st);
                }
                s.subrange(from, st) + remove_all(s, k, e)
            },
        }
    }
}

pub open spec fn min_opt(a: Option<int>, b: Option<int>) -> Option<int> {
    match (a, b) {
        (Some(x), Some(y)) => Some(if x <= y { x } else { y }),
        (Some(x), None) => Some(x),
        (None, Some(y)) => Some(y),
        (None, None) => None,
    }
}

/// Where the body begins: the earlier of `\begin{abstract}` and the first
/// section, else just after `\begin{document}`; `None` when there is none of these.
pub open spec fn body_start(s: Seq<char>) -> Option<int> {
    match min_opt(first_match(s, Pat::Abstract, 0), first_match(s, Pat::Section, 0)) {
        Some(x) => Some(x),
        None => match first_match(s, Pat::DocBegin, 0) {
            Some(d) => pat_at(s, Pat::DocBegin, d),
            None => None,
        },
    }
}

/// Start of `\end{document}`, or the length of the text.
pub open spec fn doc_end_or_len(s: Seq<char>) -> int {
    match first_match(s, Pat::DocEnd, 0) {
        Some(d) => d,
        None => s.len() as int,
    }
}

/// A marker position that counts as the end of the body: after `start`.
pub open spec fn after_start(m: Option<int>, start: int) -> Option<int> {
    match m {
        Some(x) => if x > start { Some(x) } else { None },
        None => None,
    }
}

/// Where the body ends: the earlier of `\appendix` / `\begin{appendix}` and
/// `\bibliography{` (counting only those after `start`); failing both, the next
/// section or chapter after the last concluding section, else the end of the
/// document.
pub open spec fn body_end(s: Seq<char>, start: int) -> int {
    match min_opt(
        after_start(first_match(s, Pat::Appendix, 0), start),
        after_start(first_match(s, Pat::Bibliography, 0), start),
    ) {
        Some(x) => x,
        None => match last_conclusion(s, 0) {
            Some((_, ce)) => match min_opt(first_match(s, Pat::Section, ce), first_match(s, Pat::Chapter, ce)) {
                Some(x) => x,
                None => doc_end_or_len(s),
            },
            None => doc_end_or_len(s),
        },
    }
}

/// The appendix kept from the raw text after the body: bibliography commands
/// and `\clearpage` removed, trimmed, and only when more than 50 bytes remain.
pub open spec fn appendix_of(raw: Seq<char>) -> Option<Seq<char>> {
    let t = text::trim(remove_all(remove_all(raw, Pat::BibCommand, 0), Pat::ClearPage, 0));
    if text::utf8_len(t) > 50 {
        Some(t)
    } else {
        None
    }
}

/// The body: the trimmed text between its start and end (empty when the end
/// comes first).
pub open spec fn body_of(s: Seq<char>, start: int) -> Seq<char> {
    let be = body_end(s, start);
    if start <= be {
        text::trim(s.subrange(start, be))
    } else {
        Seq::empty()
    }
}

/// The appendix: what lies between the end of the body and `\end{document}`
/// (none when the body ends after `\end{document}`).
pub open spec fn appendix_part(s: Seq<char>, start: int) -> Option<Seq<char>> {
    let be = body_end(s, start);
    if be < s.len() && be <= doc_end_or_len(s) {
        appendix_of(s.subrange(be, doc_end_or_len(s)))
    } else {
        None
    }
}

pub open spec fn no_start_message() -> Seq<char> {
    "Could not find abstract, first section, or document start"@
}

/// The last concluding section of `s`.
fn last_conclusion_exec(s: &[char], lits: &Lits) -> (r: Option<(usize, usize)>)
    requires
        lits.wf(),
    ensures
        match r {
            Some((a, b)) => last_conclusion(s@, 0) == Some((a as int, b as int)),
            None => last_conclusion(s@, 0) is None,
        },
{
    let mut pos: usize = 0;
    let mut last: Option<(usize, usize)> = None;
    let ghost last_int: Option<(int, int)> = None;
    loop
        invariant_except_break
            pos <= s@.len(),
            lits.wf(),
            last_int == match last { Some((a, b)) => Some((a as int, b as int)), None => None },
            last_conclusion(s@, 0) == match last_conclusion(s@, pos as int) {
                Some(x) => Some(x),
                None => last_int,
            },
        ensures
            last_conclusion(s@, 0) == match last { Some((a, b)) => Some((a as int, b as int)), None => None },
        decreases s@.len() + 1 - pos,
    {
        proof {
            lemma_first_match(s@, Pat::Conclusion, pos as int);
        }
        match first_match_exec(s, Pat::Conclusion, pos, lits) {
            None => {
                break;
            },
            Some(st) => {
                let e = match pat_at_exec(s, Pat::Conclusion, st, lits) {
                    Some(e) => e,
                    None => { assert(false); 0 },
                };
                proof {
                    lemma_pat_end(s@, Pat::Conclusion, st as int);
                    last_int = Some((st as int, e as int));
                }
                last = Some((st, e));
                pos = e;
            },
        }
    }
    last
}

/// `s` with every match of `k` deleted.
fn remove_all_exec(s: &[char], k: Pat, lits: &Lits) -> (r: Vec<char>)
    requires
        lits.wf(),
    ensures
        r@ == remove_all(s@, k, 0),
{
    let mut out: Vec<char> = Vec::new();
    let mut pos: usize = 0;
    loop
        invariant_except_break
            pos <= s@.len(),
            lits.wf(),
            remove_all(s@, k, 0) == out@ + remove_all(s@, k, pos as int),
        ensures
            remove_all(s@, k, 0) == out@,
        decreases s@.len() + 1 - pos,
    {
        proof {
            lemma_first_match(s@, k, pos as int);
        }
        match first_match_exec(s, k, pos, lits) {
            None => {
                let mut i = pos;
                let ghost out0 = out@;
                while i < s.len()
                    invariant
                        pos <= i <= s@.len(),
                        out@ == out0 + s@.subrange(pos as int, i as int),
                    decreases s@.len() - i,
                {
                    out.push(s[i]);
                    assert(s@.subrange(pos as int, i as int).push(s@[i as int]) =~= s@.subrange(pos as int, i + 1));
                    i += 1;
                }
                assert(out@ =~= out0 + remove_all(s@, k, pos as int));
                break;
            },
            Some(st) => {
                let e = match pat_at_exec(s, k, st, lits) {
                    Some(e) => e,
                    None => { assert(false); 0 },
                };
                proof {
                    lemma_pat_end(s@, k, st as int);
                }
                let mut i = pos;
                let ghost out0 = out@;
                while i < st
                    invariant
                        pos <= i <= st <= s@.len(),
                        out@ == out0 + s@.subrange(pos as int, i as int),
                    decreases st - i,
                {
                    out.push(s[i]);
                    assert(s@.subrange(pos as int, i as int).push(s@[i as int]) =~= s@.subrange(pos as int, i + 1));
                    i += 1;
                }
                assert(remove_all(s@, k, pos as int) == s@.subrange(pos as int, st as int) + remove_all(s@, k, e as int));
                assert(out0 + remove_all(s@, k, pos as int) =~= out@ + remove_all(s@, k, e as int));
                pos = e;
            },
        }
    }
    out
}

fn min_opt_exec(a: Option<usize>, b: Option<usize>) -> (r: Option<usize>)
    ensures
        text::opt_int(r) == min_opt(text::opt_int(a), text::opt_int(b)),
{
    match (a, b) {
        (Some(x), Some(y)) => Some(if x <= y { x } else { y }),
        (Some(x), None) => Some(x),
        (None, Some(y)) => Some(y),
        (None, None) => None,
    }
}

fn after_start_exec(m: Option<usize>, start: usize) -> (r: Option<usize>)
    ensures
        text::opt_int(r) == after_start(text::opt_int(m), start as int),
{
    match m {
        Some(x) => if x > start { Some(x) } else { None },
        None => None,
    }
}

/// Splits an expanded LaTeX source into its body and its (optional) appendix.
///
/// The body runs from the abstract or first section (whichever comes first;
/// else from just after `\begin{document}`) to the first `\appendix` or
/// `\bibliography{` after that start; failing those, to the next section or
/// chapter after the last concluding section, or to `\end{document}`. The
/// appendix is what follows the body up to `\end{document}`, without
/// bibliography commands and `\clearpage`, kept only when it is longer than
/// 50 bytes once trimmed.
pub fn extract_body_and_appendix(tex_content: &str) -> (res: Result<(String, Option<String>), ArxivError>)
    ensures
        match body_start(tex_content@) {
            None => res matches Err(ArxivError::Extraction(m)) && m@ == no_start_message(),
            Some(start) => res matches Ok((body, app)) && body@ == body_of(tex_content@, start)
                && match appendix_part(tex_content@, start) {
                    None => app is None,
                    Some(a) => app matches Some(x) && x@ == a,
                },
        },
{
    let s = str_chars(tex_content);
    let lits = Lits::new();
    let doc_end = first_match_exec(&s, Pat::DocEnd, 0, &lits);
    let abs = first_match_exec(&s, Pat::Abstract, 0, &lits);
    let sec = first_match_exec(&s, Pat::Section, 0, &lits);
    let start = match min_opt_exec(abs, sec) {
        Some(x) => x,
        None => match first_match_exec(&s, Pat::DocBegin, 0, &lits) {
            Some(d) => {
                proof {
                    lemma_first_match(s@, Pat::DocBegin, 0);
                }
                match pat_at_exec(&s, Pat::DocBegin, d, &lits) {
                    Some(e) => e,
                    None => { assert(false); 0 },
                }
            },
            None => {
                return Err(ArxivError::Extraction(
                    string_from_chars(&str_chars("Could not find abstract, first section, or document start")),
                ));
            },
        },
    };
    assert(body_start(s@) == Some(start as int));
    let app_pos = first_match_exec(&s, Pat::Appendix, 0, &lits);
    let bib_pos = first_match_exec(&s, Pat::Bibliography, 0, &lits);
    let end_of_doc = match doc_end { Some(d) => d, None => s.len() };
    proof {
        lemma_first_match(s@, Pat::DocEnd, 0);
        lemma_first_match(s@, Pat::Appendix, 0);
        lemma_first_match(s@, Pat::Bibliography, 0);
    }
    let be = match min_opt_exec(after_start_exec(app_pos, start), after_start_exec(bib_pos, start)) {
        Some(x) => x,
        None => match last_conclusion_exec(&s, &lits) {
            Some((_, ce)) => {
                proof {
                    lemma_last_conclusion_bound(s@, 0);
                    lemma_first_match(s@, Pat::Section, ce as int);
                    lemma_first_match(s@, Pat::Chapter, ce as int);
                }
                match min_opt_exec(first_match_exec(&s, Pat::Section, ce, &lits), first_match_exec(&s, Pat::Chapter, ce, &lits)) {
                    Some(x) => x,
                    None => end_of_doc,
                }
            },
            None => end_of_doc,
        },
    };
    assert(be as int == body_end(s@, start as int));
    let body = if start <= be {
        string_from_chars(&text::trim_chars(&s[start..be]))
    } else {
        String::new()
    };
    let appendix = if be < s.len() && be <= end_of_doc {
        let raw = &s[be..end_of_doc];
        let c1 = remove_all_exec(raw, Pat::BibCommand, &lits);
        let c2 = remove_all_exec(&c1, Pat::ClearPage, &lits);
        let t = text::trim_chars(&c2);
        if text::utf8_len_exceeds(&t, 50) {
            Some(string_from_chars(&t))
        } else {
            None
        }
    } else {
        None
    };
    Ok((body, appendix))
}


proof fn lemma_last_conclusion_bound(s: Seq<char>, from: int)
    requires
        0 <= from,
    ensures
        last_conclusion(s, from) matches Some((a, b)) ==> from <= a < b <= s.len(),
    decreases s.len() + 1 - from,
{
    lemma_first_match(s, Pat::Conclusion, from);
    match first_match(s, Pat::Conclusion, from) {
        None => {},
        Some(st) => {
            lemma_pat_end(s, Pat::Conclusion, st);
            let e = pat_at(s, Pat::Conclusion, st)->0;
            lemma_last_conclusion_bound(s, e);
        },
    }
}

/// A marker was found, after `start`.
pub open spec fn marker_after(m: Option<int>, start: int) -> bool {
    m matches Some(x) && x > start
}

/// The body ends at the first `\appendix` (or `\begin{appendix}`) and at the
/// first `\bibliography{`, whichever comes first, among those that lie after
/// its start: it never runs past either of them, and when one of them lies
/// after the start, it ends exactly at one of them (so after its start).
pub proof fn law_body_stops_at_first_marker(s: Seq<char>, start: int)
    ensures
        first_match(s, Pat::Appendix, 0) matches Some(a) ==> (a > start ==> body_end(s, start) <= a),
        first_match(s, Pat::Bibliography, 0) matches Some(b) ==> (b > start ==> body_end(s, start) <= b),
        marker_after(first_match(s, Pat::Appendix, 0), start) || marker_after(first_match(s, Pat::Bibliography, 0), start)
            ==> (first_match(s, Pat::Appendix, 0) == Some(body_end(s, start))
                || first_match(s, Pat::Bibliography, 0) == Some(body_end(s, start))),
        marker_after(first_match(s, Pat::Appendix, 0), start) || marker_after(first_match(s, Pat::Bibliography, 0), start)
            ==> body_end(s, start) > start,
{
}

} // verus!
