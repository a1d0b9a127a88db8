//! What arXiv itself tells about papers: identifiers found in a PDF's
//! metadata and first pages, and titles read from the export API's Atom feed.
use vstd::prelude::*;
use crate::error::ArxivError;
use crate::ids;
use crate::repl;
use crate::text;
use crate::text::{append_str, find_chars, matches_at, str_chars, string_from_chars, trim_chars};

verus! {

// ---------------------------------------------------------------- identifiers in text

/// The first identifier in a text (`\d{4}\.\d{4,5}(?:v\d+)?`, `.` only).
pub open spec fn bare_id_spec(t: Seq<char>) -> Option<Seq<char>> {
    match ids::first_id(t, 0, false) {
        Some(p) => Some(ids::id_text(t, p, false)),
        None => None,
    }
}

/// End of the run of `:` and white space starting at `i`.
pub open spec fn colon_ws_end(s: Seq<char>, i: int) -> int
    decreases s.len() - i,
{
    if 0 <= i < s.len() && (s[i] == ':' || text::is_ws(s[i])) {
        colon_ws_end(s, i + 1)
    } else {
        i
    }
}

/// `arXiv`, a run of `:` and white space, and an identifier start at `p`;
/// the identifier's position.
pub open spec fn prefixed_at(s: Seq<char>, p: int) -> Option<int> {
    if text::occurs_at(s, "arXiv"@, p) {
        let q = colon_ws_end(s, p + "arXiv"@.len());
        if ids::id_len_at(s, q, false) is Some { Some(q) } else { None }
    } else {
        None
    }
}

/// The leftmost `arXiv`-prefixed identifier at or after `from`.
pub open spec fn first_prefixed(s: Seq<char>, from: int) -> Option<int>
    decreases s.len() + 1 - from,
{
    if from < 0 || from > s.len() {
        None
    } else if prefixed_at(s, from) is Some {
        prefixed_at(s, from)
    } else {
        first_prefixed(s, from + 1)
    }
}

/// The identifier after the first `arXiv` label followed by one
/// (`arXiv[:\s]*(\d{4}\.\d{4,5}(?:v\d+)?)`).
pub open spec fn prefixed_id_spec(t: Seq<char>) -> Option<Seq<char>> {
    match first_prefixed(t, 0) {
        Some(q) => Some(ids::id_text(t, q, false)),
        None => None,
    }
}

/// The identifier a page's text yields: a labelled one first, else a bare one.
pub open spec fn page_id_spec(t: Seq<char>) -> Option<Seq<char>> {
    match prefixed_id_spec(t) {
        Some(x) => Some(x),
        None => bare_id_spec(t),
    }
}

/// The first identifier found in the metadata fields, in order.
pub open spec fn info_id_spec(info: Seq<Option<Seq<char>>>) -> Option<Seq<char>>
    decreases info.len(),
{
    if info.len() == 0 {
        None
    } else {
        match info[0] {
            Some(t) => match bare_id_spec(t) {
                Some(x) => Some(x),
                None => info_id_spec(info.drop_first()),
            },
            None => info_id_spec(info.drop_first()),
        }
    }
}

/// The first identifier found in the pages' texts, in order.
pub open spec fn pages_id_spec(pages: Seq<Option<Seq<char>>>) -> Option<Seq<char>>
    decreases pages.len(),
{
    if pages.len() == 0 {
        None
    } else {
        match pages[0] {
            Some(t) => match page_id_spec(t) {
                Some(x) => Some(x),
                None => pages_id_spec(pages.drop_first()),
            },
            None => pages_id_spec(pages.drop_first()),
        }
    }
}

/// At most the first three entries.
pub open spec fn first_three<A>(s: Seq<A>) -> Seq<A> {
    s.take(if s.len() < 3 { s.len() as int } else { 3 })
}

/// The identifier of a PDF: from its metadata (subject, keywords, title,
/// author), else from its first three pages.
pub open spec fn pdf_id_spec(info: Seq<Option<Seq<char>>>, pages: Seq<Option<Seq<char>>>) -> Option<Seq<char>> {
    match info_id_spec(info) {
        Some(x) => Some(x),
        None => pages_id_spec(first_three(pages)),
    }
}

/// The texts of a list of optional strings.
pub open spec fn opt_views(v: Seq<Option<String>>) -> Seq<Option<Seq<char>>> {
    v.map_values(|o: Option<String>| repl::opt_view(o))
}

fn id_at(s: &[char], p: usize, len: usize) -> (r: String)
    requires
        p + len <= s@.len(),
    ensures
        r@ == s@.subrange(p as int, p + len),
{
    let mut v: Vec<char> = Vec::new();
    let n = s.len();
    let stop = p + len;
    let mut i = p;
    while i < stop
        invariant
            p <= i <= stop == p + len <= s@.len(),
            v@ == s@.subrange(p as int, i as int),
        decreases stop - i,
    {
        v.push(s[i]);
        assert(s@.subrange(p as int, i + 1) =~= s@.subrange(p as int, i as int).push(s@[i as int]));
        i += 1;
    }
    string_from_chars(&v)
}

/// The first identifier in a text.
pub fn bare_id(t: &str) -> (r: Option<String>)
    ensures
        repl::opt_view(r) == bare_id_spec(t@),
{
    let s = str_chars(t);
    match ids::first_id_exec(&s, 0, false) {
        None => None,
        Some(p) => {
            proof {
                ids::lemma_first_id(s@, 0, false);
                ids::lemma_id_len(s@, p as int, false);
            }
            match ids::id_len_at_exec(&s, p, false) {
                Some(len) => Some(id_at(&s, p, len)),
                None => None,
            }
        },
    }
}

fn colon_ws_end_exec(s: &[char], i: usize) -> (r: usize)
    requires
        i <= s@.len(),
    ensures
        r == colon_ws_end(s@, i as int),
        i <= r <= s@.len(),
{
    let mut j = i;
    while j < s.len() && (s[j] == ':' || text::is_whitespace(s[j]))
        invariant
            i <= j <= s@.len(),
            colon_ws_end(s@, i as int) == colon_ws_end(s@, j as int),
        decreases s@.len() - j,
    {
        j += 1;
    }
    j
}

/// The identifier after the first `arXiv` label followed by one.
pub fn prefixed_id(t: &str) -> (r: Option<String>)
    ensures
        repl::opt_view(r) == prefixed_id_spec(t@),
{
    let s = str_chars(t);
    let label = str_chars("arXiv");
    proof {
        reveal_strlit("arXiv");
    }
    let mut p: usize = 0;
    while p < s.len()
        invariant
            p <= s@.len(),
            s@ == t@,
            label@ == "arXiv"@,
            "arXiv"@.len() == 5,
            first_prefixed(s@, 0) == first_prefixed(s@, p as int),
        decreases s@.len() - p,
    {
        if matches_at(&s, &label, p) {
            let q = colon_ws_end_exec(&s, p + 5);
            match ids::id_len_at_exec(&s, q, false) {
                Some(len) => {
                    proof {
                        ids::lemma_id_len(s@, q as int, false);
                    }
                    assert(first_prefixed(s@, p as int) == Some(q as int));
                    return Some(id_at(&s, q, len));
                },
                None => {},
            }
        }
        p += 1;
    }
    assert(prefixed_at(s@, p as int) is None);
    assert(first_prefixed(s@, p + 1) is None);
    None
}

/// The identifier a page's text yields.
pub fn page_id(t: &str) -> (r: Option<String>)
    ensures
        repl::opt_view(r) == page_id_spec(t@),
{
    match prefixed_id(t) {
        Some(x) => Some(x),
        None => bare_id(t),
    }
}

/// The identifier of a PDF, from the texts of its metadata fields (subject,
/// keywords, title, author; `None` where absent) and of its pages (`None`
/// where no text could be extracted). Only the first three pages count.
pub fn arxiv_id_from_pdf_texts(info: &Vec<Option<String>>, pages: &Vec<Option<String>>) -> (r: Option<String>)
    ensures
        repl::opt_view(r) == pdf_id_spec(opt_views(info@), opt_views(pages@)),
{
    let ghost iv = opt_views(info@);
    let mut i: usize = 0;
    assert(iv.skip(0) =~= iv);
    while i < info.len()
        invariant
            i <= info@.len(),
            iv == opt_views(info@),
            info_id_spec(iv) == info_id_spec(iv.skip(i as int)),
        decreases info@.len() - i,
    {
        assert(iv.skip(i as int).drop_first() =~= iv.skip(i + 1));
        assert(iv.skip(i as int)[0] == repl::opt_view(info@[i as int]));
        match &info[i] {
            Some(t) => match bare_id(t.as_str()) {
                Some(x) => {
                    return Some(x);
                },
                None => {},
            },
            None => {},
        }
        i += 1;
    }
    assert(iv.skip(i as int).len() == 0);
    assert(info_id_spec(iv) is None);
    let n: usize = if pages.len() < 3 { pages.len() } else { 3 };
    let ghost firsts = first_three(opt_views(pages@));
    let mut k: usize = 0;
    assert(firsts.skip(0) =~= firsts);
    while k < n
        invariant
            k <= n <= pages@.len(),
            n == (if pages@.len() < 3 { pages@.len() as int } else { 3 }),
            info_id_spec(iv) is None,
            iv == opt_views(info@),
            firsts == first_three(opt_views(pages@)),
            firsts.len() == n,
            pages_id_spec(firsts) == pages_id_spec(firsts.skip(k as int)),
        decreases n - k,
    {
        assert(firsts.skip(k as int).drop_first() =~= firsts.skip(k + 1));
        assert(firsts.skip(k as int)[0] == repl::opt_view(pages@[k as int]));
        match &pages[k] {
            Some(t) => match page_id(t.as_str()) {
                Some(x) => {
                    return Some(x);
                },
                None => {},
            },
            None => {},
        }
        k += 1;
    }
    assert(firsts.skip(k as int).len() == 0);
    None
}

// ---------------------------------------------------------------- reading a PDF

/// `lopdf::Document`, a parsed PDF.
#[verifier::external_type_specification]
#[verifier::external_body]
pub struct ExPdfDocument(lopdf::Document);

/// A PDF parsed by lopdf, kept with the bytes it was parsed from.
pub struct ParsedPdf {
    doc: lopdf::Document,
    src: Ghost<Seq<u8>>,
}

impl View for ParsedPdf {
    type V = Seq<u8>;

    /// The bytes the document was parsed from.
    closed spec fn view(&self) -> Seq<u8> {
        self.src@
    }
}

/// Whether `lopdf::Document::load_mem` parses these bytes.
pub uninterp spec fn pdf_parses(bytes: Seq<u8>) -> bool;

/// What the PDF held in these bytes gives for `key` in its trailer's `Info`
/// dictionary, as text (see `pdf_info_text`).
pub uninterp spec fn pdf_info_entry(bytes: Seq<u8>, key: Seq<char>) -> Option<Seq<char>>;

/// The page numbers of the PDF held in these bytes, in increasing order.
pub uninterp spec fn pdf_page_numbers_of(bytes: Seq<u8>) -> Seq<u32>;

/// The text lopdf extracts from a page of the PDF held in these bytes.
pub uninterp spec fn pdf_page_text_of(bytes: Seq<u8>, page: u32) -> Option<Seq<char>>;

/// `lopdf::Document::load_mem`: parses a PDF held in memory, or gives the
/// parser's error text. Claimed: it succeeds exactly on the bytes that
/// `pdf_parses` names, and the document is kept with those bytes.
#[verifier::external_body]
fn pdf_load(bytes: &[u8]) -> (r: Result<ParsedPdf, String>)
    ensures
        r is Ok <==> pdf_parses(bytes@),
        r matches Ok(p) ==> p@ == bytes@,
{
    match lopdf::Document::load_mem(bytes) {
        Ok(doc) => Ok(ParsedPdf { doc, src: Ghost(bytes@) }),
        Err(e) => Err(e.to_string()),
    }
}

/// The trailer's `Info` entry, when it is a dictionary (`Dictionary::get`,
/// `Object::as_dict`), looked up at `key` (`Dictionary::get`), the value as
/// text: a string or a name decoded as UTF-8 with invalid bytes replaced,
/// anything else in its debug form. Claimed: the result is what
/// `pdf_info_entry` names for the document's bytes and `key`.
#[verifier::external_body]
fn pdf_info_text(pdf: &ParsedPdf, key: &str) -> (r: Option<String>)
    ensures
        repl::opt_view(r) == pdf_info_entry(pdf@, key@),
{
    let info = pdf.doc.trailer.get(b"Info").ok()?.as_dict().ok()?;
    match info.get(key.as_bytes()).ok()? {
        lopdf::Object::String(s, _) => Some(String::from_utf8_lossy(s).into_owned()),
        lopdf::Object::Name(n) => Some(String::from_utf8_lossy(n).into_owned()),
        other => Some(format!("{other:?}")),
    }
}

/// `Document::get_pages`, its keys in increasing order. Claimed: they are
/// what `pdf_page_numbers_of` names for the document's bytes.
#[verifier::external_body]
fn pdf_page_numbers(pdf: &ParsedPdf) -> (r: Vec<u32>)
    ensures
        r@ == pdf_page_numbers_of(pdf@),
{
    pdf.doc.get_pages().keys().copied().collect()
}

/// `Document::extract_text` for one page; `None` when it fails. Claimed:
/// the result is what `pdf_page_text_of` names for the document's bytes
/// and the page.
#[verifier::external_body]
fn pdf_page_text(pdf: &ParsedPdf, page: u32) -> (r: Option<String>)
    ensures
        repl::opt_view(r) == pdf_page_text_of(pdf@, page),
{
    pdf.doc.extract_text(&[page]).ok()
}

/// The metadata fields searched for an identifier, in order.
pub open spec fn pdf_info_texts(bytes: Seq<u8>) -> Seq<Option<Seq<char>>> {
    seq![
        pdf_info_entry(bytes, "subject"@),
        pdf_info_entry(bytes, "keywords"@),
        pdf_info_entry(bytes, "title"@),
        pdf_info_entry(bytes, "author"@),
    ]
}

/// The texts of the first three pages (fewer when the PDF has fewer).
pub open spec fn pdf_first_page_texts(bytes: Seq<u8>) -> Seq<Option<Seq<char>>> {
    first_three(pdf_page_numbers_of(bytes)).map_values(|p: u32| pdf_page_text_of(bytes, p))
}

/// The arXiv identifier of a PDF given as bytes: from its metadata, else
/// from its first three pages; an error when the bytes do not parse.
pub fn extract_arxiv_id_from_pdf(bytes: &[u8]) -> (r: Result<Option<String>, ArxivError>)
    ensures
        r is Err <==> !pdf_parses(bytes@),
        r matches Err(e) ==> e matches ArxivError::Parse(m) && m@.take(21) == "failed to parse PDF: "@,
        r matches Ok(id) ==> repl::opt_view(id) == pdf_id_spec(pdf_info_texts(bytes@), pdf_first_page_texts(bytes@)),
{
    let pdf = match pdf_load(bytes) {
        Ok(d) => d,
        Err(e) => {
            let mut m = str_chars("failed to parse PDF: ");
            proof {
                reveal_strlit("failed to parse PDF: ");
            }
            let ghost m0 = m@;
            append_str(&mut m, e.as_str());
            assert(m@.take(21) =~= m0);
            return Err(ArxivError::Parse(string_from_chars(&m)));
        },
    };
    let mut info: Vec<Option<String>> = Vec::new();
    info.push(pdf_info_text(&pdf, "subject"));
    info.push(pdf_info_text(&pdf, "keywords"));
    info.push(pdf_info_text(&pdf, "title"));
    info.push(pdf_info_text(&pdf, "author"));
    assert(opt_views(info@) =~= pdf_info_texts(bytes@));
    let numbers = pdf_page_numbers(&pdf);
    let ghost firsts = first_three(numbers@);
    let mut pages: Vec<Option<String>> = Vec::new();
    let mut i: usize = 0;
    while i < numbers.len() && i < 3
        invariant
            i <= numbers@.len(),
            i <= 3,
            pdf@ == bytes@,
            numbers@ == pdf_page_numbers_of(bytes@),
            firsts == first_three(numbers@),
            opt_views(pages@) =~= firsts.take(i as int).map_values(|p: u32| pdf_page_text_of(bytes@, p)),
        decreases numbers@.len() - i,
    {
        let t = pdf_page_text(&pdf, numbers[i]);
        let ghost before = pages@;
        pages.push(t);
        proof {
            assert(firsts[i as int] == numbers@[i as int]);
            assert(firsts.take(i + 1) =~= firsts.take(i as int).push(firsts[i as int]));
            assert(pages@ =~= before.push(t));
            assert(opt_views(pages@) =~= opt_views(before).push(repl::opt_view(t)));
        }
        i += 1;
    }
    assert(firsts.take(i as int) =~= firsts);
    assert(opt_views(pages@) =~= pdf_first_page_texts(bytes@));
    assert(first_three(opt_views(pages@)) =~= opt_views(pages@));
    let r = arxiv_id_from_pdf_texts(&info, &pages);
    Ok(r)
}

// ---------------------------------------------------------------- the Atom feed

/// The blocks of `s` from an opening tag to the first closing tag after it,
/// scanning left to right from `from` (`open.*?close`, dot matching line
/// feeds).
pub open spec fn blocks(s: Seq<char>, open: Seq<char>, close: Seq<char>, from: int) -> Seq<Seq<char>>
    decreases s.len() + 1 - from,
{
    if from < 0 || close.len() == 0 {
        Seq::empty()
    } else {
        match text::find_from(s, open, from) {
            None => Seq::empty(),
            Some(b) => match text::find_from(s, close, b + open.len()) {
                None => Seq::empty(),
                Some(e) => {
                    proof {
                        text::lemma_find_from(s, open, from);
                        text::lemma_find_from(s, close, b + open.len());
                    }
                    let stop = e + close.len();
                    seq![s.subrange(b, stop)] + blocks(s, open, close, stop)
                },
            },
        }
    }
}

/// An `/abs/` path holding an identifier and closed by `</id>` at `k`: the
/// identifier's length.
pub open spec fn abs_id_at(b: Seq<char>, k: int) -> Option<int> {
    if text::occurs_at(b, "/abs/"@, k) {
        match ids::id_len_at(b, k + "/abs/"@.len(), false) {
            Some(l) => if text::occurs_at(b, "</id>"@, k + "/abs/"@.len() + l) { Some(l) } else { None },
            None => None,
        }
    } else {
        None
    }
}

/// The first such path at or after `from`.
pub open spec fn first_abs_id(b: Seq<char>, from: int) -> Option<int>
    decreases b.len() + 1 - from,
{
    if from < 0 || from > b.len() {
        None
    } else if abs_id_at(b, from) is Some {
        Some(from)
    } else {
        first_abs_id(b, from + 1)
    }
}

/// The identifier of an entry: in its first `<id>`, after the first `/abs/`
/// that an identifier and `</id>` follow (`<id>.*?/abs/(ID)</id>`).
pub open spec fn entry_id_spec(b: Seq<char>) -> Option<Seq<char>> {
    match text::find_from(b, "<id>"@, 0) {
        None => None,
        Some(p) => match first_abs_id(b, p + "<id>"@.len()) {
            Some(k) => Some(ids::id_text(b, k + "/abs/"@.len(), false)),
            None => None,
        },
    }
}

/// A text with every run of white space replaced by one space.
pub open spec fn squash_ws(s: Seq<char>) -> Seq<char>
    decreases s.len(),
{
    if s.len() == 0 {
        Seq::empty()
    } else {
        let n = s.len() - 1;
        if text::is_ws(s[n]) {
            if n > 0 && text::is_ws(s[n - 1]) {
                squash_ws(s.drop_last())
            } else {
                squash_ws(s.drop_last()).push(' ')
            }
        } else {
            squash_ws(s.drop_last()).push(s[n])
        }
    }
}

/// The title of an entry: the text of its first `<title>` element, trimmed,
/// white space runs made single spaces.
pub open spec fn entry_title_spec(b: Seq<char>) -> Option<Seq<char>> {
    match text::find_from(b, "<title>"@, 0) {
        None => None,
        Some(p) => match text::find_from(b, "</title>"@, p + "<title>"@.len()) {
            Some(c) => Some(squash_ws(text::trim(b.subrange(p + "<title>"@.len(), c)))),
            None => None,
        },
    }
}

/// The (identifier, title) pairs of the entries that have both, in order.
pub open spec fn entries_of(bs: Seq<Seq<char>>) -> Seq<(Seq<char>, Seq<char>)>
    decreases bs.len(),
{
    if bs.len() == 0 {
        Seq::empty()
    } else {
        let rest = entries_of(bs.drop_last());
        match (entry_id_spec(bs.last()), entry_title_spec(bs.last())) {
            (Some(i), Some(t)) => rest.push((i, t)),
            _ => rest,
        }
    }
}

/// What the export API's Atom feed says: each `<entry>`'s identifier and title.
pub open spec fn atom_entries_spec(xml: Seq<char>) -> Seq<(Seq<char>, Seq<char>)> {
    entries_of(blocks(xml, "<entry>"@, "</entry>"@, 0))
}

fn sub_chars(s: &[char], a: usize, b: usize) -> (r: Vec<char>)
    requires
        a <= b <= s@.len(),
    ensures
        r@ == s@.subrange(a as int, b as int),
{
    let mut v: Vec<char> = Vec::new();
    let mut i = a;
    while i < b
        invariant
            a <= i <= b <= s@.len(),
            v@ == s@.subrange(a as int, i as int),
        decreases b - i,
    {
        v.push(s[i]);
        assert(s@.subrange(a as int, i + 1) =~= s@.subrange(a as int, i as int).push(s@[i as int]));
        i += 1;
    }
    v
}

fn entry_id(b: &[char]) -> (r: Option<String>)
    ensures
        repl::opt_view(r) == entry_id_spec(b@),
{
    let open = str_chars("<id>");
    let abs = str_chars("/abs/");
    let close = str_chars("</id>");
    proof {
        reveal_strlit("<id>");
        reveal_strlit("/abs/");
        reveal_strlit("</id>");
    }
    let n = b.len();
    let p = match find_chars(b, &open, 0) {
        None => {
            return None;
        },
        Some(p) => p,
    };
    proof {
        text::lemma_find_from(b@, "<id>"@, 0);
    }
    let mut k = p + 4;
    while k < n
        invariant
            p + 4 <= k,
            k <= n,
            n == b@.len(),
            abs@ == "/abs/"@,
            close@ == "</id>"@,
            "/abs/"@.len() == 5,
            "<id>"@.len() == 4,
            text::find_from(b@, "<id>"@, 0) == Some(p as int),
            first_abs_id(b@, (p + 4) as int) == first_abs_id(b@, k as int),
        decreases n - k,
    {
        if matches_at(b, &abs, k) {
            match ids::id_len_at_exec(b, k + 5, false) {
                Some(l) => {
                    proof {
                        ids::lemma_id_len(b@, k + 5, false);
                    }
                    if matches_at(b, &close, k + 5 + l) {
                        assert(abs_id_at(b@, k as int) == Some(l as int));
                        return Some(id_at(b, k + 5, l));
                    }
                },
                None => {},
            }
        }
        assert(abs_id_at(b@, k as int) is None);
        k += 1;
    }
    assert(abs_id_at(b@, k as int) is None);
    assert(first_abs_id(b@, k + 1) is None);
    None
}

fn squash_ws_exec(s: &[char]) -> (r: Vec<char>)
    ensures
        r@ == squash_ws(s@),
{
    let mut out: Vec<char> = Vec::new();
    let mut i: usize = 0;
    while i < s.len()
        invariant
            i <= s@.len(),
            out@ == squash_ws(s@.take(i as int)),
        decreases s@.len() - i,
    {
        let ghost pre = s@.take(i + 1);
        assert(pre.drop_last() =~= s@.take(i as int));
        assert(pre[i as int] == s@[i as int]);
        if text::is_whitespace(s[i]) {
            if i > 0 && text::is_whitespace(s[i - 1]) {
                assert(pre[i - 1] == s@[i - 1]);
            } else {
                out.push(' ');
                proof {
                    if i > 0 {
                        assert(pre[i - 1] == s@[i - 1]);
                    }
                }
            }
        } else {
            out.push(s[i]);
        }
        i += 1;
    }
    assert(s@.take(s@.len() as int) =~= s@);
    out
}

fn entry_title(b: &[char]) -> (r: Option<String>)
    ensures
        repl::opt_view(r) == entry_title_spec(b@),
{
    let open = str_chars("<title>");
    let close = str_chars("</title>");
    let n = b.len();
    proof {
        reveal_strlit("<title>");
    }
    match find_chars(b, &open, 0) {
        None => None,
        Some(p) => {
            proof {
                text::lemma_find_from(b@, "<title>"@, 0);
            }
            match find_chars(b, &close, p + 7) {
                None => None,
                Some(c) => {
                    proof {
                        text::lemma_find_from(b@, "</title>"@, p + 7);
                    }
                    let inner = sub_chars(b, p + 7, c);
                    let t = trim_chars(&inner);
                    let q = squash_ws_exec(&t);
                    Some(string_from_chars(&q))
                },
            }
        },
    }
}

/// The (identifier, title) pairs of an Atom feed from arXiv's export API,
/// in the order of its entries; entries lacking either are left out.
pub fn parse_atom_entries(xml: &str) -> (r: Vec<(String, String)>)
    ensures
        r@.map_values(|e: (String, String)| (e.0@, e.1@)) == atom_entries_spec(xml@),
{
    let s = str_chars(xml);
    let open = str_chars("<entry>");
    let close = str_chars("</entry>");
    proof {
        reveal_strlit("<entry>");
        reveal_strlit("</entry>");
    }
    let ghost all = blocks(s@, "<entry>"@, "</entry>"@, 0);
    let ghost mut k: int = 0;
    let mut out: Vec<(String, String)> = Vec::new();
    let mut from: usize = 0;
    while from <= s.len()
        invariant
            s@ == xml@,
            open@ == "<entry>"@,
            close@ == "</entry>"@,
            "<entry>"@.len() == 7,
            "</entry>"@.len() == 8,
            from <= s@.len() + 1,
            all == blocks(s@, "<entry>"@, "</entry>"@, 0),
            0 <= k <= all.len(),
            all.skip(k) == blocks(s@, "<entry>"@, "</entry>"@, from as int),
            out@.map_values(|e: (String, String)| (e.0@, e.1@)) == entries_of(all.take(k)),
        ensures
            all.skip(k).len() == 0,
            0 <= k <= all.len(),
            out@.map_values(|e: (String, String)| (e.0@, e.1@)) == entries_of(all.take(k)),
        decreases s@.len() + 1 - from,
    {
        let b = match find_chars(&s, &open, from) {
            None => {
                assert(blocks(s@, "<entry>"@, "</entry>"@, from as int).len() == 0);
                break;
            },
            Some(b) => b,
        };
        proof {
            text::lemma_find_from(s@, "<entry>"@, from as int);
        }
        let e = match find_chars(&s, &close, b + 7) {
            None => {
                assert(blocks(s@, "<entry>"@, "</entry>"@, from as int).len() == 0);
                break;
            },
            Some(e) => e,
        };
        proof {
            text::lemma_find_from(s@, "</entry>"@, b + 7);
        }
        let stop = e + 8;
        let block = sub_chars(&s, b, stop);
        proof {
            assert(blocks(s@, "<entry>"@, "</entry>"@, from as int) == seq![s@.subrange(b as int, stop as int)]
                + blocks(s@, "<entry>"@, "</entry>"@, stop as int));
            assert(all[k] == block@) by {
                assert(all.skip(k)[0] == all[k]);
            }
            assert(all.skip(k + 1) =~= all.skip(k).drop_first());
            assert(all.take(k + 1).drop_last() =~= all.take(k));
        }
        let id = entry_id(&block);
        let title = entry_title(&block);
        match (id, title) {
            (Some(i), Some(t)) => {
                let ghost o0 = out@;
                out.push((i, t));
                assert(out@.map_values(|e: (String, String)| (e.0@, e.1@)) =~= o0.map_values(
                    |e: (String, String)| (e.0@, e.1@),
                ).push((i@, t@)));
            },
            _ => {},
        }
        proof {
            k = k + 1;
        }
        from = stop;
    }
    assert(all.take(k) =~= all);
    out
}

// ---------------------------------------------------------------- the abstract page

/// What precedes the title in an abstract page's Open Graph tag.
pub open spec fn og_prefix() -> Seq<char> {
    "<meta property=\"og:title\" content=\""@
}

/// The title a tag starting at `p` gives: after the prefix, one or more
/// characters up to the next `"`, which a space must follow.
pub open spec fn og_title_at(s: Seq<char>, p: int) -> Option<Seq<char>> {
    let c = p + og_prefix().len();
    if !text::occurs_at(s, og_prefix(), p) {
        None
    } else {
        match text::find_from(s, "\""@, c) {
            Some(q) => if q > c && text::occurs_at(s, "\" "@, q) {
                Some(s.subrange(c, q))
            } else {
                None
            },
            None => None,
        }
    }
}

/// The title of the first tag, at or after `p`, that gives one (what the
/// regular expression `<meta property="og:title" content="([^"]+)" `
/// captures first).
pub open spec fn og_title_from(s: Seq<char>, p: int) -> Option<Seq<char>>
    decreases s.len() + 1 - p,
{
    if p < 0 || p > s.len() {
        None
    } else {
        match og_title_at(s, p) {
            Some(t) => Some(t),
            None => og_title_from(s, p + 1),
        }
    }
}

/// The paper's title as an abstract page's Open Graph tag gives it.
pub fn og_title(html: &str) -> (r: Option<String>)
    ensures
        repl::opt_view(r) == og_title_from(html@, 0),
{
    let s = str_chars(html);
    let prefix = str_chars("<meta property=\"og:title\" content=\"");
    let quote = str_chars("\"");
    let close = str_chars("\" ");
    proof {
        reveal_strlit("<meta property=\"og:title\" content=\"");
    }
    let mut p: usize = 0;
    while p < s.len()
        invariant
            s@ == html@,
            prefix@ == og_prefix(),
            og_prefix().len() > 0,
            quote@ == "\""@,
            close@ == "\" "@,
            p <= s@.len(),
            og_title_from(s@, 0) == og_title_from(s@, p as int),
        decreases s@.len() - p,
    {
        if matches_at(&s, &prefix, p) {
            let c = p + prefix.len();
            match find_chars(&s, &quote, c) {
                Some(q) => {
                    proof {
                        text::lemma_find_from(s@, "\""@, c as int);
                    }
                    if q > c && matches_at(&s, &close, q) {
                        let t = sub_chars(&s, c, q);
                        return Some(string_from_chars(&t));
                    }
                },
                None => {},
            }
        }
        p += 1;
    }
    assert(og_title_at(s@, p as int) is None);
    assert(og_title_from(s@, p + 1) is None);
    None
}

// ---------------------------------------------------------------- titles by identifier

/// Most identifiers asked for in one export-API request.
pub const TITLE_BATCH: usize = 50;

/// The identifier lists of the export-API requests for `ids`: consecutive
/// groups of at most [`TITLE_BATCH`], each joined with commas.
pub open spec fn title_batches_spec(ids: Seq<Seq<char>>) -> Seq<Seq<char>>
    decreases ids.len(),
{
    if ids.len() == 0 {
        Seq::empty()
    } else if ids.len() <= TITLE_BATCH {
        seq![text::join_spec(ids, ","@)]
    } else {
        seq![text::join_spec(ids.take(TITLE_BATCH as int), ","@)] + title_batches_spec(ids.skip(TITLE_BATCH as int))
    }
}

/// The `id_list` values of the requests that fetch the titles of `ids`.
pub fn title_batches(ids: &Vec<String>) -> (r: Vec<String>)
    ensures
        text::string_views(r@) == title_batches_spec(text::string_views(ids@)),
{
    let ghost all = text::string_views(ids@);
    let mut out: Vec<String> = Vec::new();
    let mut start: usize = 0;
    assert(all.skip(0) =~= all);
    assert(text::string_views(out@) =~= Seq::<Seq<char>>::empty());
    while start < ids.len()
        invariant
            start <= ids@.len(),
            all == text::string_views(ids@),
            title_batches_spec(all) == text::string_views(out@) + title_batches_spec(all.skip(start as int)),
        decreases ids@.len() - start,
    {
        let stop = if ids.len() - start > TITLE_BATCH { start + TITLE_BATCH } else { ids.len() };
        let mut chunk: Vec<String> = Vec::new();
        let mut i = start;
        while i < stop
            invariant
                start <= i <= stop <= ids@.len(),
                chunk@ == ids@.subrange(start as int, i as int),
            decreases stop - i,
        {
            chunk.push(ids[i].clone());
            assert(ids@.subrange(start as int, i + 1) =~= ids@.subrange(start as int, i as int).push(ids@[i as int]));
            i += 1;
        }
        let joined = text::join_strings(&chunk, ",");
        proof {
            let rest = all.skip(start as int);
            assert(text::string_views(chunk@) =~= rest.take((stop - start) as int));
            if rest.len() <= TITLE_BATCH {
                assert(rest.take((stop - start) as int) =~= rest);
                assert(all.skip(stop as int) =~= Seq::<Seq<char>>::empty());
            } else {
                assert(rest.skip(TITLE_BATCH as int) =~= all.skip(stop as int));
            }
        }
        let ghost o0 = out@;
        out.push(joined);
        assert(text::string_views(out@) =~= text::string_views(o0).push(joined@));
        start = stop;
    }
    assert(all.skip(start as int) =~= Seq::<Seq<char>>::empty());
    out
}

/// Titles by base identifier (without version).
pub struct TitleMap {
    pub entries: Vec<(String, String)>,
}

/// The keys of a list of pairs.
pub open spec fn keys_of(e: Seq<(String, String)>) -> Seq<Seq<char>> {
    e.map_values(|x: (String, String)| x.0@)
}

proof fn lemma_index_of_unique(ks: Seq<Seq<char>>, x: Seq<char>, i: int)
    requires
        ks.no_duplicates(),
        0 <= i < ks.len(),
        ks[i] == x,
    ensures
        ks.index_of(x) == i,
{
    assert(ks.contains(x));
    let c = ks.index_of(x);
    assert(0 <= c < ks.len() && ks[c] == x);
}

impl TitleMap {
    /// Each identifier appears once.
    pub open spec fn wf(&self) -> bool {
        keys_of(self.entries@).no_duplicates()
    }

    /// The map from identifier to title.
    pub open spec fn view_map(&self) -> Map<Seq<char>, Seq<char>> {
        Map::new(
            |k: Seq<char>| keys_of(self.entries@).contains(k),
            |k: Seq<char>| self.entries@[keys_of(self.entries@).index_of(k)].1@,
        )
    }

    /// No titles.
    pub fn new() -> (r: TitleMap)
        ensures
            r.wf(),
            r.view_map() == Map::<Seq<char>, Seq<char>>::empty(),
    {
        let r = TitleMap { entries: Vec::new() };
        assert(r.view_map() =~= Map::<Seq<char>, Seq<char>>::empty());
        r
    }

    fn position(&self, id: &str) -> (r: Option<usize>)
        ensures
            match r {
                Some(i) => i < self.entries@.len() && self.entries@[i as int].0@ == id@,
                None => !keys_of(self.entries@).contains(id@),
            },
    {
        let mut i: usize = 0;
        while i < self.entries.len()
            invariant
                i <= self.entries@.len(),
                forall|j: int| 0 <= j < i ==> self.entries@[j].0@ != id@,
            decreases self.entries@.len() - i,
        {
            if text::str_eq(self.entries[i].0.as_str(), id) {
                return Some(i);
            }
            i += 1;
        }
        proof {
            if keys_of(self.entries@).contains(id@) {
                let j = choose|j: int| 0 <= j < keys_of(self.entries@).len() && keys_of(self.entries@)[j] == id@;
                assert(self.entries@[j].0@ == id@);
            }
        }
        None
    }

    /// The title of `id`.
    pub fn get(&self, id: &str) -> (r: Option<String>)
        requires
            self.wf(),
        ensures
            repl::opt_view(r) == (if self.view_map().dom().contains(id@) {
                Some(self.view_map()[id@])
            } else {
                None::<Seq<char>>
            }),
    {
        match self.position(id) {
            Some(i) => {
                proof {
                    let ks = keys_of(self.entries@);
                    assert(ks[i as int] == id@);
                    assert(ks.contains(id@));
                    lemma_index_of_unique(ks, id@, i as int);
                }
                Some(self.entries[i].1.clone())
            },
            None => None,
        }
    }

    /// Records `title` for `id`, replacing an earlier one.
    pub fn insert(&mut self, id: String, title: String)
        requires
            old(self).wf(),
        ensures
            final(self).wf(),
            final(self).view_map() == old(self).view_map().insert(id@, title@),
    {
        let ghost old_e = self.entries@;
        match self.position(id.as_str()) {
            Some(i) => {
                self.entries.set(i, (id, title));
                proof {
                    let ks0 = keys_of(old_e);
                    let ks = keys_of(self.entries@);
                    assert(ks =~= ks0);
                    assert forall|k: Seq<char>| ks.contains(k) implies #[trigger] self.entries@[ks.index_of(k)].1@
                        == old_e.update(i as int, self.entries@[i as int])[ks.index_of(k)].1@ by {}
                    assert forall|k: Seq<char>| k != ks[i as int] && ks.contains(k) implies ks.index_of(k) != i by {
                        let j = choose|j: int| 0 <= j < ks.len() && ks[j] == k;
                        lemma_index_of_unique(ks, k, j);
                    }
                    lemma_index_of_unique(ks, ks[i as int], i as int);
                    assert(self.view_map() =~= old(self).view_map().insert(ks[i as int], self.entries@[i as int].1@));
                }
            },
            None => {
                self.entries.push((id, title));
                proof {
                    let ks0 = keys_of(old_e);
                    let ks = keys_of(self.entries@);
                    assert(ks =~= ks0.push(self.entries@.last().0@));
                    assert forall|a: int, b: int| 0 <= a < b < ks.len() implies ks[a] != ks[b] by {
                        if b == ks.len() - 1 {
                            assert(ks0.contains(ks[a]) || a >= ks0.len());
                        }
                    }
                    assert forall|k: Seq<char>| ks0.contains(k) implies ks.index_of(k) == ks0.index_of(k) by {
                        let j = choose|j: int| 0 <= j < ks0.len() && ks0[j] == k;
                        lemma_index_of_unique(ks0, k, j);
                        assert(ks[j] == k);
                        lemma_index_of_unique(ks, k, j);
                    }
                    let nk = self.entries@.last().0@;
                    let nv = self.entries@.last().1@;
                    lemma_index_of_unique(ks, nk, ks.len() - 1);
                    let target = old(self).view_map().insert(nk, nv);
                    assert forall|k: Seq<char>| #[trigger] self.view_map().dom().contains(k) == target.dom().contains(k) by {
                        if ks0.contains(k) {
                            let j = choose|j: int| 0 <= j < ks0.len() && ks0[j] == k;
                            assert(ks[j] == k);
                        }
                        if k == nk {
                            assert(ks[ks.len() - 1] == k);
                        }
                        if ks.contains(k) {
                            let j = choose|j: int| 0 <= j < ks.len() && ks[j] == k;
                            if j < ks0.len() {
                                assert(ks0[j] == k);
                            }
                        }
                    }
                    assert forall|k: Seq<char>| #[trigger] self.view_map().dom().contains(k) implies self.view_map()[k] == target[k] by {
                        if k != nk {
                            assert(ks0.contains(k));
                            let j = ks0.index_of(k);
                            assert(ks.index_of(k) == j);
                            assert(self.entries@[j] == old_e[j]);
                        }
                    }
                    assert(self.view_map() =~= target);
                }
            },
        }
    }
}

/// The titles after the feed's entries are recorded in order, each under
/// its identifier without version (a later entry replaces an earlier one).
pub open spec fn with_feed_titles(m: Map<Seq<char>, Seq<char>>, es: Seq<(Seq<char>, Seq<char>)>) -> Map<Seq<char>, Seq<char>>
    decreases es.len(),
{
    if es.len() == 0 {
        m
    } else {
        with_feed_titles(m, es.drop_last()).insert(crate::manifest::strip_version_spec(es.last().0), es.last().1)
    }
}

/// Adds the titles of an export-API Atom feed, each under its identifier
/// without version (later entries win).
pub fn add_feed_titles(map: &mut TitleMap, xml: &str)
    requires
        old(map).wf(),
    ensures
        final(map).wf(),
        final(map).view_map() == with_feed_titles(old(map).view_map(), atom_entries_spec(xml@)),
{
    let entries = parse_atom_entries(xml);
    let ghost es = entries@.map_values(|e: (String, String)| (e.0@, e.1@));
    let ghost m0 = map.view_map();
    let mut i: usize = 0;
    while i < entries.len()
        invariant
            i <= entries@.len(),
            es == entries@.map_values(|e: (String, String)| (e.0@, e.1@)),
            map.wf(),
            map.view_map() == with_feed_titles(m0, es.take(i as int)),
        decreases entries@.len() - i,
    {
        let id = crate::manifest::strip_version(entries[i].0.as_str());
        let title = entries[i].1.clone();
        map.insert(id, title);
        assert(es.take(i + 1).drop_last() =~= es.take(i as int));
        assert(es.take(i + 1).last() == es[i as int]);
        i += 1;
    }
    assert(es.take(entries@.len() as int) =~= es);
}

/// A title recorded for an identifier is the one read back for it.
pub proof fn law_title_insert_then_get(m: TitleMap, id: Seq<char>, title: Seq<char>)
    ensures
        m.view_map().insert(id, title).dom().contains(id),
        m.view_map().insert(id, title)[id] == title,
{
}

} // verus!
