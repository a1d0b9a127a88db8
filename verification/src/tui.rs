//! The state of the terminal interface: the papers shown, the texts of the
//! paper open, the view and input modes, the chat panel and the log.
use vstd::prelude::*;
use crate::workspace::{Paper, Workspace};
use crate::edit::{byte_of, byte_len, char_floor, char_index, is_boundary, lemma_boundary_index, lemma_byte_mono, lemma_char_floor, cut_range, char_offset};
use crate::text::{str_chars, string_from_chars, string_views, utf8_len};

verus! {

/// Which text of the open paper is shown.
#[derive(Clone, Copy, Debug, PartialEq, Eq, Structural)]
pub enum ViewMode {
    Body,
    Appendix,
    Note,
    Description,
}

/// What keys are interpreted as.
#[derive(Clone, Copy, Debug, PartialEq, Eq, Structural)]
pub enum InputMode {
    Normal,
    Chat,
    NoteEdit,
    Command,
}

/// A message shown in the chat panel.
pub struct ChatMsg {
    pub speaker: String,
    pub content: String,
}

/// The texts of a paper's folder; empty where a file could not be read.
pub struct PaperTexts {
    pub body: String,
    pub appendix: String,
    pub description: String,
    pub note: String,
}

/// One row of the preview as drawn: its text and the byte offset in the
/// shown text where it starts.
pub struct VisualRow {
    pub text: String,
    pub abs_byte_start: usize,
}

/// Most log lines kept.
pub const MAX_LOG_LINES: usize = 200;

/// The interface's state.
pub struct App {
    pub workspace: Option<Workspace>,
    pub papers: Vec<Paper>,
    pub current_paper: Option<Paper>,
    pub preview_content: String,
    pub note_content: String,
    pub desc_content: String,
    pub appendix_content: String,
    pub view_mode: ViewMode,
    pub paper_list_scroll: usize,
    pub paper_list_selected: usize,
    pub preview_scroll: u16,
    pub show_chat: bool,
    pub chat_input: String,
    pub chat_messages: Vec<ChatMsg>,
    pub chat_scroll: usize,
    pub chat_streaming: bool,
    pub chat_model: String,
    pub chat_cursor: usize,
    pub cmd_cursor: usize,
    pub deep_thinking: bool,
    pub log_lines: Vec<String>,
    pub status: String,
    pub input_mode: InputMode,
    pub quit: bool,
    pub workspace_path_str: String,
    pub selecting: bool,
    pub sel_start: Option<(u16, u16)>,
    pub sel_end: Option<(u16, u16)>,
    pub just_selected: bool,
    pub mouse_col: u16,
    pub mouse_row: u16,
    pub left_width_pct: u16,
    pub right_width_pct: u16,
    pub dragging_border: Option<usize>,
    /// Hotkeys are off: printable keys type into a focused note.
    pub hotkeys_locked: bool,
    /// The preview has the text cursor.
    pub preview_focused: bool,
    /// Byte offset of the text cursor in the shown text.
    pub preview_cursor: usize,
    /// The preview's rows as last drawn, for mapping screen cells to bytes.
    pub screen_map: Vec<VisualRow>,
    /// The preview's scrollbar is being dragged.
    pub dragging_scrollbar: bool,
    /// The mouse is over the seam left of the preview.
    pub hover_left_border: bool,
    /// The mouse is over the seam right of the preview.
    pub hover_right_border: bool,
}

/// The interface's state as values: texts as characters, the log and the
/// chat as sequences.
#[verifier::ext_equal]
pub struct AppView {
    pub workspace: Option<Workspace>,
    pub papers: Seq<Paper>,
    pub current_paper: Option<Paper>,
    pub body: Seq<char>,
    pub note: Seq<char>,
    pub description: Seq<char>,
    pub appendix: Seq<char>,
    pub view_mode: ViewMode,
    pub paper_list_scroll: usize,
    pub paper_list_selected: usize,
    pub preview_scroll: u16,
    pub show_chat: bool,
    pub chat_input: Seq<char>,
    /// Speaker and content of each message.
    pub chat_messages: Seq<(Seq<char>, Seq<char>)>,
    pub chat_scroll: usize,
    pub chat_streaming: bool,
    pub chat_model: Seq<char>,
    pub chat_cursor: usize,
    pub cmd_cursor: usize,
    pub deep_thinking: bool,
    pub log_lines: Seq<Seq<char>>,
    pub status: Seq<char>,
    pub input_mode: InputMode,
    pub quit: bool,
    pub workspace_path: Seq<char>,
    pub selecting: bool,
    pub sel_start: Option<(u16, u16)>,
    pub sel_end: Option<(u16, u16)>,
    pub just_selected: bool,
    pub mouse_col: u16,
    pub mouse_row: u16,
    pub left_width_pct: u16,
    pub right_width_pct: u16,
    pub dragging_border: Option<usize>,
    pub hotkeys_locked: bool,
    pub preview_focused: bool,
    pub preview_cursor: usize,
    /// Text and starting byte of each drawn row.
    pub screen_map: Seq<(Seq<char>, usize)>,
    pub dragging_scrollbar: bool,
    pub hover_left_border: bool,
    pub hover_right_border: bool,
}

/// Speaker and content of each chat message.
pub open spec fn msg_views(m: Seq<ChatMsg>) -> Seq<(Seq<char>, Seq<char>)> {
    m.map_values(|x: ChatMsg| (x.speaker@, x.content@))
}

/// Text and starting byte of each drawn row.
pub open spec fn row_views(r: Seq<VisualRow>) -> Seq<(Seq<char>, usize)> {
    r.map_values(|x: VisualRow| (x.text@, x.abs_byte_start))
}

impl View for App {
    type V = AppView;

    open spec fn view(&self) -> AppView {
        AppView {
            workspace: self.workspace,
            papers: self.papers@,
            current_paper: self.current_paper,
            body: self.preview_content@,
            note: self.note_content@,
            description: self.desc_content@,
            appendix: self.appendix_content@,
            view_mode: self.view_mode,
            paper_list_scroll: self.paper_list_scroll,
            paper_list_selected: self.paper_list_selected,
            preview_scroll: self.preview_scroll,
            show_chat: self.show_chat,
            chat_input: self.chat_input@,
            chat_messages: msg_views(self.chat_messages@),
            chat_scroll: self.chat_scroll,
            chat_streaming: self.chat_streaming,
            chat_model: self.chat_model@,
            chat_cursor: self.chat_cursor,
            cmd_cursor: self.cmd_cursor,
            deep_thinking: self.deep_thinking,
            log_lines: string_views(self.log_lines@),
            status: self.status@,
            input_mode: self.input_mode,
            quit: self.quit,
            workspace_path: self.workspace_path_str@,
            selecting: self.selecting,
            sel_start: self.sel_start,
            sel_end: self.sel_end,
            just_selected: self.just_selected,
            mouse_col: self.mouse_col,
            mouse_row: self.mouse_row,
            left_width_pct: self.left_width_pct,
            right_width_pct: self.right_width_pct,
            dragging_border: self.dragging_border,
            hotkeys_locked: self.hotkeys_locked,
            preview_focused: self.preview_focused,
            preview_cursor: self.preview_cursor,
            screen_map: row_views(self.screen_map@),
            dragging_scrollbar: self.dragging_scrollbar,
            hover_left_border: self.hover_left_border,
            hover_right_border: self.hover_right_border,
        }
    }
}

/// The text of the current view.
pub open spec fn shown(v: AppView) -> Seq<char> {
    match v.view_mode {
        ViewMode::Body => v.body,
        ViewMode::Appendix => v.appendix,
        ViewMode::Note => v.note,
        ViewMode::Description => v.description,
    }
}

/// The state with the text of the current view replaced.
pub open spec fn set_shown(v: AppView, t: Seq<char>) -> AppView {
    match v.view_mode {
        ViewMode::Body => AppView { body: t, ..v },
        ViewMode::Appendix => AppView { appendix: t, ..v },
        ViewMode::Note => AppView { note: t, ..v },
        ViewMode::Description => AppView { description: t, ..v },
    }
}

/// The log after a line is added: the line at the end, the oldest line
/// dropped once there are more than [`MAX_LOG_LINES`].
pub open spec fn log_push(log: Seq<Seq<char>>, msg: Seq<char>) -> Seq<Seq<char>> {
    let all = log.push(msg);
    if all.len() > MAX_LOG_LINES {
        all.drop_first()
    } else {
        all
    }
}

/// The byte of the shown text under the preview cell at `row`, `col`
/// (counted from the preview's first drawn row): the row's start plus the
/// bytes of the characters before column `col`. None past the drawn rows,
/// past the row's characters, or beyond the addressable range.
pub open spec fn screen_byte(v: AppView, row: u16, col: u16) -> Option<int> {
    let i = row + v.preview_scroll;
    if i < v.screen_map.len() && col < v.screen_map[i].0.len() {
        let b = v.screen_map[i].1 + byte_of(v.screen_map[i].0, col as int);
        if b <= usize::MAX {
            Some(b)
        } else {
            None
        }
    } else {
        None
    }
}

/// A screen cell's byte, or 0 where it has none.
pub open spec fn cell_byte(v: AppView, cell: Option<(u16, u16)>) -> int {
    match cell {
        Some((x, y)) => match screen_byte(v, y, x) {
            Some(b) => b,
            None => 0,
        },
        None => 0,
    }
}

/// Both ends of a selection are set.
pub open spec fn has_sel(v: AppView) -> bool {
    v.sel_start is Some && v.sel_end is Some
}

/// The selected bytes of the shown text, from the lower end to the higher
/// one, capped at the text's end.
pub open spec fn sel_range(v: AppView) -> (int, int) {
    let b1 = cell_byte(v, v.sel_start);
    let b2 = cell_byte(v, v.sel_end);
    let lo = if b1 <= b2 { b1 } else { b2 };
    let hi = if b1 <= b2 { b2 } else { b1 };
    let n = utf8_len(shown(v)) as int;
    (lo, if hi <= n { hi } else { n })
}

/// The selection can be cut out: its ends are character boundaries in order
/// (else `String::replace_range` panics).
pub open spec fn sel_cut_ok(v: AppView) -> bool {
    let (lo, hi) = sel_range(v);
    &&& lo <= hi
    &&& is_boundary(shown(v), lo)
    &&& is_boundary(shown(v), hi)
}

/// The text with bytes `lo..hi` taken out.
pub open spec fn cut_spec(t: Seq<char>, lo: int, hi: int) -> Seq<char> {
    t.take(char_floor(t, lo)) + t.skip(char_floor(t, hi))
}

/// The state after the selection is deleted: the selected bytes cut from
/// the shown text, the selection cleared, the cursor at the cut.
#[verifier::opaque]
pub open spec fn del_sel_spec(v: AppView) -> AppView {
    let (lo, hi) = sel_range(v);
    let t = cut_spec(shown(v), lo, hi);
    let n = utf8_len(t) as int;
    set_shown(
        AppView {
            sel_start: None,
            sel_end: None,
            preview_cursor: (if lo <= n { lo } else { n }) as usize,
            ..v
        },
        t,
    )
}

/// The selected text.
#[verifier::opaque]
pub open spec fn sel_text(v: AppView) -> Seq<char> {
    let (lo, hi) = sel_range(v);
    if lo <= hi && is_boundary(shown(v), lo) && is_boundary(shown(v), hi) {
        shown(v).subrange(char_floor(shown(v), lo), char_floor(shown(v), hi))
    } else {
        Seq::empty()
    }
}

/// The log of strings after a line is added.
pub open spec fn log_after(log: Seq<String>, msg: Seq<char>) -> Seq<Seq<char>> {
    log_push(string_views(log), msg)
}

/// The text shown in a view.
pub open spec fn shown_text(a: &App) -> Seq<char> {
    match a.view_mode {
        ViewMode::Body => a.preview_content@,
        ViewMode::Appendix => a.appendix_content@,
        ViewMode::Note => a.note_content@,
        ViewMode::Description => a.desc_content@,
    }
}

impl App {
    /// A fresh interface using the given chat model.
    pub fn new(chat_model: String) -> (r: App)
        ensures
            r.workspace is None,
            r.papers@.len() == 0,
            r.current_paper is None,
            r.preview_content@.len() == 0,
            r.note_content@.len() == 0,
            r.desc_content@.len() == 0,
            r.appendix_content@.len() == 0,
            r.view_mode == ViewMode::Body,
            r.paper_list_scroll == 0,
            r.paper_list_selected == 0,
            r.preview_scroll == 0,
            !r.show_chat,
            r.chat_input@.len() == 0,
            r.chat_messages@.len() == 0,
            r.chat_scroll == 0,
            !r.chat_streaming,
            r.chat_model@ == chat_model@,
            r.chat_cursor == 0,
            r.cmd_cursor == 1,
            r.deep_thinking,
            r.log_lines@.len() == 0,
            r.status@ == "Press ? for help, q to quit"@,
            r.input_mode == InputMode::Normal,
            !r.quit,
            r.workspace_path_str@.len() == 0,
            !r.selecting,
            r.sel_start is None,
            r.sel_end is None,
            !r.just_selected,
            r.mouse_col == 0,
            r.mouse_row == 0,
            r.left_width_pct == 25,
            r.right_width_pct == 35,
            r.dragging_border is None,
            !r.hotkeys_locked,
            !r.preview_focused,
            r.preview_cursor == 0,
            r.screen_map@.len() == 0,
            !r.dragging_scrollbar,
            !r.hover_left_border,
            !r.hover_right_border,
    {
        App {
            workspace: None,
            papers: Vec::new(),
            current_paper: None,
            preview_content: String::new(),
            note_content: String::new(),
            desc_content: String::new(),
            appendix_content: String::new(),
            view_mode: ViewMode::Body,
            paper_list_scroll: 0,
            paper_list_selected: 0,
            preview_scroll: 0,
            show_chat: false,
            chat_input: String::new(),
            chat_messages: Vec::new(),
            chat_scroll: 0,
            chat_streaming: false,
            chat_model,
            chat_cursor: 0,
            cmd_cursor: 1,
            deep_thinking: true,
            log_lines: Vec::new(),
            status: String::from_str("Press ? for help, q to quit"),
            input_mode: InputMode::Normal,
            quit: false,
            workspace_path_str: String::new(),
            selecting: false,
            sel_start: None,
            sel_end: None,
            just_selected: false,
            mouse_col: 0,
            mouse_row: 0,
            left_width_pct: 25,
            right_width_pct: 35,
            dragging_border: None,
            hotkeys_locked: false,
            preview_focused: false,
            preview_cursor: 0,
            screen_map: Vec::new(),
            dragging_scrollbar: false,
            hover_left_border: false,
            hover_right_border: false,
        }
    }

    /// Adds a line to the log, dropping the oldest beyond [`MAX_LOG_LINES`].
    pub fn add_log(&mut self, msg: &str)
        ensures
            string_views(final(self).log_lines@) == log_after(old(self).log_lines@, msg@),
            *final(self) == (App { log_lines: final(self).log_lines, ..*old(self) }),
    {
        let ghost before = self.log_lines@;
        self.log_lines.push(String::from_str(msg));
        if self.log_lines.len() > MAX_LOG_LINES {
            self.log_lines.remove(0);
        }
        assert(string_views(self.log_lines@) =~= log_after(before, msg@));
    }

    /// Opens the paper at `idx` with the texts read from its folder: the
    /// body is shown from the top. An index past the list changes nothing.
    pub fn load_paper(&mut self, idx: usize, texts: PaperTexts)
        ensures
            idx >= old(self).papers@.len() ==> *final(self) == *old(self),
            idx < old(self).papers@.len() ==> {
                &&& final(self).current_paper == Some(old(self).papers@[idx as int])
                &&& final(self).preview_content == texts.body
                &&& final(self).appendix_content == texts.appendix
                &&& final(self).desc_content == texts.description
                &&& final(self).note_content == texts.note
                &&& final(self).view_mode == ViewMode::Body
                &&& final(self).preview_scroll == 0
                &&& final(self).papers == old(self).papers
            },
    {
        if idx >= self.papers.len() {
            return;
        }
        let p = self.papers[idx].duplicate();
        self.preview_content = texts.body;
        self.appendix_content = texts.appendix;
        self.desc_content = texts.description;
        self.note_content = texts.note;
        self.current_paper = Some(p);
        self.view_mode = ViewMode::Body;
        self.preview_scroll = 0;
    }

    /// The text of the current view.
    pub fn current_text(&self) -> (r: &str)
        ensures
            r@ == shown_text(self),
    {
        match self.view_mode {
            ViewMode::Body => self.preview_content.as_str(),
            ViewMode::Appendix => self.appendix_content.as_str(),
            ViewMode::Note => self.note_content.as_str(),
            ViewMode::Description => self.desc_content.as_str(),
        }
    }

    /// The text of the current view, for editing in place.
    pub fn current_text_mut(&mut self) -> (r: &mut String)
        ensures
            r@ == shown_text(old(self)),
            match old(self).view_mode {
                ViewMode::Body => *final(self) == (App { preview_content: *final(r), ..*old(self) }),
                ViewMode::Appendix => *final(self) == (App { appendix_content: *final(r), ..*old(self) }),
                ViewMode::Note => *final(self) == (App { note_content: *final(r), ..*old(self) }),
                ViewMode::Description => *final(self) == (App { desc_content: *final(r), ..*old(self) }),
            },
    {
        match self.view_mode {
            ViewMode::Body => &mut self.preview_content,
            ViewMode::Appendix => &mut self.appendix_content,
            ViewMode::Note => &mut self.note_content,
            ViewMode::Description => &mut self.desc_content,
        }
    }
}

impl App {
    /// Replaces the text of the current view.
    pub fn set_current_text(&mut self, t: String)
        ensures
            final(self)@ == set_shown(old(self)@, t@),
    {
        match self.view_mode {
            ViewMode::Body => self.preview_content = t,
            ViewMode::Appendix => self.appendix_content = t,
            ViewMode::Note => self.note_content = t,
            ViewMode::Description => self.desc_content = t,
        }
        assert(self@ =~= set_shown(old(self)@, t@));
    }

    /// The byte of the shown text under the preview cell at `row`, `col`.
    pub fn screen_to_byte(&self, row: u16, col: u16) -> (r: Option<usize>)
        ensures
            match r {
                Some(b) => screen_byte(self@, row, col) == Some(b as int),
                None => screen_byte(self@, row, col) is None,
            },
    {
        let i = row as usize + self.preview_scroll as usize;
        if i >= self.screen_map.len() {
            return None;
        }
        let vr = &self.screen_map[i];
        let cs = str_chars(vr.text.as_str());
        if col as usize >= cs.len() {
            return None;
        }
        let off = char_offset(vr.text.as_str(), col as usize);
        vr.abs_byte_start.checked_add(off)
    }

    fn cell_to_byte(&self, cell: Option<(u16, u16)>) -> (r: usize)
        ensures
            r == cell_byte(self@, cell),
    {
        match cell {
            Some((x, y)) => match self.screen_to_byte(y, x) {
                Some(b) => b,
                None => 0,
            },
            None => 0,
        }
    }

    /// The selected bytes, lower end first, capped at the text's end.
    pub fn sel_bounds(&self) -> (r: (usize, usize))
        ensures
            r.0 == sel_range(self@).0,
            r.1 == sel_range(self@).1,
    {
        let b1 = self.cell_to_byte(self.sel_start);
        let b2 = self.cell_to_byte(self.sel_end);
        let lo = if b1 <= b2 { b1 } else { b2 };
        let hi = if b1 <= b2 { b2 } else { b1 };
        let n = byte_len(self.current_text());
        (lo, if hi <= n { hi } else { n })
    }

    /// Deletes the selected text and puts the cursor where it was.
    pub fn delete_selection(&mut self)
        requires
            sel_cut_ok(old(self)@),
        ensures
            final(self)@ == del_sel_spec(old(self)@),
    {
        let ghost v0 = self@;
        proof {
            reveal(del_sel_spec);
        }
        let (lo, hi) = self.sel_bounds();
        let t = cut_range(&self.current_text().to_string(), lo, hi);
        let n = byte_len(t.as_str());
        self.sel_start = None;
        self.sel_end = None;
        self.preview_cursor = if lo <= n { lo } else { n };
        self.set_current_text(t);
        assert(self@ =~= del_sel_spec(v0));
    }

    /// The selected text of the current view; empty where the selection's
    /// ends are not character boundaries in order.
    pub fn selected_text(&self) -> (r: String)
        ensures
            r@ == sel_text(self@),
    {
        proof {
            reveal(sel_text);
        }
        let (lo, hi) = self.sel_bounds();
        let t = self.current_text();
        let n = byte_len(t);
        let s = str_chars(t);
        if lo > hi {
            return String::new();
        }
        let a = char_index(&s, lo);
        let b = char_index(&s, hi);
        proof {
            lemma_char_floor(s@, lo as int);
            lemma_char_floor(s@, hi as int);
        }
        let la = char_offset(t, a);
        let lb = char_offset(t, b);
        if la != lo || lb != hi {
            return String::new();
        }
        proof {
            if b < a {
                lemma_byte_mono(s@, b + 1, a as int);
            }
        }
        let mut v: Vec<char> = Vec::new();
        let mut i = a;
        while i < b
            invariant
                a <= i <= b <= s@.len(),
                v@ == s@.subrange(a as int, i as int),
            decreases b - i,
        {
            v.push(s[i]);
            assert(s@.subrange(a as int, i + 1) =~= s@.subrange(a as int, i as int).push(s@[i as int]));
            i += 1;
        }
        string_from_chars(&v)
    }
}

/// The log never holds more than [`MAX_LOG_LINES`] lines, and its last line
/// is the one added last.
pub proof fn law_log_is_bounded(log: Seq<String>, msg: Seq<char>)
    requires
        log.len() <= MAX_LOG_LINES,
    ensures
        log_after(log, msg).len() <= MAX_LOG_LINES,
        log_after(log, msg).last() == msg,
{
}

} // verus!
