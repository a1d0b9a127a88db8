//! What the interface does with a key press in each input mode. The state
//! changes are made here; what needs the outside world (the clipboard, the
//! disk, a browser, a download) is handed back as an action.
use vstd::prelude::*;
use crate::edit::{
    lemma_char_floor, lemma_char_floor_mono, lemma_cut_len, byte_len, char_floor, floor_boundary, floor_boundary_spec, insert_char_at, insert_spec,
    insert_str_at, is_boundary, move_cursor, move_spec, next_boundary, next_boundary_spec, remove_char_at,
    remove_spec, CursorMove,
};
use crate::text::{
    concat_str, decimal, decimal_spec, push_char, str_chars, str_eq, string_from_chars, utf8_len,
    utf8_width,
};
use crate::tui::{
    del_sel_spec, has_sel, log_push, msg_views, sel_cut_ok, sel_range, sel_text, set_shown, shown, App, AppView,
    ChatMsg, InputMode, ViewMode,
};

verus! {

/// A key, as the terminal reports it.
#[derive(Clone, Copy, Debug, PartialEq, Eq, Structural)]
pub enum Key {
    Char(char),
    Enter,
    Esc,
    Backspace,
    Delete,
    Left,
    Right,
    Up,
    Down,
    Home,
    End,
    PageUp,
    PageDown,
    Other,
}

/// A key press with the modifiers held.
#[derive(Clone, Copy, Debug, PartialEq, Eq, Structural)]
pub struct KeyPress {
    pub key: Key,
    pub control: bool,
    pub alt: bool,
    pub shift: bool,
    /// Any other modifier (super, hyper, meta).
    pub other_modifiers: bool,
}

/// Control is the only modifier held.
pub open spec fn ctrl_only(k: KeyPress) -> bool {
    k.control && !k.alt && !k.shift && !k.other_modifiers
}

pub(crate) fn is_ctrl(k: &KeyPress) -> (r: bool)
    ensures
        r == ctrl_only(*k),
{
    k.control && !k.alt && !k.shift && !k.other_modifiers
}

/// What is left to do after a key press.
pub enum KeyAction {
    Nothing,
    /// Read the clipboard and hand its text to [`App::paste`].
    Paste,
    /// Write the note of the open paper to its folder.
    SaveNote,
    /// Put this text on the clipboard.
    Copy(String),
    /// Open this folder or address with the system's handler.
    Open(String),
    /// Look for new PDFs in the workspace.
    Scan,
    /// Download every pending paper.
    DownloadAll,
    /// Read the texts of the paper at this index and load them.
    LoadPaper(usize),
}

/// A [`KeyAction`] as a value.
pub enum Act {
    Nothing,
    Paste,
    SaveNote,
    Copy(Seq<char>),
    Open(Seq<char>),
    Scan,
    DownloadAll,
    LoadPaper(usize),
}

impl View for KeyAction {
    type V = Act;

    open spec fn view(&self) -> Act {
        match self {
            KeyAction::Nothing => Act::Nothing,
            KeyAction::Paste => Act::Paste,
            KeyAction::SaveNote => Act::SaveNote,
            KeyAction::Copy(s) => Act::Copy(s@),
            KeyAction::Open(s) => Act::Open(s@),
            KeyAction::Scan => Act::Scan,
            KeyAction::DownloadAll => Act::DownloadAll,
            KeyAction::LoadPaper(i) => Act::LoadPaper(*i),
        }
    }
}

pub open spec fn sat_sub(a: int, b: int) -> int {
    if a >= b {
        a - b
    } else {
        0
    }
}

/// Ctrl+V: paste, in every mode but Normal.
pub open spec fn is_paste(k: KeyPress) -> bool {
    k.key == Key::Char('v') && ctrl_only(k)
}

/// The address of a paper's PDF.
pub open spec fn pdf_url(id: Seq<char>) -> Seq<char> {
    "https://arxiv.org/pdf/"@ + id
}

// ---------------------------------------------------------------- Chat mode

/// Enter in Chat mode: a non-empty input becomes the user's message, shown
/// at the bottom of the chat, and the input is cleared.
#[verifier::opaque]
pub open spec fn chat_send(v: AppView) -> AppView {
    let s = v.chat_input;
    if s.len() == 0 {
        AppView { chat_cursor: 0, ..v }
    } else {
        let msgs = v.chat_messages.push(("user"@, s));
        AppView {
            chat_input: Seq::empty(),
            chat_messages: msgs,
            chat_scroll: (msgs.len() - 1) as usize,
            log_lines: log_push(v.log_lines, "sending..."@),
            chat_cursor: 0,
            ..v
        }
    }
}

/// Backspace in Chat mode: the character before the cursor goes.
#[verifier::opaque]
pub open spec fn chat_backspace(v: AppView) -> AppView {
    let s = v.chat_input;
    let c = v.chat_cursor as int;
    if c > 0 {
        let p = floor_boundary_spec(s, c - 1) as int;
        AppView { chat_cursor: p as usize, chat_input: remove_spec(s, char_floor(s, p)), ..v }
    } else {
        v
    }
}

/// Delete in Chat mode: the character at the cursor goes.
#[verifier::opaque]
pub open spec fn chat_delete(v: AppView) -> AppView {
    let s = v.chat_input;
    let c = v.chat_cursor as int;
    if c < utf8_len(s) {
        AppView { chat_input: remove_spec(s, char_floor(s, c)), ..v }
    } else {
        v
    }
}

/// A character typed in Chat mode goes in at the cursor.
#[verifier::opaque]
pub open spec fn chat_type(v: AppView, ch: char) -> AppView {
    let s = v.chat_input;
    let c = v.chat_cursor as int;
    AppView { chat_input: insert_spec(s, char_floor(s, c), ch), chat_cursor: (c + utf8_width(ch)) as usize, ..v }
}

/// Left and Right in Chat mode move the cursor over one whole character,
/// End to the end of the input.
#[verifier::opaque]
pub open spec fn chat_move(v: AppView, key: Key) -> AppView {
    let s = v.chat_input;
    let c = v.chat_cursor as int;
    match key {
        Key::Left => AppView { chat_cursor: floor_boundary_spec(s, sat_sub(c, 1)) as usize, ..v },
        Key::Right => AppView { chat_cursor: next_boundary_spec(s, c) as usize, ..v },
        _ => AppView { chat_cursor: utf8_len(s) as usize, ..v },
    }
}

/// A key in Chat mode edits the chat input at its cursor; Enter posts the
/// input as the user's message, Esc closes the chat.
pub open spec fn chat_key(v: AppView, k: KeyPress) -> (AppView, Act) {
    if is_paste(k) {
        (v, Act::Paste)
    } else {
        match k.key {
            Key::Esc => (AppView { input_mode: InputMode::Normal, show_chat: false, ..v }, Act::Nothing),
            Key::Enter => (chat_send(v), Act::Nothing),
            Key::Backspace => (chat_backspace(v), Act::Nothing),
            Key::Delete => (chat_delete(v), Act::Nothing),
            Key::Left | Key::Right | Key::End => (chat_move(v, k.key), Act::Nothing),
            Key::Home => (AppView { chat_cursor: 0, ..v }, Act::Nothing),
            Key::Char(ch) => (chat_type(v, ch), Act::Nothing),
            _ => (v, Act::Nothing),
        }
    }
}

/// The Chat-mode keys on which `String`'s editing methods do not panic.
#[verifier::opaque]
pub open spec fn chat_key_ok(v: AppView, k: KeyPress) -> bool {
    let s = v.chat_input;
    let c = v.chat_cursor as int;
    let n = utf8_len(s) as int;
    if is_paste(k) {
        true
    } else {
        match k.key {
            Key::Backspace => c > 0 ==> c - 1 < n,
            Key::Delete => c < n ==> is_boundary(s, c),
            Key::Char(_) => is_boundary(s, c) && c <= n && n + 4 <= isize::MAX,
            _ => true,
        }
    }
}

// ------------------------------------------------------------- Command mode

/// The command typed after the colon.
pub open spec fn strip_colon(s: Seq<char>) -> Seq<char> {
    if s.len() > 0 && s[0] == ':' {
        s.drop_first()
    } else {
        Seq::empty()
    }
}

/// What a command does: `o`/`open` opens the paper's folder, `p`/`pdf` its
/// PDF, `scan` and `dl`/`download` start those jobs; anything else is
/// logged as unknown.
#[verifier::opaque]
pub open spec fn run_command(v: AppView, body: Seq<char>) -> (AppView, Act) {
    if body == "o"@ || body == "open"@ {
        match v.current_paper {
            Some(p) => (v, Act::Open(p.folder@)),
            None => (v, Act::Nothing),
        }
    } else if body == "p"@ || body == "pdf"@ {
        match v.current_paper {
            Some(p) => (v, Act::Open(pdf_url(p.arxiv_id@))),
            None => (v, Act::Nothing),
        }
    } else if body == "scan"@ {
        (v, Act::Scan)
    } else if body == "dl"@ || body == "download"@ {
        (v, Act::DownloadAll)
    } else {
        (AppView { log_lines: log_push(v.log_lines, "unknown: "@ + body), ..v }, Act::Nothing)
    }
}

/// Backspace and Delete on the command line: the character before the
/// cursor (not the colon) or at it goes.
#[verifier::opaque]
pub open spec fn command_erase(v: AppView, key: Key) -> AppView {
    let s = v.status;
    let c = v.cmd_cursor as int;
    if key == Key::Backspace {
        if c > 1 {
            AppView { cmd_cursor: (c - 1) as usize, status: remove_spec(s, char_floor(s, c - 1)), ..v }
        } else {
            v
        }
    } else if c < utf8_len(s) {
        AppView { status: remove_spec(s, char_floor(s, c)), ..v }
    } else {
        v
    }
}

/// A character typed on the command line goes in at the cursor.
#[verifier::opaque]
pub open spec fn command_insert(v: AppView, ch: char) -> AppView {
    let s = v.status;
    let c = v.cmd_cursor as int;
    AppView { status: insert_spec(s, char_floor(s, c), ch), cmd_cursor: (c + utf8_width(ch)) as usize, ..v }
}

/// The cursor keys on the command line; the cursor stays after the colon.
#[verifier::opaque]
pub open spec fn command_move(v: AppView, key: Key) -> AppView {
    let c = v.cmd_cursor as int;
    let n = utf8_len(v.status) as int;
    match key {
        Key::Left => AppView { cmd_cursor: (if c >= 2 { c - 1 } else { 1 }) as usize, ..v },
        Key::Right => AppView { cmd_cursor: (if c + 1 <= n { c + 1 } else { n }) as usize, ..v },
        Key::Home => AppView { cmd_cursor: 1, ..v },
        Key::End => AppView { cmd_cursor: n as usize, ..v },
        _ => v,
    }
}

/// Editing keys on the command line.
pub open spec fn command_edit(v: AppView, k: KeyPress) -> AppView {
    match k.key {
        Key::Backspace | Key::Delete => command_erase(v, k.key),
        Key::Char(ch) => command_insert(v, ch),
        _ => command_move(v, k.key),
    }
}

/// A key in Command mode edits the command line (the status text after its
/// colon); Enter runs the command, Esc drops it.
pub open spec fn command_key(v: AppView, k: KeyPress) -> (AppView, Act) {
    if is_paste(k) {
        (v, Act::Paste)
    } else {
        match k.key {
            Key::Esc => (AppView { input_mode: InputMode::Normal, status: Seq::empty(), cmd_cursor: 1, ..v }, Act::Nothing),
            Key::Enter => run_command(
                AppView { status: Seq::empty(), cmd_cursor: 1, input_mode: InputMode::Normal, ..v },
                strip_colon(v.status),
            ),
            _ => (command_edit(v, k), Act::Nothing),
        }
    }
}

/// The Command-mode keys on which `String`'s editing methods do not panic.
#[verifier::opaque]
pub open spec fn command_key_ok(v: AppView, k: KeyPress) -> bool {
    let s = v.status;
    let c = v.cmd_cursor as int;
    let n = utf8_len(s) as int;
    if is_paste(k) {
        true
    } else {
        match k.key {
            Key::Backspace => c > 1 ==> c - 1 < n && is_boundary(s, c - 1),
            Key::Delete => c < n ==> is_boundary(s, c),
            Key::Right => c < usize::MAX,
            Key::Char(_) => is_boundary(s, c) && c <= n && n + 4 <= isize::MAX,
            _ => true,
        }
    }
}

// ---------------------------------------------------------- NoteEdit mode

/// The state with the selection deleted, if there is one.
pub open spec fn after_sel(v: AppView) -> AppView {
    if has_sel(v) {
        del_sel_spec(v)
    } else {
        v
    }
}

/// Backspace or Delete in the note editor: the selection goes, or else the
/// last character of the text.
#[verifier::opaque]
pub open spec fn note_erase(v: AppView) -> AppView {
    if has_sel(v) {
        del_sel_spec(v)
    } else {
        let t = shown(v);
        set_shown(v, if t.len() > 0 { t.drop_last() } else { t })
    }
}

/// A character typed in the note editor replaces the selection and goes at
/// the end of the text.
#[verifier::opaque]
pub open spec fn note_type(v: AppView, ch: char) -> AppView {
    set_shown(after_sel(v), shown(after_sel(v)).push(ch))
}

/// Esc in the note editor: back to Normal mode without a selection; with a
/// paper open, the note is saved.
#[verifier::opaque]
pub open spec fn note_close(v: AppView) -> (AppView, Act) {
    match v.current_paper {
        Some(_) => (
            AppView {
                log_lines: log_push(v.log_lines, "note saved"@),
                input_mode: InputMode::Normal,
                sel_start: None,
                sel_end: None,
                ..v
            },
            Act::SaveNote,
        ),
        None => (AppView { input_mode: InputMode::Normal, sel_start: None, sel_end: None, ..v }, Act::Nothing),
    }
}

/// A key in NoteEdit mode types at the end of the shown text, replacing
/// the selection; Esc saves the note and leaves the editor.
pub open spec fn note_key(v: AppView, k: KeyPress) -> (AppView, Act) {
    if is_paste(k) {
        (v, Act::Paste)
    } else {
        match k.key {
            Key::Esc => note_close(v),
            Key::Backspace | Key::Delete => (note_erase(v), Act::Nothing),
            Key::Enter => (note_type(v, '\n'), Act::Nothing),
            Key::Char(ch) => (note_type(v, ch), Act::Nothing),
            _ => (v, Act::Nothing),
        }
    }
}

/// The NoteEdit keys on which cutting the selection does not panic.
pub open spec fn note_key_ok(v: AppView, k: KeyPress) -> bool {
    if is_paste(k) {
        true
    } else {
        match k.key {
            Key::Backspace | Key::Delete | Key::Enter | Key::Char(_) => (has_sel(v) ==> sel_cut_ok(v)),
            _ => true,
        }
    }
}

// ------------------------------------------------------------------- Paste

/// Number of `'\n'` in `s`.
pub open spec fn newline_count(s: Seq<char>) -> nat
    decreases s.len(),
{
    if s.len() == 0 {
        0
    } else {
        newline_count(s.drop_last()) + (if s.last() == '\n' { 1nat } else { 0nat })
    }
}

/// Number of lines `str::lines` yields: a final line feed ends the last
/// line rather than starting an empty one.
pub open spec fn line_count(s: Seq<char>) -> nat {
    newline_count(s) + (if s.len() > 0 && s.last() != '\n' { 1nat } else { 0nat })
}

/// What a paste inserts: the clipboard text, or a short placeholder for a
/// text of several lines.
pub open spec fn paste_text(clip: Seq<char>) -> Seq<char> {
    let l = line_count(clip);
    if l > 1 {
        "[Pasted ~"@ + decimal_spec(l) + " lines]"@
    } else {
        clip
    }
}

/// A paste: at the chat cursor, at the end of the edited note (replacing
/// the selection), or as the whole command line.
#[verifier::opaque]
pub open spec fn paste_spec(v: AppView, clip: Seq<char>) -> AppView {
    let p = paste_text(clip);
    match v.input_mode {
        InputMode::Chat => {
            let s = v.chat_input;
            let k = char_floor(s, v.chat_cursor as int);
            AppView {
                chat_input: s.take(k) + p + s.skip(k),
                chat_cursor: (v.chat_cursor + utf8_len(p)) as usize,
                ..v
            }
        },
        InputMode::NoteEdit => set_shown(after_sel(v), shown(after_sel(v)) + p),
        InputMode::Command => AppView { status: p, cmd_cursor: utf8_len(p) as usize, ..v },
        InputMode::Normal => v,
    }
}

/// The pastes on which `String`'s methods do not panic.
pub open spec fn paste_ok(v: AppView, clip: Seq<char>) -> bool {
    match v.input_mode {
        InputMode::Chat => {
            &&& is_boundary(v.chat_input, v.chat_cursor as int)
            &&& v.chat_cursor <= utf8_len(v.chat_input)
            &&& utf8_len(v.chat_input) + utf8_len(paste_text(clip)) <= isize::MAX
        },
        InputMode::NoteEdit => has_sel(v) ==> sel_cut_ok(v),
        _ => true,
    }
}

// ------------------------------------------------------------- Normal mode

/// The keys bound to commands while hotkeys are on.
pub open spec fn is_hotkey(c: char) -> bool {
    c == 'q' || c == '?' || c == 'j' || c == 'k' || c == '1' || c == '2' || c == '3' || c == '4'
        || c == 'e' || c == 's' || c == 'd' || c == 'o' || c == 'p' || c == ':'
}

/// Keys type into the note when the Note view has the text cursor.
pub open spec fn typing_in_note(v: AppView) -> bool {
    v.view_mode == ViewMode::Note && v.preview_focused
}

/// A printable key that types rather than acting as a hotkey.
pub open spec fn types_char(v: AppView, k: KeyPress) -> bool {
    match k.key {
        Key::Char(ch) => !ctrl_only(k) && (!is_hotkey(ch) || v.hotkeys_locked),
        _ => false,
    }
}

/// The character a key types.
pub open spec fn typed(k: KeyPress) -> char {
    match k.key {
        Key::Char(ch) => ch,
        _ => '\n',
    }
}

/// Ctrl+Alt+Q: hotkeys go off or back on.
pub open spec fn toggle_lock(v: AppView) -> AppView {
    let locked = !v.hotkeys_locked;
    AppView {
        hotkeys_locked: locked,
        log_lines: log_push(v.log_lines, if locked { "hotkeys locked"@ } else { "hotkeys unlocked"@ }),
        ..v
    }
}

/// Ctrl+C: the selected text goes to the clipboard (if there is any) and
/// the selection and focus are dropped.
#[verifier::opaque]
pub open spec fn copy_key(v: AppView) -> (AppView, Act) {
    let w = AppView { sel_start: None, sel_end: None, preview_focused: false, ..v };
    if has_sel(v) && sel_text(v).len() > 0 {
        (AppView { just_selected: true, ..w }, Act::Copy(sel_text(v)))
    } else {
        (w, Act::Nothing)
    }
}

/// Backspace or Delete in a focused note: the selection goes, or else the
/// character before the text cursor.
#[verifier::opaque]
pub open spec fn note_backspace(v: AppView) -> AppView {
    if has_sel(v) {
        del_sel_spec(v)
    } else if v.preview_cursor > 0 {
        let t = shown(v);
        let p = floor_boundary_spec(t, v.preview_cursor - 1) as int;
        set_shown(AppView { preview_cursor: p as usize, ..v }, remove_spec(t, char_floor(t, p)))
    } else {
        v
    }
}

/// `ch` goes in at the text cursor, which moves past it.
#[verifier::opaque]
pub open spec fn insert_here(w: AppView, ch: char) -> AppView {
    let t = shown(w);
    let p = floor_boundary_spec(t, w.preview_cursor as int) as int;
    set_shown(AppView { preview_cursor: (p + utf8_width(ch)) as usize, ..w }, insert_spec(t, char_floor(t, p), ch))
}

/// A character typed in a focused note replaces the selection and goes in
/// at the text cursor, which moves past it.
pub open spec fn insert_at_cursor(v: AppView, ch: char) -> AppView {
    insert_here(after_sel(v), ch)
}

/// The help line `?` logs.
pub open spec fn help_line() -> Seq<char> {
    "j↓/k↑ enter:load 1-4:view c:chat e:edit s:scan d:dl :cmd q:quit Ctrl+Alt+Q:unlock"@
}

/// `q` quits unless hotkeys are locked; `?` logs the help line; `j` and `k`
/// move the paper selection down and up within the list.
#[verifier::opaque]
pub open spec fn nav_key(v: AppView, ch: char) -> (AppView, Act) {
    let n = v.papers.len();
    let sel = v.paper_list_selected as int;
    if ch == 'q' {
        (if v.hotkeys_locked { v } else { AppView { quit: true, ..v } }, Act::Nothing)
    } else if ch == '?' {
        (AppView { log_lines: log_push(v.log_lines, help_line()), ..v }, Act::Nothing)
    } else if ch == 'j' {
        (if n > 0 && sel + 1 < n { AppView { paper_list_selected: (sel + 1) as usize, ..v } } else { v }, Act::Nothing)
    } else {
        (AppView { paper_list_selected: sat_sub(sel, 1) as usize, ..v }, Act::Nothing)
    }
}

/// `1`-`4` pick the view; `e` edits the note (in the Note view of an open
/// paper); `c` shows or hides the chat of an open paper; `:` starts a
/// command.
#[verifier::opaque]
pub open spec fn panel_key(v: AppView, ch: char) -> (AppView, Act) {
    if ch == '1' {
        (AppView { view_mode: ViewMode::Body, ..v }, Act::Nothing)
    } else if ch == '2' {
        (AppView { view_mode: ViewMode::Appendix, ..v }, Act::Nothing)
    } else if ch == '3' {
        (AppView { view_mode: ViewMode::Note, ..v }, Act::Nothing)
    } else if ch == '4' {
        (AppView { view_mode: ViewMode::Description, ..v }, Act::Nothing)
    } else if ch == 'e' {
        if v.view_mode == ViewMode::Note && v.current_paper is Some {
            (
                AppView {
                    input_mode: InputMode::NoteEdit,
                    log_lines: log_push(v.log_lines, "editing note (Esc to save)"@),
                    ..v
                },
                Act::Nothing,
            )
        } else {
            (v, Act::Nothing)
        }
    } else if ch == 'c' {
        if v.current_paper is Some {
            let show = !v.show_chat;
            (
                AppView { show_chat: show, input_mode: if show { InputMode::Chat } else { InputMode::Normal }, ..v },
                Act::Nothing,
            )
        } else {
            (v, Act::Nothing)
        }
    } else if ch == ':' {
        (AppView { input_mode: InputMode::Command, status: ":"@, ..v }, Act::Nothing)
    } else {
        (v, Act::Nothing)
    }
}

/// `s` scans, `d` downloads; `o` opens the open paper's folder (and logs
/// it), `p` its PDF.
#[verifier::opaque]
pub open spec fn job_key(v: AppView, ch: char) -> (AppView, Act) {
    if ch == 's' {
        (v, Act::Scan)
    } else if ch == 'd' {
        (v, Act::DownloadAll)
    } else if ch == 'o' {
        match v.current_paper {
            Some(p) => (AppView { log_lines: log_push(v.log_lines, "opened "@ + p.folder@), ..v }, Act::Open(p.folder@)),
            None => (v, Act::Nothing),
        }
    } else {
        match v.current_paper {
            Some(p) => (v, Act::Open(pdf_url(p.arxiv_id@))),
            None => (v, Act::Nothing),
        }
    }
}

/// A printable hotkey in Normal mode. `q`, `?`, `j` and `k` work while
/// hotkeys are locked (`q` then does nothing); the others do nothing then.
pub open spec fn char_hotkey(v: AppView, ch: char) -> (AppView, Act) {
    if ch == 'q' || ch == '?' || ch == 'j' || ch == 'k' {
        nav_key(v, ch)
    } else if v.hotkeys_locked {
        (v, Act::Nothing)
    } else if ch == 's' || ch == 'd' || ch == 'o' || ch == 'p' {
        job_key(v, ch)
    } else {
        panel_key(v, ch)
    }
}

/// The text cursor after an arrow, Home or End key.
#[verifier::opaque]
pub open spec fn preview_move(v: AppView, m: CursorMove) -> AppView {
    let t = shown(v);
    let c = v.preview_cursor as int;
    AppView { preview_cursor: move_spec(t, c, char_floor(t, c), m) as usize, ..v }
}

/// The cursor move an arrow, Home or End key makes.
pub open spec fn key_move(key: Key) -> CursorMove {
    match key {
        Key::Left => CursorMove::Left,
        Key::Right => CursorMove::Right,
        Key::Up => CursorMove::Up,
        Key::Down => CursorMove::Down,
        Key::Home => CursorMove::Home,
        _ => CursorMove::End,
    }
}

/// A non-printable key in Normal mode: Enter loads the selected paper and
/// opens the chat, arrows and Home/End move the text cursor, PageUp and
/// PageDown scroll the preview by a page.
pub open spec fn other_hotkey(v: AppView, k: KeyPress, page: u16) -> (AppView, Act) {
    match k.key {
        Key::Enter => if v.papers.len() > 0 {
            (AppView { show_chat: true, ..v }, Act::LoadPaper(v.paper_list_selected))
        } else {
            (v, Act::Nothing)
        },
        Key::Left | Key::Right | Key::Up | Key::Down | Key::Home | Key::End => (preview_move(v, key_move(k.key)), Act::Nothing),
        Key::PageUp => (AppView { preview_scroll: sat_sub(v.preview_scroll as int, page as int) as u16, ..v }, Act::Nothing),
        Key::PageDown => {
            let s = v.preview_scroll + page;
            (AppView { preview_scroll: (if s <= u16::MAX { s } else { u16::MAX as int }) as u16, ..v }, Act::Nothing)
        },
        _ => (v, Act::Nothing),
    }
}

/// A key in Normal mode: Ctrl+Alt+Q locks or unlocks the hotkeys, Ctrl+C
/// copies the selection; in a focused Note view keys type at the text
/// cursor (replacing the selection); otherwise keys are hotkeys.
pub open spec fn normal_key(v: AppView, k: KeyPress, page: u16) -> (AppView, Act) {
    if k.control && k.alt && k.key == Key::Char('q') {
        (toggle_lock(v), Act::Nothing)
    } else if k.key == Key::Char('c') && ctrl_only(k) {
        copy_key(v)
    } else if typing_in_note(v) && (k.key == Key::Backspace || k.key == Key::Delete) {
        (note_backspace(v), Act::Nothing)
    } else if typing_in_note(v) && (types_char(v, k) || k.key == Key::Enter) {
        (insert_at_cursor(v, typed(k)), Act::Nothing)
    } else {
        match k.key {
            Key::Char(ch) => char_hotkey(v, ch),
            _ => other_hotkey(v, k, page),
        }
    }
}

/// The Normal-mode keys on which slicing or editing the shown text does not
/// panic.
#[verifier::opaque]
pub open spec fn normal_key_ok(v: AppView, k: KeyPress) -> bool {
    let t = shown(v);
    let c = v.preview_cursor as int;
    let n = utf8_len(t) as int;
    if k.control && k.alt && k.key == Key::Char('q') {
        true
    } else if k.key == Key::Char('c') && ctrl_only(k) {
        true
    } else if typing_in_note(v) && (k.key == Key::Backspace || k.key == Key::Delete) {
        if has_sel(v) {
            sel_cut_ok(v)
        } else {
            c > 0 ==> c - 1 < n
        }
    } else if typing_in_note(v) && (types_char(v, k) || k.key == Key::Enter) {
        (has_sel(v) ==> sel_cut_ok(v)) && n + 4 <= isize::MAX
    } else {
        match k.key {
            Key::Char(ch) => (ch == 'j' && v.papers.len() > 0) ==> v.paper_list_selected < usize::MAX,
            Key::Right | Key::Up | Key::Down | Key::Home | Key::End => is_boundary(t, c) && c <= n && n <= isize::MAX,
            _ => true,
        }
    }
}

// -------------------------------------------------------------- All modes

/// What a key press does, by input mode.
pub open spec fn key_spec(v: AppView, k: KeyPress, page: u16) -> (AppView, Act) {
    match v.input_mode {
        InputMode::Chat => chat_key(v, k),
        InputMode::NoteEdit => note_key(v, k),
        InputMode::Command => command_key(v, k),
        InputMode::Normal => normal_key(v, k, page),
    }
}

/// The key presses whose handling does not panic.
pub open spec fn key_ok(v: AppView, k: KeyPress) -> bool {
    match v.input_mode {
        InputMode::Chat => chat_key_ok(v, k),
        InputMode::NoteEdit => note_key_ok(v, k),
        InputMode::Command => command_key_ok(v, k),
        InputMode::Normal => normal_key_ok(v, k),
    }
}

// ------------------------------------------------------------------- Exec

fn is_empty_str(t: &str) -> (r: bool)
    ensures
        r == (t@.len() == 0),
{
    str_chars(t).len() == 0
}

fn width_of(ch: char) -> (w: usize)
    ensures
        w == utf8_width(ch),
{
    let u = ch as u32;
    if u < 0x80 { 1 } else if u < 0x800 { 2 } else if u < 0x10000 { 3 } else { 4 }
}

fn is_hotkey_exec(c: char) -> (r: bool)
    ensures
        r == is_hotkey(c),
{
    c == 'q' || c == '?' || c == 'j' || c == 'k' || c == '1' || c == '2' || c == '3' || c == '4'
        || c == 'e' || c == 's' || c == 'd' || c == 'o' || c == 'p' || c == ':'
}

fn count_lines(t: &str) -> (r: usize)
    ensures
        r == line_count(t@),
{
    let s = str_chars(t);
    let mut n: usize = 0;
    let mut i: usize = 0;
    assert(s@.take(0) =~= Seq::<char>::empty());
    while i < s.len()
        invariant
            i <= s@.len(),
            n == newline_count(s@.take(i as int)),
            n <= i,
        decreases s@.len() - i,
    {
        assert(s@.take(i + 1).drop_last() =~= s@.take(i as int));
        if s[i] == '\n' {
            n += 1;
        }
        i += 1;
    }
    assert(s@.take(s@.len() as int) =~= s@);
    proof {
        if s@.len() > 0 {
            lemma_newline_count_le(s@.drop_last());
        }
    }
    if s.len() > 0 && s[s.len() - 1] != '\n' {
        n + 1
    } else {
        n
    }
}

proof fn lemma_command_right(v: AppView, k: KeyPress)
    requires
        command_key_ok(v, k),
        !is_paste(k),
    ensures
        k.key == Key::Right ==> v.cmd_cursor < usize::MAX,
{
    reveal(command_key_ok);
}

/// After the selection is cut the shown text is no longer than before.
proof fn lemma_after_sel_len(v: AppView)
    requires
        has_sel(v) ==> sel_cut_ok(v),
    ensures
        utf8_len(shown(after_sel(v))) <= utf8_len(shown(v)),
{
    if has_sel(v) {
        reveal(del_sel_spec);
        let (lo, hi) = sel_range(v);
        let t = shown(v);
        lemma_char_floor(t, lo);
        lemma_char_floor(t, hi);
        lemma_char_floor_mono(t, lo, hi);
        lemma_cut_len(t, char_floor(t, lo), char_floor(t, hi));
    }
}

/// The keys that type into a focused note meet what typing needs.
proof fn lemma_normal_typing_ok(v: AppView, k: KeyPress)
    requires
        normal_key_ok(v, k),
        !(k.control && k.alt && k.key == Key::Char('q')),
        !(k.key == Key::Char('c') && ctrl_only(k)),
    ensures
        typing_in_note(v) && (k.key == Key::Backspace || k.key == Key::Delete) ==> {
            &&& has_sel(v) ==> sel_cut_ok(v)
            &&& !has_sel(v) && v.preview_cursor > 0 ==> v.preview_cursor - 1 < utf8_len(shown(v))
        },
        typing_in_note(v) && !(k.key == Key::Backspace || k.key == Key::Delete) && (types_char(v, k) || k.key == Key::Enter) ==> {
            &&& has_sel(v) ==> sel_cut_ok(v)
            &&& utf8_len(shown(v)) + 4 <= isize::MAX
        },
{
    reveal(normal_key_ok);
}

/// The keys left over for the hotkeys meet what those need.
proof fn lemma_normal_hotkey_ok(v: AppView, k: KeyPress)
    requires
        normal_key_ok(v, k),
        !(k.control && k.alt && k.key == Key::Char('q')),
        !(k.key == Key::Char('c') && ctrl_only(k)),
        !(typing_in_note(v) && (k.key == Key::Backspace || k.key == Key::Delete)),
        !(typing_in_note(v) && (types_char(v, k) || k.key == Key::Enter)),
    ensures
        match k.key {
            Key::Char(ch) => (ch == 'j' && v.papers.len() > 0) ==> v.paper_list_selected < usize::MAX,
            Key::Right | Key::Up | Key::Down | Key::Home | Key::End => {
                &&& is_boundary(shown(v), v.preview_cursor as int)
                &&& v.preview_cursor <= utf8_len(shown(v))
                &&& utf8_len(shown(v)) <= isize::MAX
            },
            _ => true,
        },
{
    reveal(normal_key_ok);
}

proof fn lemma_newline_count_le(s: Seq<char>)
    ensures
        newline_count(s) <= s.len(),
    decreases s.len(),
{
    if s.len() > 0 {
        lemma_newline_count_le(s.drop_last());
    }
}

fn pasted_text(clip: &str) -> (r: String)
    ensures
        r@ == paste_text(clip@),
{
    let l = count_lines(clip);
    if l > 1 {
        let a = concat_str("[Pasted ~", decimal(l as u64).as_str());
        concat_str(a.as_str(), " lines]")
    } else {
        clip.to_string()
    }
}

fn key_move_exec(key: Key) -> (m: CursorMove)
    ensures
        m == key_move(key),
{
    match key {
        Key::Left => CursorMove::Left,
        Key::Right => CursorMove::Right,
        Key::Up => CursorMove::Up,
        Key::Down => CursorMove::Down,
        Key::Home => CursorMove::Home,
        _ => CursorMove::End,
    }
}

/// The command typed after the colon of a command line.
fn command_body(line: &str) -> (r: String)
    ensures
        r@ == strip_colon(line@),
{
    let cs = str_chars(line);
    let mut v: Vec<char> = Vec::new();
    if cs.len() > 0 && cs[0] == ':' {
        let mut i: usize = 1;
        while i < cs.len()
            invariant
                1 <= i <= cs@.len(),
                v@ == cs@.subrange(1, i as int),
            decreases cs@.len() - i,
        {
            v.push(cs[i]);
            assert(cs@.subrange(1, i + 1) =~= cs@.subrange(1, i as int).push(cs@[i as int]));
            i += 1;
        }
        assert(v@ =~= cs@.drop_first());
    }
    assert(v@ =~= strip_colon(line@));
    string_from_chars(&v)
}

impl App {
    pub(crate) fn post_message(&mut self)
        requires
            old(self).chat_input@.len() > 0,
        ensures
            final(self)@ == chat_send(old(self)@),
    {
        proof {
            reveal(chat_send);
        }
        let ghost v0 = self@;
        self.add_log("sending...");
        let msg = self.chat_input.clone();
        self.chat_input = String::new();
        let ghost m0 = self.chat_messages@;
        self.chat_messages.push(ChatMsg { speaker: String::from_str("user"), content: msg });
        assert(msg_views(self.chat_messages@) =~= msg_views(m0).push(("user"@, v0.chat_input)));
        self.chat_scroll = self.chat_messages.len() - 1;
        self.chat_cursor = 0;
    }

    pub(crate) fn chat_send(&mut self)
        ensures
            final(self)@ == chat_send(old(self)@),
    {
        if is_empty_str(self.chat_input.as_str()) {
            proof {
                reveal(chat_send);
            }
            self.chat_cursor = 0;
            return;
        }
        self.post_message();
    }

    pub(crate) fn chat_backspace(&mut self, k: KeyPress)
        requires
            chat_key_ok(old(self)@, k),
            k.key == Key::Backspace,
        ensures
            final(self)@ == chat_backspace(old(self)@),
    {
        proof {
            reveal(chat_backspace);
            reveal(chat_key_ok);
        }
        if self.chat_cursor > 0 {
            let p = floor_boundary(self.chat_input.as_str(), self.chat_cursor - 1);
            let t = remove_char_at(&self.chat_input, p);
            self.chat_cursor = p;
            self.chat_input = t;
        }
    }

    pub(crate) fn chat_delete(&mut self, k: KeyPress)
        requires
            chat_key_ok(old(self)@, k),
            k.key == Key::Delete,
        ensures
            final(self)@ == chat_delete(old(self)@),
    {
        proof {
            reveal(chat_delete);
            reveal(chat_key_ok);
        }
        if self.chat_cursor < byte_len(self.chat_input.as_str()) {
            let t = remove_char_at(&self.chat_input, self.chat_cursor);
            self.chat_input = t;
        }
    }

    pub(crate) fn chat_type(&mut self, k: KeyPress, ch: char)
        requires
            chat_key_ok(old(self)@, k),
            !is_paste(k),
            k.key == Key::Char(ch),
        ensures
            final(self)@ == chat_type(old(self)@, ch),
    {
        proof {
            reveal(chat_type);
            reveal(chat_key_ok);
        }
        let t = insert_char_at(&self.chat_input, self.chat_cursor, ch);
        self.chat_input = t;
        self.chat_cursor = self.chat_cursor + width_of(ch);
    }

    pub(crate) fn chat_move(&mut self, k: KeyPress)
        requires
            chat_key_ok(old(self)@, k),
            k.key == Key::Left || k.key == Key::Right || k.key == Key::End,
        ensures
            final(self)@ == chat_move(old(self)@, k.key),
    {
        proof {
            reveal(chat_move);
            reveal(chat_key_ok);
        }
        match k.key {
            Key::Left => {
                let c = if self.chat_cursor >= 1 { self.chat_cursor - 1 } else { 0 };
                self.chat_cursor = floor_boundary(self.chat_input.as_str(), c);
            },
            Key::Right => {
                self.chat_cursor = next_boundary(self.chat_input.as_str(), self.chat_cursor);
            },
            _ => {
                self.chat_cursor = byte_len(self.chat_input.as_str());
            },
        }
    }

    #[verifier::rlimit(30)]
    pub(crate) fn chat_key(&mut self, k: KeyPress) -> (act: KeyAction)
        requires
            chat_key_ok(old(self)@, k),
        ensures
            final(self)@ == chat_key(old(self)@, k).0,
            act@ == chat_key(old(self)@, k).1,
    {
        if k.key == Key::Char('v') && is_ctrl(&k) {
            return KeyAction::Paste;
        }
        match k.key {
            Key::Esc => {
                self.input_mode = InputMode::Normal;
                self.show_chat = false;
                return KeyAction::Nothing;
            },
            Key::Enter => {
                self.chat_send();
                return KeyAction::Nothing;
            },
            Key::Backspace => {
                self.chat_backspace(k);
                return KeyAction::Nothing;
            },
            Key::Delete => {
                self.chat_delete(k);
                return KeyAction::Nothing;
            },
            Key::Left | Key::Right | Key::End => {
                self.chat_move(k);
                return KeyAction::Nothing;
            },
            Key::Home => {
                self.chat_cursor = 0;
                return KeyAction::Nothing;
            },
            Key::Char(ch) => {
                self.chat_type(k, ch);
                return KeyAction::Nothing;
            },
            _ => {
                return KeyAction::Nothing;
            },
        }
    }

    pub(crate) fn command_erase(&mut self, k: KeyPress)
        requires
            command_key_ok(old(self)@, k),
            k.key == Key::Backspace || k.key == Key::Delete,
        ensures
            final(self)@ == command_erase(old(self)@, k.key),
    {
        proof {
            reveal(command_key_ok);
            reveal(command_erase);
        }
        let n = byte_len(self.status.as_str());
        if k.key == Key::Backspace {
            if self.cmd_cursor > 1 {
                let c = self.cmd_cursor - 1;
                let t = remove_char_at(&self.status, c);
                self.cmd_cursor = c;
                self.status = t;
                return;
            }
            return;
        }
        if self.cmd_cursor < n {
            let t = remove_char_at(&self.status, self.cmd_cursor);
            self.status = t;
            return;
        }
    }

    pub(crate) fn command_insert(&mut self, k: KeyPress, ch: char)
        requires
            command_key_ok(old(self)@, k),
            !is_paste(k),
            k.key == Key::Char(ch),
        ensures
            final(self)@ == command_insert(old(self)@, ch),
    {
        proof {
            reveal(command_key_ok);
            reveal(command_insert);
        }
        let t = insert_char_at(&self.status, self.cmd_cursor, ch);
        self.status = t;
        self.cmd_cursor = self.cmd_cursor + width_of(ch);
    }

    #[verifier::rlimit(30)]
    pub(crate) fn command_move(&mut self, key: Key)
        requires
            key == Key::Right ==> old(self).cmd_cursor < usize::MAX,
        ensures
            final(self)@ == command_move(old(self)@, key),
    {
        proof {
            reveal(command_move);
        }
        let n = byte_len(self.status.as_str());
        match key {
            Key::Left => {
                self.cmd_cursor = if self.cmd_cursor >= 2 { self.cmd_cursor - 1 } else { 1 };
                return;
            },
            Key::Right => {
                self.cmd_cursor = if self.cmd_cursor + 1 <= n { self.cmd_cursor + 1 } else { n };
                return;
            },
            Key::Home => {
                self.cmd_cursor = 1;
                return;
            },
            Key::End => {
                self.cmd_cursor = n;
                return;
            },
            _ => {
                return;
            },
        }
    }

    pub(crate) fn command_edit(&mut self, k: KeyPress)
        requires
            command_key_ok(old(self)@, k),
            !is_paste(k),
        ensures
            final(self)@ == command_edit(old(self)@, k),
    {
        match k.key {
            Key::Backspace | Key::Delete => {
                self.command_erase(k);
                return;
            },
            Key::Char(ch) => {
                self.command_insert(k, ch);
                return;
            },
            _ => {
                proof {
                    lemma_command_right(old(self)@, k);
                }
                self.command_move(k.key);
                return;
            },
        }
    }

    pub(crate) fn command_enter(&mut self) -> (act: KeyAction)
        ensures
            final(self)@ == run_command(
                AppView { status: Seq::empty(), cmd_cursor: 1, input_mode: InputMode::Normal, ..old(self)@ },
                strip_colon(old(self).status@),
            ).0,
            act@ == run_command(
                AppView { status: Seq::empty(), cmd_cursor: 1, input_mode: InputMode::Normal, ..old(self)@ },
                strip_colon(old(self).status@),
            ).1,
    {
        let body = command_body(self.status.as_str());
        self.status = String::new();
        self.cmd_cursor = 1;
        self.input_mode = InputMode::Normal;
        self.run_command(body)
    }

    pub(crate) fn run_command(&mut self, body: String) -> (act: KeyAction)
        ensures
            final(self)@ == run_command(old(self)@, body@).0,
            act@ == run_command(old(self)@, body@).1,
    {
        proof {
            reveal(run_command);
        }
        let b = body.as_str();
        if str_eq(b, "o") || str_eq(b, "open") {
            return match &self.current_paper {
                Some(p) => KeyAction::Open(p.folder.clone()),
                None => KeyAction::Nothing,
            };
        }
        if str_eq(b, "p") || str_eq(b, "pdf") {
            return match &self.current_paper {
                Some(p) => KeyAction::Open(concat_str("https://arxiv.org/pdf/", p.arxiv_id.as_str())),
                None => KeyAction::Nothing,
            };
        }
        if str_eq(b, "scan") {
            return KeyAction::Scan;
        }
        if str_eq(b, "dl") || str_eq(b, "download") {
            return KeyAction::DownloadAll;
        }
        let msg = concat_str("unknown: ", b);
        self.add_log(msg.as_str());
        KeyAction::Nothing
    }

    pub(crate) fn command_key(&mut self, k: KeyPress) -> (act: KeyAction)
        requires
            command_key_ok(old(self)@, k),
        ensures
            final(self)@ == command_key(old(self)@, k).0,
            act@ == command_key(old(self)@, k).1,
    {
        if k.key == Key::Char('v') && is_ctrl(&k) {
            return KeyAction::Paste;
        }
        match k.key {
            Key::Esc => {
                self.input_mode = InputMode::Normal;
                self.status = String::new();
                self.cmd_cursor = 1;
                return KeyAction::Nothing;
            },
            Key::Enter => {
                return self.command_enter();
            },
            _ => {
                self.command_edit(k);
                return KeyAction::Nothing;
            },
        }
    }

    pub(crate) fn drop_selection(&mut self)
        requires
            has_sel(old(self)@) ==> sel_cut_ok(old(self)@),
        ensures
            final(self)@ == after_sel(old(self)@),
    {
        if self.sel_start.is_some() && self.sel_end.is_some() {
            self.delete_selection();
            return;
        }
    }

    pub(crate) fn note_erase(&mut self)
        requires
            has_sel(old(self)@) ==> sel_cut_ok(old(self)@),
        ensures
            final(self)@ == note_erase(old(self)@),
    {
        proof {
            reveal(note_erase);
        }
        if self.sel_start.is_some() && self.sel_end.is_some() {
            self.delete_selection();
            return;
        }
        let mut cs = str_chars(self.current_text());
        if cs.len() > 0 {
            cs.pop();
        }
        let t = string_from_chars(&cs);
        self.set_current_text(t);
    }

    pub(crate) fn note_type(&mut self, ch: char)
        requires
            has_sel(old(self)@) ==> sel_cut_ok(old(self)@),
        ensures
            final(self)@ == note_type(old(self)@, ch),
    {
        proof {
            reveal(note_type);
        }
        self.drop_selection();
        let mut t = self.current_text().to_string();
        push_char(&mut t, ch);
        self.set_current_text(t);
    }

    fn note_save(&mut self)
        requires
            old(self).current_paper is Some,
        ensures
            final(self)@ == note_close(old(self)@).0,
    {
        proof {
            reveal(note_close);
        }
        self.add_log("note saved");
        self.input_mode = InputMode::Normal;
        self.sel_start = None;
        self.sel_end = None;
    }

    pub(crate) fn note_esc(&mut self) -> (act: KeyAction)
        ensures
            final(self)@ == note_close(old(self)@).0,
            act@ == note_close(old(self)@).1,
    {
        proof {
            reveal(note_close);
        }
        if self.current_paper.is_some() {
            self.note_save();
            return KeyAction::SaveNote;
        }
        self.input_mode = InputMode::Normal;
        self.sel_start = None;
        self.sel_end = None;
        KeyAction::Nothing
    }

    pub(crate) fn note_key(&mut self, k: KeyPress) -> (act: KeyAction)
        requires
            note_key_ok(old(self)@, k),
        ensures
            final(self)@ == note_key(old(self)@, k).0,
            act@ == note_key(old(self)@, k).1,
    {
        if k.key == Key::Char('v') && is_ctrl(&k) {
            return KeyAction::Paste;
        }
        match k.key {
            Key::Esc => {
                return self.note_esc();
            },
            Key::Backspace | Key::Delete => {
                self.note_erase();
                return KeyAction::Nothing;
            },
            Key::Enter => {
                self.note_type('\n');
                return KeyAction::Nothing;
            },
            Key::Char(ch) => {
                self.note_type(ch);
                return KeyAction::Nothing;
            },
            _ => {
                return KeyAction::Nothing;
            },
        }
    }

    fn toggle_lock(&mut self)
        ensures
            final(self)@ == toggle_lock(old(self)@),
    {
        if self.hotkeys_locked {
            self.hotkeys_locked = false;
            self.add_log("hotkeys unlocked");
            return;
        }
        self.hotkeys_locked = true;
        self.add_log("hotkeys locked");
    }

    fn clear_selection(&mut self)
        ensures
            final(self)@ == (AppView { sel_start: None, sel_end: None, preview_focused: false, ..old(self)@ }),
    {
        self.sel_start = None;
        self.sel_end = None;
        self.preview_focused = false;
    }

    fn copy_selection(&mut self) -> (act: KeyAction)
        ensures
            final(self)@ == copy_key(old(self)@).0,
            act@ == copy_key(old(self)@).1,
    {
        proof {
            reveal(copy_key);
        }
        if self.sel_start.is_some() && self.sel_end.is_some() {
            let t = self.selected_text();
            if !is_empty_str(t.as_str()) {
                self.clear_selection();
                self.just_selected = true;
                return KeyAction::Copy(t);
            }
        }
        self.clear_selection();
        KeyAction::Nothing
    }

    fn note_backspace(&mut self)
        requires
            has_sel(old(self)@) ==> sel_cut_ok(old(self)@),
            !has_sel(old(self)@) && old(self).preview_cursor > 0 ==> old(self).preview_cursor - 1 < utf8_len(shown(old(self)@)),
        ensures
            final(self)@ == note_backspace(old(self)@),
    {
        proof {
            reveal(note_backspace);
        }
        if self.sel_start.is_some() && self.sel_end.is_some() {
            self.delete_selection();
            return;
        }
        if self.preview_cursor > 0 {
            let t = self.current_text().to_string();
            let p = floor_boundary(t.as_str(), self.preview_cursor - 1);
            let t2 = remove_char_at(&t, p);
            self.preview_cursor = p;
            self.set_current_text(t2);
            return;
        }
    }

    fn insert_here(&mut self, ch: char)
        requires
            utf8_len(shown(old(self)@)) + 4 <= isize::MAX,
        ensures
            final(self)@ == insert_here(old(self)@, ch),
    {
        proof {
            reveal(insert_here);
        }
        let t = self.current_text().to_string();
        let p = floor_boundary(t.as_str(), self.preview_cursor);
        let t2 = insert_char_at(&t, p, ch);
        self.preview_cursor = p + width_of(ch);
        self.set_current_text(t2);
    }

    fn type_at_cursor(&mut self, ch: char)
        requires
            has_sel(old(self)@) ==> sel_cut_ok(old(self)@),
            utf8_len(shown(old(self)@)) + 4 <= isize::MAX,
        ensures
            final(self)@ == insert_at_cursor(old(self)@, ch),
    {
        proof {
            lemma_after_sel_len(old(self)@);
        }
        self.drop_selection();
        self.insert_here(ch);
    }

    fn nav_hotkey(&mut self, ch: char) -> (act: KeyAction)
        requires
            ch == 'q' || ch == '?' || ch == 'j' || ch == 'k',
            (ch == 'j' && old(self).papers@.len() > 0) ==> old(self).paper_list_selected < usize::MAX,
        ensures
            final(self)@ == nav_key(old(self)@, ch).0,
            act@ == nav_key(old(self)@, ch).1,
    {
        proof {
            reveal(nav_key);
        }
        if ch == 'q' {
            if !self.hotkeys_locked {
                self.quit = true;
                return KeyAction::Nothing;
            }
            return KeyAction::Nothing;
        }
        if ch == '?' {
            self.add_log("j↓/k↑ enter:load 1-4:view c:chat e:edit s:scan d:dl :cmd q:quit Ctrl+Alt+Q:unlock");
            return KeyAction::Nothing;
        }
        if ch == 'j' {
            if self.papers.len() > 0 && self.paper_list_selected + 1 < self.papers.len() {
                self.paper_list_selected = self.paper_list_selected + 1;
                return KeyAction::Nothing;
            }
            return KeyAction::Nothing;
        }
        self.paper_list_selected = if self.paper_list_selected >= 1 { self.paper_list_selected - 1 } else { 0 };
        KeyAction::Nothing
    }

    fn view_hotkey(&mut self, ch: char)
        requires
            ch == '1' || ch == '2' || ch == '3' || ch == '4',
        ensures
            final(self)@ == panel_key(old(self)@, ch).0,
    {
        proof {
            reveal(panel_key);
        }
        self.view_mode = if ch == '1' {
            ViewMode::Body
        } else if ch == '2' {
            ViewMode::Appendix
        } else if ch == '3' {
            ViewMode::Note
        } else {
            ViewMode::Description
        };
    }

    fn edit_hotkey(&mut self)
        ensures
            final(self)@ == panel_key(old(self)@, 'e').0,
    {
        proof {
            reveal(panel_key);
        }
        if self.view_mode == ViewMode::Note && self.current_paper.is_some() {
            self.input_mode = InputMode::NoteEdit;
            self.add_log("editing note (Esc to save)");
            return;
        }
    }

    fn chat_hotkey(&mut self)
        ensures
            final(self)@ == panel_key(old(self)@, 'c').0,
    {
        proof {
            reveal(panel_key);
        }
        if self.current_paper.is_some() {
            let show = !self.show_chat;
            self.show_chat = show;
            self.input_mode = if show { InputMode::Chat } else { InputMode::Normal };
            return;
        }
    }

    fn panel_hotkey(&mut self, ch: char) -> (act: KeyAction)
        ensures
            final(self)@ == panel_key(old(self)@, ch).0,
            act@ == panel_key(old(self)@, ch).1,
    {
        proof {
            reveal(panel_key);
        }
        if ch == '1' || ch == '2' || ch == '3' || ch == '4' {
            self.view_hotkey(ch);
            return KeyAction::Nothing;
        }
        if ch == 'e' {
            self.edit_hotkey();
            return KeyAction::Nothing;
        }
        if ch == 'c' {
            self.chat_hotkey();
            return KeyAction::Nothing;
        }
        if ch == ':' {
            self.input_mode = InputMode::Command;
            self.status = String::from_str(":");
            return KeyAction::Nothing;
        }
        KeyAction::Nothing
    }

    fn job_hotkey(&mut self, ch: char) -> (act: KeyAction)
        ensures
            final(self)@ == job_key(old(self)@, ch).0,
            act@ == job_key(old(self)@, ch).1,
    {
        proof {
            reveal(job_key);
        }
        if ch == 's' {
            return KeyAction::Scan;
        }
        if ch == 'd' {
            return KeyAction::DownloadAll;
        }
        let target = match &self.current_paper {
            Some(p) => Some((p.folder.clone(), p.arxiv_id.clone())),
            None => None,
        };
        match target {
            Some((f, id)) => {
                if ch == 'o' {
                    let msg = concat_str("opened ", f.as_str());
                    self.add_log(msg.as_str());
                    return KeyAction::Open(f);
                }
                return KeyAction::Open(concat_str("https://arxiv.org/pdf/", id.as_str()));
            },
            None => {
                return KeyAction::Nothing;
            },
        }
    }

    fn char_hotkey(&mut self, ch: char) -> (act: KeyAction)
        requires
            (ch == 'j' && old(self).papers@.len() > 0) ==> old(self).paper_list_selected < usize::MAX,
        ensures
            final(self)@ == char_hotkey(old(self)@, ch).0,
            act@ == char_hotkey(old(self)@, ch).1,
    {
        if ch == 'q' || ch == '?' || ch == 'j' || ch == 'k' {
            return self.nav_hotkey(ch);
        }
        if self.hotkeys_locked {
            return KeyAction::Nothing;
        }
        if ch == 's' || ch == 'd' || ch == 'o' || ch == 'p' {
            return self.job_hotkey(ch);
        }
        self.panel_hotkey(ch)
    }

    fn preview_move(&mut self, k: KeyPress)
        requires
            k.key == Key::Left || k.key == Key::Right || k.key == Key::Up || k.key == Key::Down
                || k.key == Key::Home || k.key == Key::End,
            k.key != Key::Left ==> {
                &&& is_boundary(shown(old(self)@), old(self).preview_cursor as int)
                &&& old(self).preview_cursor <= utf8_len(shown(old(self)@))
                &&& utf8_len(shown(old(self)@)) <= isize::MAX
            },
        ensures
            final(self)@ == preview_move(old(self)@, key_move(k.key)),
    {
        proof {
            reveal(preview_move);
        }
        let t = self.current_text().to_string();
        let c = self.preview_cursor;
        if k.key == Key::Left {
            self.preview_cursor = if c > 0 { floor_boundary(t.as_str(), c - 1) } else { c };
            return;
        }
        self.preview_cursor = move_cursor(t.as_str(), c, key_move_exec(k.key));
    }

    #[verifier::rlimit(30)]
    fn other_hotkey(&mut self, k: KeyPress, page: u16) -> (act: KeyAction)
        requires
            !(k.key is Char),
            (k.key == Key::Right || k.key == Key::Up || k.key == Key::Down || k.key == Key::Home
                || k.key == Key::End) ==> {
                &&& is_boundary(shown(old(self)@), old(self).preview_cursor as int)
                &&& old(self).preview_cursor <= utf8_len(shown(old(self)@))
                &&& utf8_len(shown(old(self)@)) <= isize::MAX
            },
        ensures
            final(self)@ == other_hotkey(old(self)@, k, page).0,
            act@ == other_hotkey(old(self)@, k, page).1,
    {
        match k.key {
            Key::Enter => {
                if self.papers.len() > 0 {
                    self.show_chat = true;
                    return KeyAction::LoadPaper(self.paper_list_selected);
                }
                return KeyAction::Nothing;
            },
            Key::Left | Key::Right | Key::Up | Key::Down | Key::Home | Key::End => {
                self.preview_move(k);
                return KeyAction::Nothing;
            },
            Key::PageUp => {
                self.preview_scroll = if self.preview_scroll >= page { self.preview_scroll - page } else { 0 };
                return KeyAction::Nothing;
            },
            Key::PageDown => {
                self.preview_scroll = if self.preview_scroll as u32 + page as u32 <= 65535 {
                    self.preview_scroll + page
                } else {
                    65535
                };
                return KeyAction::Nothing;
            },
            _ => {
                return KeyAction::Nothing;
            },
        }
    }

    #[verifier::rlimit(40)]
    fn normal_key(&mut self, k: KeyPress, page: u16) -> (act: KeyAction)
        requires
            normal_key_ok(old(self)@, k),
        ensures
            final(self)@ == normal_key(old(self)@, k, page).0,
            act@ == normal_key(old(self)@, k, page).1,
    {
        if k.control && k.alt && k.key == Key::Char('q') {
            self.toggle_lock();
            return KeyAction::Nothing;
        }
        if k.key == Key::Char('c') && is_ctrl(&k) {
            return self.copy_selection();
        }
        let typing = self.view_mode == ViewMode::Note && self.preview_focused;
        proof {
            lemma_normal_typing_ok(old(self)@, k);
        }
        if typing && (k.key == Key::Backspace || k.key == Key::Delete) {
            self.note_backspace();
            return KeyAction::Nothing;
        }
        let types = match k.key {
            Key::Char(ch) => !is_ctrl(&k) && (!is_hotkey_exec(ch) || self.hotkeys_locked),
            _ => false,
        };
        if typing && (types || k.key == Key::Enter) {
            let ch = match k.key {
                Key::Char(c) => c,
                _ => '\n',
            };
            self.type_at_cursor(ch);
            return KeyAction::Nothing;
        }
        proof {
            lemma_normal_hotkey_ok(old(self)@, k);
        }
        match k.key {
            Key::Char(ch) => {
                return self.char_hotkey(ch);
            },
            _ => {
                return self.other_hotkey(k, page);
            },
        }
    }

    /// What a key press does in the current input mode. The state changes
    /// here; what needs the clipboard, the disk, a browser or the network is
    /// returned, for the caller to do. `page` is the number of preview rows,
    /// the step of PageUp and PageDown.
    pub fn handle_key(&mut self, k: KeyPress, page: u16) -> (act: KeyAction)
        requires
            key_ok(old(self)@, k),
        ensures
            final(self)@ == key_spec(old(self)@, k, page).0,
            act@ == key_spec(old(self)@, k, page).1,
    {
        match self.input_mode {
            InputMode::Chat => {
                return self.chat_key(k);
            },
            InputMode::NoteEdit => {
                return self.note_key(k);
            },
            InputMode::Command => {
                return self.command_key(k);
            },
            InputMode::Normal => {
                return self.normal_key(k, page);
            },
        }
    }

    fn paste_chat(&mut self, p: String, Ghost(clip): Ghost<Seq<char>>)
        requires
            old(self).input_mode == InputMode::Chat,
            paste_ok(old(self)@, clip),
            p@ == paste_text(clip),
        ensures
            final(self)@ == paste_spec(old(self)@, clip),
    {
        proof {
            reveal(paste_spec);
        }
        let t = insert_str_at(&self.chat_input, self.chat_cursor, p.as_str());
        let w = byte_len(p.as_str());
        self.chat_input = t;
        self.chat_cursor = self.chat_cursor + w;
    }

    fn paste_note(&mut self, p: String, Ghost(clip): Ghost<Seq<char>>)
        requires
            old(self).input_mode == InputMode::NoteEdit,
            paste_ok(old(self)@, clip),
            p@ == paste_text(clip),
        ensures
            final(self)@ == paste_spec(old(self)@, clip),
    {
        proof {
            reveal(paste_spec);
        }
        self.drop_selection();
        let t = concat_str(self.current_text(), p.as_str());
        self.set_current_text(t);
    }

    /// Pastes the clipboard text `clip` where the input mode types: at the
    /// chat cursor, at the end of the edited note (replacing the selection),
    /// or as the whole command line. A text of several lines goes in as a
    /// short placeholder that counts them.
    pub fn paste(&mut self, clip: &str)
        requires
            paste_ok(old(self)@, clip@),
        ensures
            final(self)@ == paste_spec(old(self)@, clip@),
    {
        let p = pasted_text(clip);
        match self.input_mode {
            InputMode::Chat => {
                self.paste_chat(p, Ghost(clip@));
                return;
            },
            InputMode::NoteEdit => {
                self.paste_note(p, Ghost(clip@));
                return;
            },
            InputMode::Command => {
                proof {
                    reveal(paste_spec);
                }
                self.cmd_cursor = byte_len(p.as_str());
                self.status = p;
                return;
            },
            InputMode::Normal => {
                proof {
                    reveal(paste_spec);
                }
                return;
            },
        }
    }
}

// ---------------------------------------------------------------- laws

/// A key press with no modifier held.
pub open spec fn plain(key: Key) -> KeyPress {
    KeyPress { key, control: false, alt: false, shift: false, other_modifiers: false }
}

/// In the chat input, typing a character and then pressing Backspace gives
/// back the input and the cursor as they were: the interface is where it
/// started.
pub proof fn law_chat_type_then_backspace(v: AppView, ch: char, page: u16)
    requires
        v.input_mode == InputMode::Chat,
        key_ok(v, plain(Key::Char(ch))),
    ensures
        ({
            let v1 = key_spec(v, plain(Key::Char(ch)), page).0;
            &&& key_ok(v1, plain(Key::Backspace))
            &&& key_spec(v1, plain(Key::Backspace), page).0 == v
        }),
{
    reveal(chat_type);
    reveal(chat_backspace);
    reveal(chat_key_ok);
    let s = v.chat_input;
    let c = v.chat_cursor as int;
    let n = utf8_len(s) as int;
    let k = char_floor(s, c);
    let w = utf8_width(ch) as int;
    let s1 = insert_spec(s, k, ch);
    lemma_char_floor(s, c);
    assert(s1.take(k) =~= s.take(k));
    assert(s1.take(k + 1) =~= s.take(k).push(ch));
    assert(s1.take(k + 1).drop_last() =~= s.take(k));
    assert(crate::edit::byte_of(s1, k) == c);
    assert(crate::edit::byte_of(s1, k + 1) == c + w);
    assert(seq![ch].drop_last() =~= Seq::<char>::empty());
    assert(utf8_len(Seq::<char>::empty()) == 0);
    assert(seq![ch].last() == ch);
    assert(utf8_len(seq![ch]) == utf8_len(seq![ch].drop_last()) + utf8_width(seq![ch].last()));
    assert(utf8_len(seq![ch]) == w);
    crate::edit::lemma_utf8_len_concat(s.take(k), seq![ch]);
    crate::edit::lemma_utf8_len_concat(s.take(k) + seq![ch], s.skip(k));
    crate::edit::lemma_utf8_len_concat(s.take(k), s.skip(k));
    assert(s.take(k) + s.skip(k) =~= s);
    assert(utf8_len(s1) == n + w);
    let b = c + w - 1;
    lemma_char_floor(s1, b);
    let f = char_floor(s1, b);
    if f < k {
        crate::edit::lemma_byte_mono(s1, f + 1, k);
    }
    if f > k {
        crate::edit::lemma_byte_mono(s1, k + 1, f);
    }
    assert(f == k);
    assert(floor_boundary_spec(s1, b) == c);
    crate::edit::lemma_boundary_index(s1, k);
    assert(remove_spec(s1, k) =~= s);
    let v1 = key_spec(v, plain(Key::Char(ch)), page).0;
    assert(v1.chat_input == s1);
    assert(v1.chat_cursor == c + w);
    let v2 = key_spec(v1, plain(Key::Backspace), page).0;
    assert(v2.chat_input =~= v.chat_input);
    assert(v2 =~= v);
}

/// In Normal mode, outside a note being typed into, the plain keys `j`, `k`
/// and `q` are always handled: `j` moves the paper-list selection down by one
/// while a paper lies below it, `k` moves it up by one (not above the first),
/// `q` quits unless hotkeys are locked. Nothing else changes, so the paper
/// list stays as it is, and a selection within the list stays within it.
pub proof fn law_normal_navigation(v: AppView, page: u16)
    requires
        v.input_mode == InputMode::Normal,
        !typing_in_note(v),
        v.paper_list_selected < usize::MAX,
    ensures
        key_ok(v, plain(Key::Char('j'))),
        key_ok(v, plain(Key::Char('k'))),
        key_ok(v, plain(Key::Char('q'))),
        key_spec(v, plain(Key::Char('j')), page) == (
            AppView {
                paper_list_selected: if v.paper_list_selected + 1 < v.papers.len() {
                    (v.paper_list_selected + 1) as usize
                } else {
                    v.paper_list_selected
                },
                ..v
            },
            Act::Nothing,
        ),
        key_spec(v, plain(Key::Char('k')), page) == (
            AppView { paper_list_selected: sat_sub(v.paper_list_selected as int, 1) as usize, ..v },
            Act::Nothing,
        ),
        key_spec(v, plain(Key::Char('q')), page) == (
            AppView { quit: v.quit || !v.hotkeys_locked, ..v },
            Act::Nothing,
        ),
        v.paper_list_selected < v.papers.len() ==> {
            &&& key_spec(v, plain(Key::Char('j')), page).0.paper_list_selected < v.papers.len()
            &&& key_spec(v, plain(Key::Char('k')), page).0.paper_list_selected < v.papers.len()
        },
{
    reveal(normal_key_ok);
    reveal(nav_key);
    assert(AppView { quit: v.quit, ..v } == v);
}

} // verus!
