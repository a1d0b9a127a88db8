//! What the interface does with the mouse: wheel scrolling, clicks on the
//! panes, tabs and seams, dragging a seam, the scrollbar or a selection.
//! The panes' positions come from the last drawn frame.
use vstd::prelude::*;
use crate::edit::{byte_len, floor_boundary, floor_boundary_spec};
use crate::keys::sat_sub;
use crate::text::utf8_len;
use crate::tui::{screen_byte, shown, App, AppView, InputMode, ViewMode};

verus! {

/// A rectangle of terminal cells.
#[derive(Clone, Copy, Debug, PartialEq, Eq, Structural)]
pub struct Area {
    pub x: u16,
    pub y: u16,
    pub width: u16,
    pub height: u16,
}

/// Where the panes were drawn.
#[derive(Clone, Copy, Debug)]
pub struct Panes {
    /// Everything between the header and the status line.
    pub body: Area,
    pub paper_list: Area,
    pub preview_text: Area,
    pub preview_tabs: Area,
    pub chat: Area,
    pub chat_input: Area,
    /// The chat is shown beside the preview.
    pub three_pane: bool,
}

/// What the mouse did.
#[derive(Clone, Copy, Debug, PartialEq, Eq, Structural)]
pub enum MouseKind {
    ScrollDown,
    ScrollUp,
    LeftDown,
    LeftDrag,
    LeftUp,
    Other,
}

/// A mouse event at a cell.
#[derive(Clone, Copy, Debug)]
pub struct MouseEvent {
    pub kind: MouseKind,
    pub column: u16,
    pub row: u16,
}

/// What is left to do after a mouse event.
pub enum MouseAction {
    Nothing,
    /// Read the texts of the paper at this index and load them.
    LoadPaper(usize),
    /// Scroll the preview to row `rel_y` of `content_h` rows, in proportion
    /// to `max_scroll`.
    ScrollTo { rel_y: u16, content_h: u16, max_scroll: usize },
}

/// The cell lies in the area.
pub open spec fn in_area(r: Area, col: u16, row: u16) -> bool {
    col >= r.x && col < r.x + r.width && row >= r.y && row < r.y + r.height
}

fn in_area_exec(r: Area, col: u16, row: u16) -> (b: bool)
    requires
        r.x + r.width <= u16::MAX,
        r.y + r.height <= u16::MAX,
    ensures
        b == in_area(r, col, row),
{
    col >= r.x && col < r.x + r.width && row >= r.y && row < r.y + r.height
}

/// The cell is on the seam right of the paper list (a column either side).
pub open spec fn on_left_seam(p: Panes, col: u16, row: u16) -> bool {
    let e = p.paper_list.x + p.paper_list.width;
    row >= p.body.y && row < p.body.y + p.body.height && col >= e - 1 && col <= e + 1
}

/// The cell is on the seam right of the preview, when the chat is beside it.
pub open spec fn on_right_seam(p: Panes, col: u16, row: u16) -> bool {
    let e = p.preview_text.x + p.preview_text.width;
    p.three_pane && row >= p.body.y && row < p.body.y + p.body.height && col >= sat_sub(e - 1, 1) && col <= e + 1
}

/// The drawn panes fit the terminal's coordinates with the margins the
/// handler computes with (else its `u16` arithmetic overflows).
pub open spec fn panes_ok(p: Panes) -> bool {
    &&& p.body.x + p.body.width <= u16::MAX
    &&& p.body.y + p.body.height <= u16::MAX
    &&& 1 <= p.paper_list.x + p.paper_list.width
    &&& p.paper_list.x + p.paper_list.width + 1 <= u16::MAX
    &&& p.paper_list.y + p.paper_list.height <= u16::MAX
    &&& p.paper_list.y + 1 <= u16::MAX
    &&& p.three_pane ==> 1 <= p.preview_text.x + p.preview_text.width
    &&& p.preview_text.x + p.preview_text.width + 1 <= u16::MAX
    &&& p.preview_text.y + p.preview_text.height <= u16::MAX
    &&& p.preview_text.x + p.preview_text.width + 3 <= u16::MAX
    &&& p.preview_text.y + 1 <= u16::MAX
    &&& p.preview_tabs.x + p.preview_tabs.width <= u16::MAX
    &&& p.preview_tabs.y + p.preview_tabs.height <= u16::MAX
    &&& p.chat.x + p.chat.width <= u16::MAX
    &&& p.chat.y + p.chat.height <= u16::MAX
    &&& p.chat_input.x + p.chat_input.width <= u16::MAX
    &&& p.chat_input.y + p.chat_input.height <= u16::MAX
    &&& p.chat_input.x + 3 <= u16::MAX
}

/// The part of the interface's state that the mouse changes.
#[derive(Clone, Copy, Debug)]
pub struct Pointer {
    pub mouse_col: u16,
    pub mouse_row: u16,
    pub hover_left_border: bool,
    pub hover_right_border: bool,
    pub preview_scroll: u16,
    pub chat_scroll: usize,
    pub paper_list_selected: usize,
    pub just_selected: bool,
    pub dragging_border: Option<usize>,
    pub preview_focused: bool,
    pub show_chat: bool,
    pub view_mode: ViewMode,
    pub input_mode: InputMode,
    pub chat_cursor: usize,
    pub dragging_scrollbar: bool,
    pub preview_cursor: usize,
    pub selecting: bool,
    pub sel_start: Option<(u16, u16)>,
    pub sel_end: Option<(u16, u16)>,
    pub left_width_pct: u16,
    pub right_width_pct: u16,
}

/// The pointer state of `a`.
pub open spec fn pointer_of(a: App) -> Pointer {
    Pointer {
        mouse_col: a.mouse_col,
        mouse_row: a.mouse_row,
        hover_left_border: a.hover_left_border,
        hover_right_border: a.hover_right_border,
        preview_scroll: a.preview_scroll,
        chat_scroll: a.chat_scroll,
        paper_list_selected: a.paper_list_selected,
        just_selected: a.just_selected,
        dragging_border: a.dragging_border,
        preview_focused: a.preview_focused,
        show_chat: a.show_chat,
        view_mode: a.view_mode,
        input_mode: a.input_mode,
        chat_cursor: a.chat_cursor,
        dragging_scrollbar: a.dragging_scrollbar,
        preview_cursor: a.preview_cursor,
        selecting: a.selecting,
        sel_start: a.sel_start,
        sel_end: a.sel_end,
        left_width_pct: a.left_width_pct,
        right_width_pct: a.right_width_pct,
    }
}

/// `a` with its pointer state replaced by `q`, the rest as it was.
pub open spec fn with_pointer(a: App, q: Pointer) -> App {
    App {
        mouse_col: q.mouse_col,
        mouse_row: q.mouse_row,
        hover_left_border: q.hover_left_border,
        hover_right_border: q.hover_right_border,
        preview_scroll: q.preview_scroll,
        chat_scroll: q.chat_scroll,
        paper_list_selected: q.paper_list_selected,
        just_selected: q.just_selected,
        dragging_border: q.dragging_border,
        preview_focused: q.preview_focused,
        show_chat: q.show_chat,
        view_mode: q.view_mode,
        input_mode: q.input_mode,
        chat_cursor: q.chat_cursor,
        dragging_scrollbar: q.dragging_scrollbar,
        preview_cursor: q.preview_cursor,
        selecting: q.selecting,
        sel_start: q.sel_start,
        sel_end: q.sel_end,
        left_width_pct: q.left_width_pct,
        right_width_pct: q.right_width_pct,
        ..a
    }
}

/// The pointer's cell and the seam hover noted.
pub open spec fn hovered(q: Pointer, p: Panes, m: MouseEvent) -> Pointer {
    Pointer {
        mouse_col: m.column,
        mouse_row: m.row,
        hover_left_border: on_left_seam(p, m.column, m.row),
        hover_right_border: on_right_seam(p, m.column, m.row),
        ..q
    }
}

/// The wheel turned down: the pane under the pointer scrolls by three rows
/// (the paper list moves its selection down by one, within the list).
pub open spec fn wheel_down(n: nat, q: Pointer, p: Panes, col: u16, row: u16) -> Pointer {
    let in_pre = in_area(p.preview_text, col, row);
    let in_chat = !in_pre && p.three_pane && in_area(p.chat, col, row);
    let in_list = !in_pre && !in_chat && in_area(p.paper_list, col, row) && n > 0;
    let ps = q.preview_scroll + 3;
    let cs = q.chat_scroll + 3;
    let sel = q.paper_list_selected + 1;
    Pointer {
        preview_scroll: if in_pre { (if ps <= u16::MAX { ps } else { u16::MAX as int }) as u16 } else { q.preview_scroll },
        chat_scroll: if in_chat { (if cs <= usize::MAX { cs } else { usize::MAX as int }) as usize } else { q.chat_scroll },
        paper_list_selected: if in_list { (if sel <= n - 1 { sel } else { n - 1 }) as usize } else { q.paper_list_selected },
        ..q
    }
}

/// The wheel turned up: the pane under the pointer scrolls back by three
/// rows (the paper list moves its selection up by one).
pub open spec fn wheel_up(q: Pointer, p: Panes, col: u16, row: u16) -> Pointer {
    let in_pre = in_area(p.preview_text, col, row);
    let in_chat = !in_pre && p.three_pane && in_area(p.chat, col, row);
    let in_list = !in_pre && !in_chat && in_area(p.paper_list, col, row);
    Pointer {
        preview_scroll: if in_pre { sat_sub(q.preview_scroll as int, 3) as u16 } else { q.preview_scroll },
        chat_scroll: if in_chat { sat_sub(q.chat_scroll as int, 3) as usize } else { q.chat_scroll },
        paper_list_selected: if in_list { sat_sub(q.paper_list_selected as int, 1) as usize } else { q.paper_list_selected },
        ..q
    }
}

/// Where a click or drag on the scrollbar at `row` sends the preview, for a
/// text drawn in `rows` rows: the row within the text area and the furthest
/// scroll, when the text is taller than the area.
pub open spec fn scroll_target(rows: nat, p: Panes, row: u16) -> MouseAction {
    let pt = p.preview_text;
    let content_h = sat_sub(pt.height as int, 2);
    let r = sat_sub(row as int, pt.y + 1);
    let last = sat_sub(content_h, 1);
    let rel_y = if r <= last { r } else { last };
    let total = if rows >= 1 { rows as int } else { 1 };
    let max_scroll = sat_sub(total, content_h);
    if max_scroll > 0 {
        MouseAction::ScrollTo { rel_y: rel_y as u16, content_h: content_h as u16, max_scroll: max_scroll as usize }
    } else {
        MouseAction::Nothing
    }
}

/// The view a tab stands for.
pub open spec fn tab_view(i: int) -> ViewMode {
    if i == 0 {
        ViewMode::Body
    } else if i == 1 {
        ViewMode::Appendix
    } else if i == 2 {
        ViewMode::Note
    } else {
        ViewMode::Description
    }
}

/// Where a left press lands.
#[derive(Clone, Copy, Debug, PartialEq, Eq, Structural)]
pub enum Click {
    LeftSeam,
    RightSeam,
    /// The paper list, at this row of it (maybe past the last paper).
    PaperRow(usize),
    /// The view tabs, at this tab.
    Tab(usize),
    /// The chat input, at this byte column (capped at the input's length).
    ChatInput(usize),
    Chat,
    /// The preview while the chat has the keys: the keys go back.
    Unfocus,
    Scrollbar,
    /// The preview text, at this cell of it.
    TextCell(u16, u16),
    Elsewhere,
}

/// What a left press at `col`, `row` lands on, the seams first.
pub open spec fn click_at(v: AppView, p: Panes, col: u16, row: u16) -> Click {
    let pt = p.preview_text;
    let bar = pt.x + sat_sub(pt.width as int, 4);
    if on_left_seam(p, col, row) {
        Click::LeftSeam
    } else if on_right_seam(p, col, row) {
        Click::RightSeam
    } else if in_area(p.paper_list, col, row) {
        Click::PaperRow(sat_sub(row as int, p.paper_list.y + 1) as usize)
    } else if in_area(p.preview_tabs, col, row) {
        let t = sat_sub(col as int, p.preview_tabs.x as int) / 8;
        Click::Tab((if t <= 3 { t } else { 3 }) as usize)
    } else if in_area(p.chat_input, col, row) {
        let a = sat_sub(col as int, p.chat_input.x + 3);
        let lim = (utf8_len(v.chat_input) as u16) as int;
        Click::ChatInput((if a <= lim { a } else { lim }) as usize)
    } else if in_area(p.chat, col, row) {
        Click::Chat
    } else if in_area(pt, col, row) {
        if v.input_mode == InputMode::Chat {
            Click::Unfocus
        } else if col >= bar && col < bar + 3 {
            Click::Scrollbar
        } else {
            Click::TextCell(sat_sub(col as int, pt.x + 1) as u16, sat_sub(row as int, pt.y + 1) as u16)
        }
    } else {
        Click::Elsewhere
    }
}

/// The byte of the shown text under a clicked text cell.
pub open spec fn click_byte(v: AppView, c: Click) -> Option<int> {
    match c {
        Click::TextCell(x, y) => screen_byte(v, y, x),
        _ => None,
    }
}

/// A left press on `v` (whose pointer state is `q`): the copy notice goes,
/// and then by where it lands: a seam starts a resize; a paper is selected
/// and loaded with the chat shown; a tab picks its view; the chat input
/// takes the keys with its cursor at the clicked column (rounded down to a
/// character); the chat takes the keys; the preview gives the keys back from
/// the chat; the scrollbar jumps and starts a drag; text gets the text
/// cursor and an empty selection there. Focus leaves the preview unless the
/// click is on the tabs or the preview.
pub open spec fn left_down(v: AppView, q: Pointer, p: Panes, col: u16, row: u16) -> (Pointer, MouseAction) {
    let c = click_at(v, p, col, row);
    let n = v.papers.len();
    let hit = click_byte(v, c);
    let loads = c matches Click::PaperRow(i) && i < n;
    (
        Pointer {
            just_selected: false,
            dragging_border: match c {
                Click::LeftSeam => Some(0),
                Click::RightSeam => Some(1),
                _ => q.dragging_border,
            },
            preview_focused: match c {
                Click::Tab(_) | Click::Unfocus | Click::Scrollbar => q.preview_focused,
                Click::TextCell(_, _) => hit is Some || q.preview_focused,
                _ => false,
            },
            paper_list_selected: match c {
                Click::PaperRow(i) => if i < n { i } else { q.paper_list_selected },
                _ => q.paper_list_selected,
            },
            show_chat: loads || c is ChatInput || c is Chat || q.show_chat,
            view_mode: match c {
                Click::Tab(i) => tab_view(i as int),
                _ => q.view_mode,
            },
            input_mode: match c {
                Click::ChatInput(_) | Click::Chat => InputMode::Chat,
                Click::Unfocus => InputMode::Normal,
                _ => q.input_mode,
            },
            chat_cursor: match c {
                Click::ChatInput(raw) => floor_boundary_spec(v.chat_input, raw as int) as usize,
                _ => q.chat_cursor,
            },
            dragging_scrollbar: c is Scrollbar || q.dragging_scrollbar,
            preview_cursor: match hit {
                Some(b) => floor_boundary_spec(shown(v), b) as usize,
                None => q.preview_cursor,
            },
            selecting: hit is Some || q.selecting,
            sel_start: match c {
                Click::TextCell(x, y) => if hit is Some { Some((x, y)) } else { q.sel_start },
                _ => q.sel_start,
            },
            sel_end: match c {
                Click::TextCell(x, y) => if hit is Some { Some((x, y)) } else { q.sel_end },
                _ => q.sel_end,
            },
            ..q
        },
        match c {
            Click::PaperRow(i) => if i < n { MouseAction::LoadPaper(i) } else { MouseAction::Nothing },
            Click::Scrollbar => scroll_target(v.screen_map.len(), p, row),
            _ => MouseAction::Nothing,
        },
    )
}

/// A seam dragged to column `col`: the paper list takes that share of the
/// width, within 15-55%; the chat takes the share right of it, within
/// 20-50%.
pub open spec fn seam_pct(p: Panes, col: u16, seam: usize) -> int {
    let bx = p.body.x as int;
    let bw = p.body.width as int;
    if seam == 0 {
        let q = sat_sub(col as int, bx) * 100 / bw;
        if q < 15 { 15 } else if q > 55 { 55 } else { q }
    } else {
        let q = sat_sub(bx + bw, col as int) * 100 / bw;
        if q < 20 { 20 } else if q > 50 { 50 } else { q }
    }
}

/// A drag: the scrollbar scrolls, a seam resizes its panes, or the
/// selection's moving end follows the pointer in the preview.
pub open spec fn left_drag(rows: nat, q: Pointer, p: Panes, col: u16, row: u16) -> (Pointer, MouseAction) {
    let pt = p.preview_text;
    let bar = q.dragging_scrollbar && in_area(pt, col, row);
    let seam: Option<usize> = if bar || p.body.width == 0 { None } else { q.dragging_border };
    let extend = !bar && q.dragging_border is None && q.selecting && in_area(pt, col, row);
    (
        Pointer {
            left_width_pct: if seam == Some(0usize) { seam_pct(p, col, 0) as u16 } else { q.left_width_pct },
            right_width_pct: match seam {
                Some(i) => if i != 0 { seam_pct(p, col, i) as u16 } else { q.right_width_pct },
                None => q.right_width_pct,
            },
            sel_end: if extend {
                Some((sat_sub(col as int, pt.x + 1) as u16, sat_sub(row as int, pt.y + 1) as u16))
            } else {
                q.sel_end
            },
            ..q
        },
        if bar { scroll_target(rows, p, row) } else { MouseAction::Nothing },
    )
}

/// What a mouse event does to the pointer state of `a`: the pointer's cell
/// and seam hover are noted, then the event acts on the pane under it;
/// releasing the button ends any drag or selection.
pub open spec fn mouse_spec(a: App, p: Panes, m: MouseEvent) -> (Pointer, MouseAction) {
    let q = hovered(pointer_of(a), p, m);
    let col = m.column;
    let row = m.row;
    match m.kind {
        MouseKind::ScrollDown => (wheel_down(a.papers@.len(), q, p, col, row), MouseAction::Nothing),
        MouseKind::ScrollUp => (wheel_up(q, p, col, row), MouseAction::Nothing),
        MouseKind::LeftDown => left_down(a@, q, p, col, row),
        MouseKind::LeftDrag => left_drag(a.screen_map@.len(), q, p, col, row),
        MouseKind::LeftUp => (Pointer { dragging_border: None, dragging_scrollbar: false, selecting: false, ..q }, MouseAction::Nothing),
        MouseKind::Other => (q, MouseAction::Nothing),
    }
}

fn sub16(a: u16, b: u16) -> (r: u16)
    ensures
        r == sat_sub(a as int, b as int),
{
    if a >= b { a - b } else { 0 }
}

fn tab_view_exec(i: usize) -> (m: ViewMode)
    ensures
        m == tab_view(i as int),
{
    if i == 0 {
        ViewMode::Body
    } else if i == 1 {
        ViewMode::Appendix
    } else if i == 2 {
        ViewMode::Note
    } else {
        ViewMode::Description
    }
}

fn on_left_seam_exec(p: &Panes, col: u16, row: u16) -> (b: bool)
    requires
        panes_ok(*p),
    ensures
        b == on_left_seam(*p, col, row),
{
    let e = p.paper_list.x + p.paper_list.width;
    row >= p.body.y && row < p.body.y + p.body.height && col >= e - 1 && col <= e + 1
}

fn on_right_seam_exec(p: &Panes, col: u16, row: u16) -> (b: bool)
    requires
        panes_ok(*p),
    ensures
        b == on_right_seam(*p, col, row),
{
    if !p.three_pane {
        return false;
    }
    let e = p.preview_text.x + p.preview_text.width;
    row >= p.body.y && row < p.body.y + p.body.height && col >= sub16(e - 1, 1) && col <= e + 1
}

fn seam_pct_exec(p: &Panes, col: u16, seam: usize) -> (r: u16)
    requires
        panes_ok(*p),
        p.body.width > 0,
    ensures
        r == seam_pct(*p, col, seam),
{
    let bx = p.body.x;
    let bw = p.body.width;
    if seam == 0 {
        let q = sub16(col, bx) as u32 * 100 / bw as u32;
        if q < 15 { 15 } else if q > 55 { 55 } else { q as u16 }
    } else {
        let q = sub16(bx + bw, col) as u32 * 100 / bw as u32;
        if q < 20 { 20 } else if q > 50 { 50 } else { q as u16 }
    }
}

fn scroll_target_exec(rows: usize, p: &Panes, row: u16) -> (act: MouseAction)
    requires
        panes_ok(*p),
    ensures
        act == scroll_target(rows as nat, *p, row),
{
    let pt = p.preview_text;
    let content_h = sub16(pt.height, 2);
    let r = sub16(row, pt.y + 1);
    let last = sub16(content_h, 1);
    let rel_y = if r <= last { r } else { last };
    let total = if rows >= 1 { rows } else { 1 };
    let max_scroll = if total >= content_h as usize { total - content_h as usize } else { 0 };
    if max_scroll > 0 {
        MouseAction::ScrollTo { rel_y, content_h, max_scroll }
    } else {
        MouseAction::Nothing
    }
}

fn hover_exec(q: Pointer, p: &Panes, m: MouseEvent) -> (r: Pointer)
    requires
        panes_ok(*p),
    ensures
        r == hovered(q, *p, m),
{
    Pointer {
        mouse_col: m.column,
        mouse_row: m.row,
        hover_left_border: on_left_seam_exec(p, m.column, m.row),
        hover_right_border: on_right_seam_exec(p, m.column, m.row),
        ..q
    }
}

fn wheel_exec(n: usize, q: Pointer, p: &Panes, col: u16, row: u16, down: bool) -> (r: Pointer)
    requires
        panes_ok(*p),
        down ==> q.paper_list_selected < usize::MAX,
    ensures
        down ==> r == wheel_down(n as nat, q, *p, col, row),
        !down ==> r == wheel_up(q, *p, col, row),
{
    let in_pre = in_area_exec(p.preview_text, col, row);
    let in_chat = !in_pre && p.three_pane && in_area_exec(p.chat, col, row);
    let in_list = !in_pre && !in_chat && in_area_exec(p.paper_list, col, row) && (!down || n > 0);
    let ps = if !in_pre {
        q.preview_scroll
    } else if down {
        if q.preview_scroll <= 65532 { q.preview_scroll + 3 } else { 65535 }
    } else {
        sub16(q.preview_scroll, 3)
    };
    let cs = if !in_chat {
        q.chat_scroll
    } else if down {
        if q.chat_scroll <= usize::MAX - 3 { q.chat_scroll + 3 } else { usize::MAX }
    } else if q.chat_scroll >= 3 {
        q.chat_scroll - 3
    } else {
        0
    };
    let sel = if !in_list {
        q.paper_list_selected
    } else if down {
        let s = q.paper_list_selected + 1;
        if s <= n - 1 { s } else { n - 1 }
    } else if q.paper_list_selected >= 1 {
        q.paper_list_selected - 1
    } else {
        0
    };
    Pointer { preview_scroll: ps, chat_scroll: cs, paper_list_selected: sel, ..q }
}

fn drag_exec(rows: usize, q: Pointer, p: &Panes, col: u16, row: u16) -> (r: (Pointer, MouseAction))
    requires
        panes_ok(*p),
    ensures
        r == left_drag(rows as nat, q, *p, col, row),
{
    let pt = p.preview_text;
    let bar = q.dragging_scrollbar && in_area_exec(pt, col, row);
    let seam: Option<usize> = if bar || p.body.width == 0 { None } else { q.dragging_border };
    let extend = !bar && q.dragging_border.is_none() && q.selecting && in_area_exec(pt, col, row);
    let left = match seam {
        Some(i) => if i == 0 { seam_pct_exec(p, col, 0) } else { q.left_width_pct },
        None => q.left_width_pct,
    };
    let right = match seam {
        Some(i) => if i != 0 { seam_pct_exec(p, col, i) } else { q.right_width_pct },
        None => q.right_width_pct,
    };
    let end = if extend { Some((sub16(col, pt.x + 1), sub16(row, pt.y + 1))) } else { q.sel_end };
    let act = if bar { scroll_target_exec(rows, p, row) } else { MouseAction::Nothing };
    (Pointer { left_width_pct: left, right_width_pct: right, sel_end: end, ..q }, act)
}

impl App {
    /// The pointer state.
    pub fn pointer(&self) -> (r: Pointer)
        ensures
            r == pointer_of(*self),
    {
        Pointer {
            mouse_col: self.mouse_col,
            mouse_row: self.mouse_row,
            hover_left_border: self.hover_left_border,
            hover_right_border: self.hover_right_border,
            preview_scroll: self.preview_scroll,
            chat_scroll: self.chat_scroll,
            paper_list_selected: self.paper_list_selected,
            just_selected: self.just_selected,
            dragging_border: self.dragging_border,
            preview_focused: self.preview_focused,
            show_chat: self.show_chat,
            view_mode: self.view_mode,
            input_mode: self.input_mode,
            chat_cursor: self.chat_cursor,
            dragging_scrollbar: self.dragging_scrollbar,
            preview_cursor: self.preview_cursor,
            selecting: self.selecting,
            sel_start: self.sel_start,
            sel_end: self.sel_end,
            left_width_pct: self.left_width_pct,
            right_width_pct: self.right_width_pct,
        }
    }

    fn set_pointer(&mut self, q: Pointer)
        ensures
            *final(self) == with_pointer(*old(self), q),
    {
        self.mouse_col = q.mouse_col;
        self.mouse_row = q.mouse_row;
        self.hover_left_border = q.hover_left_border;
        self.hover_right_border = q.hover_right_border;
        self.preview_scroll = q.preview_scroll;
        self.chat_scroll = q.chat_scroll;
        self.paper_list_selected = q.paper_list_selected;
        self.just_selected = q.just_selected;
        self.dragging_border = q.dragging_border;
        self.preview_focused = q.preview_focused;
        self.show_chat = q.show_chat;
        self.view_mode = q.view_mode;
        self.input_mode = q.input_mode;
        self.chat_cursor = q.chat_cursor;
        self.dragging_scrollbar = q.dragging_scrollbar;
        self.preview_cursor = q.preview_cursor;
        self.selecting = q.selecting;
        self.sel_start = q.sel_start;
        self.sel_end = q.sel_end;
        self.left_width_pct = q.left_width_pct;
        self.right_width_pct = q.right_width_pct;
    }

    fn click_at(&self, p: &Panes, col: u16, row: u16) -> (c: Click)
        requires
            panes_ok(*p),
        ensures
            c == click_at(self@, *p, col, row),
    {
        let pt = p.preview_text;
        let bar = pt.x + sub16(pt.width, 4);
        if on_left_seam_exec(p, col, row) {
            return Click::LeftSeam;
        }
        if on_right_seam_exec(p, col, row) {
            return Click::RightSeam;
        }
        if in_area_exec(p.paper_list, col, row) {
            return Click::PaperRow(sub16(row, p.paper_list.y + 1) as usize);
        }
        if in_area_exec(p.preview_tabs, col, row) {
            let t = sub16(col, p.preview_tabs.x) / 8;
            return Click::Tab((if t <= 3 { t } else { 3 }) as usize);
        }
        if in_area_exec(p.chat_input, col, row) {
            let a = sub16(col, p.chat_input.x + 3);
            let lim = byte_len(self.chat_input.as_str()) as u16;
            return Click::ChatInput((if a <= lim { a } else { lim }) as usize);
        }
        if in_area_exec(p.chat, col, row) {
            return Click::Chat;
        }
        if in_area_exec(pt, col, row) {
            if self.input_mode == InputMode::Chat {
                return Click::Unfocus;
            }
            if col >= bar && col < bar + 3 {
                return Click::Scrollbar;
            }
            return Click::TextCell(sub16(col, pt.x + 1), sub16(row, pt.y + 1));
        }
        Click::Elsewhere
    }

    fn press(&self, q: Pointer, p: &Panes, col: u16, row: u16) -> (r: (Pointer, MouseAction))
        requires
            panes_ok(*p),
        ensures
            r == left_down(self@, q, *p, col, row),
    {
        let c = self.click_at(p, col, row);
        let n = self.papers.len();
        let hit = match c {
            Click::TextCell(x, y) => self.screen_to_byte(y, x),
            _ => None,
        };
        let loads = match c {
            Click::PaperRow(i) => i < n,
            _ => false,
        };
        let border = match c {
            Click::LeftSeam => Some(0usize),
            Click::RightSeam => Some(1usize),
            _ => q.dragging_border,
        };
        let focused = match c {
            Click::Tab(_) | Click::Unfocus | Click::Scrollbar => q.preview_focused,
            Click::TextCell(_, _) => hit.is_some() || q.preview_focused,
            _ => false,
        };
        let sel = match c {
            Click::PaperRow(i) => if i < n { i } else { q.paper_list_selected },
            _ => q.paper_list_selected,
        };
        let to_chat = match c {
            Click::ChatInput(_) | Click::Chat => true,
            _ => false,
        };
        let view = match c {
            Click::Tab(i) => tab_view_exec(i),
            _ => q.view_mode,
        };
        let mode = match c {
            Click::ChatInput(_) | Click::Chat => InputMode::Chat,
            Click::Unfocus => InputMode::Normal,
            _ => q.input_mode,
        };
        let chat_cursor = match c {
            Click::ChatInput(raw) => floor_boundary(self.chat_input.as_str(), raw),
            _ => q.chat_cursor,
        };
        let bar = match c {
            Click::Scrollbar => true,
            _ => false,
        };
        let cursor = match hit {
            Some(b) => floor_boundary(self.current_text(), b),
            None => q.preview_cursor,
        };
        let (sel_start, sel_end) = match c {
            Click::TextCell(x, y) => if hit.is_some() { (Some((x, y)), Some((x, y))) } else { (q.sel_start, q.sel_end) },
            _ => (q.sel_start, q.sel_end),
        };
        let act = match c {
            Click::PaperRow(i) => if i < n { MouseAction::LoadPaper(i) } else { MouseAction::Nothing },
            Click::Scrollbar => scroll_target_exec(self.screen_map.len(), p, row),
            _ => MouseAction::Nothing,
        };
        (
            Pointer {
                just_selected: false,
                dragging_border: border,
                preview_focused: focused,
                paper_list_selected: sel,
                show_chat: loads || to_chat || q.show_chat,
                view_mode: view,
                input_mode: mode,
                chat_cursor: chat_cursor,
                dragging_scrollbar: bar || q.dragging_scrollbar,
                preview_cursor: cursor,
                selecting: hit.is_some() || q.selecting,
                sel_start: sel_start,
                sel_end: sel_end,
                ..q
            },
            act,
        )
    }

    /// What a mouse event does, given where the panes were drawn: only the
    /// pointer state changes. Loading a paper's texts and the scrollbar's
    /// exact row are returned for the caller.
    pub fn handle_mouse(&mut self, p: &Panes, m: MouseEvent) -> (act: MouseAction)
        requires
            panes_ok(*p),
            m.kind == MouseKind::ScrollDown ==> old(self).paper_list_selected < usize::MAX,
        ensures
            *final(self) == with_pointer(*old(self), mouse_spec(*old(self), *p, m).0),
            act == mouse_spec(*old(self), *p, m).1,
    {
        let q = hover_exec(self.pointer(), p, m);
        let (q2, act) = match m.kind {
            MouseKind::ScrollDown => (wheel_exec(self.papers.len(), q, p, m.column, m.row, true), MouseAction::Nothing),
            MouseKind::ScrollUp => (wheel_exec(self.papers.len(), q, p, m.column, m.row, false), MouseAction::Nothing),
            MouseKind::LeftDown => self.press(q, p, m.column, m.row),
            MouseKind::LeftDrag => drag_exec(self.screen_map.len(), q, p, m.column, m.row),
            MouseKind::LeftUp => (Pointer { dragging_border: None, dragging_scrollbar: false, selecting: false, ..q }, MouseAction::Nothing),
            MouseKind::Other => (q, MouseAction::Nothing),
        };
        self.set_pointer(q2);
        act
    }
}

// ---------------------------------------------------------------- laws

/// Turning the wheel down and then back up over the same place gives back
/// the pointer state it started from, away from the limits (three rows
/// short of the furthest scroll, one paper short of the last).
pub proof fn law_wheel_down_then_up(n: nat, q: Pointer, p: Panes, col: u16, row: u16)
    requires
        q.preview_scroll + 3 <= u16::MAX,
        q.chat_scroll + 3 <= usize::MAX,
        q.paper_list_selected + 1 < n <= usize::MAX,
    ensures
        wheel_up(wheel_down(n, q, p, col, row), p, col, row) == q,
{
}

} // verus!
