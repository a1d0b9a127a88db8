use arxivcat::edit::{
    byte_len, cut_range, floor_boundary, insert_char_at, insert_str_at, move_cursor,
    remove_char_at, CursorMove,
};
use arxivcat::keys::{Key, KeyAction, KeyPress};
use arxivcat::mouse::{Area, MouseAction, MouseEvent, MouseKind, Panes};
use arxivcat::rows::visual_rows;
use arxivcat::tui::{App, InputMode, PaperTexts, ViewMode, VisualRow};
use arxivcat::workspace::Paper;

fn paper(id: &str) -> Paper {
    Paper {
        arxiv_id: id.to_string(),
        title: format!("Title {id}"),
        folder_name: id.replace('.', "_"),
        folder: format!("/ws/raw/{}", id.replace('.', "_")),
        has_body: true,
        description_ready: false,
        deep_ready: false,
        is_complete: true,
    }
}

fn press(key: Key) -> KeyPress {
    KeyPress { key, control: false, alt: false, shift: false, other_modifiers: false }
}

fn ctrl(c: char) -> KeyPress {
    KeyPress { key: Key::Char(c), control: true, alt: false, shift: false, other_modifiers: false }
}

fn type_str(app: &mut App, s: &str) {
    for c in s.chars() {
        assert!(matches!(app.handle_key(press(Key::Char(c)), 10), KeyAction::Nothing));
    }
}

fn loaded_app() -> App {
    let mut app = App::new("Flash".to_string());
    app.papers = vec![paper("2501.12948"), paper("2401.00001")];
    app.load_paper(
        0,
        PaperTexts {
            body: "ab\ncdef\ng".into(),
            appendix: "A".into(),
            description: "D".into(),
            note: "note".into(),
        },
    );
    app
}

#[test]
fn byte_offsets_follow_utf8() {
    assert_eq!(byte_len("héllo"), 6);
    assert_eq!(floor_boundary("héllo", 2), 1);
    assert_eq!(floor_boundary("héllo", 3), 3);
    assert_eq!(floor_boundary("héllo", 99), 6);
    assert_eq!(insert_char_at(&"héllo".to_string(), 3, 'X'), "héXllo");
    assert_eq!(remove_char_at(&"héllo".to_string(), 1), "hllo");
    assert_eq!(cut_range(&"héllo".to_string(), 1, 4), "hlo");
    assert_eq!(insert_str_at(&"ab".to_string(), 1, "XY"), "aXYb");
}

#[test]
fn cursor_moves_by_characters_and_lines() {
    let t = "ab\ncdef\ng";
    assert_eq!(move_cursor(t, 0, CursorMove::Left), 0);
    assert_eq!(move_cursor(t, 1, CursorMove::Left), 0);
    assert_eq!(move_cursor(t, 1, CursorMove::Right), 2);
    assert_eq!(move_cursor(t, 9, CursorMove::Right), 9);
    assert_eq!(move_cursor(t, 5, CursorMove::Home), 3);
    assert_eq!(move_cursor(t, 5, CursorMove::End), 7);
    assert_eq!(move_cursor(t, 8, CursorMove::End), 9);
    // Up keeps the column, held before the end of the shorter line.
    assert_eq!(move_cursor(t, 5, CursorMove::Up), 2);
    assert_eq!(move_cursor(t, 4, CursorMove::Up), 1);
    assert_eq!(move_cursor(t, 1, CursorMove::Up), 1);
    // Down likewise; the last line stays put.
    assert_eq!(move_cursor(t, 1, CursorMove::Down), 4);
    assert_eq!(move_cursor(t, 6, CursorMove::Down), 8);
    assert_eq!(move_cursor(t, 8, CursorMove::Down), 8);
    assert_eq!(move_cursor("é\nx", 2, CursorMove::Left), 0);
}

#[test]
fn chat_input_edits_and_sends() {
    let mut app = loaded_app();
    app.input_mode = InputMode::Chat;
    type_str(&mut app, "héllo");
    assert_eq!(app.chat_input, "héllo");
    assert_eq!(app.chat_cursor, 6);
    app.handle_key(press(Key::Left), 10);
    assert_eq!(app.chat_cursor, 5);
    app.handle_key(press(Key::Backspace), 10);
    assert_eq!(app.chat_input, "hélo");
    assert_eq!(app.chat_cursor, 4);
    app.handle_key(press(Key::Home), 10);
    app.handle_key(press(Key::Delete), 10);
    assert_eq!(app.chat_input, "élo");
    // Right moves past the whole two-byte character.
    app.handle_key(press(Key::Right), 10);
    assert_eq!(app.chat_cursor, 2);
    app.handle_key(press(Key::End), 10);
    assert_eq!(app.chat_cursor, 4);
    app.handle_key(press(Key::Enter), 10);
    assert_eq!(app.chat_input, "");
    assert_eq!(app.chat_cursor, 0);
    assert_eq!(app.chat_messages.len(), 1);
    assert_eq!(app.chat_messages[0].speaker, "user");
    assert_eq!(app.chat_messages[0].content, "élo");
    assert_eq!(app.chat_scroll, 0);
    assert_eq!(app.log_lines.last().unwrap(), "sending...");
    // An empty input sends nothing.
    app.handle_key(press(Key::Enter), 10);
    assert_eq!(app.chat_messages.len(), 1);
    assert!(matches!(app.handle_key(ctrl('v'), 10), KeyAction::Paste));
    app.handle_key(press(Key::Esc), 10);
    assert_eq!(app.input_mode, InputMode::Normal);
    assert!(!app.show_chat);
}

#[test]
fn paste_folds_several_lines() {
    let mut app = loaded_app();
    app.input_mode = InputMode::Chat;
    app.paste("one line");
    assert_eq!(app.chat_input, "one line");
    assert_eq!(app.chat_cursor, 8);
    app.paste("a\nb\nc\n");
    assert_eq!(app.chat_input, "one line[Pasted ~3 lines]");
    app.input_mode = InputMode::Command;
    app.paste("x\ny");
    assert_eq!(app.status, "[Pasted ~2 lines]");
    assert_eq!(app.cmd_cursor, 17);
}

#[test]
fn commands_run_from_the_command_line() {
    let mut app = loaded_app();
    app.handle_key(press(Key::Char(':')), 10);
    assert_eq!(app.input_mode, InputMode::Command);
    assert_eq!(app.status, ":");
    type_str(&mut app, "scan");
    assert_eq!(app.status, ":scan");
    assert!(matches!(app.handle_key(press(Key::Enter), 10), KeyAction::Scan));
    assert_eq!(app.input_mode, InputMode::Normal);
    assert_eq!(app.status, "");
    assert_eq!(app.cmd_cursor, 1);

    app.handle_key(press(Key::Char(':')), 10);
    type_str(&mut app, "pdf");
    match app.handle_key(press(Key::Enter), 10) {
        KeyAction::Open(url) => assert_eq!(url, "https://arxiv.org/pdf/2501.12948"),
        _ => panic!("expected an address"),
    }

    app.handle_key(press(Key::Char(':')), 10);
    type_str(&mut app, "zap");
    app.handle_key(press(Key::Backspace), 10);
    assert_eq!(app.status, ":za");
    // The cursor never goes before the colon.
    app.handle_key(press(Key::Home), 10);
    app.handle_key(press(Key::Left), 10);
    assert_eq!(app.cmd_cursor, 1);
    assert!(matches!(app.handle_key(press(Key::Enter), 10), KeyAction::Nothing));
    assert_eq!(app.log_lines.last().unwrap(), "unknown: za");

    app.handle_key(press(Key::Char(':')), 10);
    type_str(&mut app, "dl");
    assert!(matches!(app.handle_key(press(Key::Enter), 10), KeyAction::DownloadAll));
}

#[test]
fn hotkeys_and_their_lock() {
    let mut app = loaded_app();
    app.handle_key(press(Key::Char('j')), 10);
    assert_eq!(app.paper_list_selected, 1);
    app.handle_key(press(Key::Char('j')), 10);
    assert_eq!(app.paper_list_selected, 1);
    app.handle_key(press(Key::Char('k')), 10);
    assert_eq!(app.paper_list_selected, 0);
    app.handle_key(press(Key::Char('3')), 10);
    assert_eq!(app.view_mode, ViewMode::Note);
    match app.handle_key(press(Key::Char('o')), 10) {
        KeyAction::Open(f) => assert_eq!(f, "/ws/raw/2501_12948"),
        _ => panic!("expected a folder"),
    }
    assert_eq!(app.log_lines.last().unwrap(), "opened /ws/raw/2501_12948");
    let lock = KeyPress { key: Key::Char('q'), control: true, alt: true, shift: false, other_modifiers: false };
    app.handle_key(lock, 10);
    assert!(app.hotkeys_locked);
    assert_eq!(app.log_lines.last().unwrap(), "hotkeys locked");
    app.handle_key(press(Key::Char('q')), 10);
    assert!(!app.quit);
    app.handle_key(press(Key::Char('1')), 10);
    assert_eq!(app.view_mode, ViewMode::Note);
    app.handle_key(lock, 10);
    assert!(!app.hotkeys_locked);
    app.handle_key(press(Key::Char('e')), 10);
    assert_eq!(app.input_mode, InputMode::NoteEdit);
    assert_eq!(app.log_lines.last().unwrap(), "editing note (Esc to save)");
    type_str(&mut app, "!");
    app.handle_key(press(Key::Enter), 10);
    assert_eq!(app.note_content, "note!\n");
    app.handle_key(press(Key::Backspace), 10);
    assert_eq!(app.note_content, "note!");
    assert!(matches!(app.handle_key(press(Key::Esc), 10), KeyAction::SaveNote));
    assert_eq!(app.input_mode, InputMode::Normal);
    assert_eq!(app.log_lines.last().unwrap(), "note saved");
    app.handle_key(press(Key::Char('q')), 10);
    assert!(app.quit);
}

#[test]
fn enter_loads_the_selected_paper() {
    let mut app = loaded_app();
    app.paper_list_selected = 1;
    match app.handle_key(press(Key::Enter), 10) {
        KeyAction::LoadPaper(i) => assert_eq!(i, 1),
        _ => panic!("expected a load"),
    }
    assert!(app.show_chat);
    app.handle_key(press(Key::PageDown), 10);
    assert_eq!(app.preview_scroll, 10);
    app.handle_key(press(Key::PageUp), 4);
    assert_eq!(app.preview_scroll, 6);
}

#[test]
fn typing_in_a_focused_note() {
    let mut app = loaded_app();
    app.view_mode = ViewMode::Note;
    app.preview_focused = true;
    app.preview_cursor = 2;
    // A letter bound to no hotkey types at the cursor.
    app.handle_key(press(Key::Char('x')), 10);
    assert_eq!(app.note_content, "noxte");
    assert_eq!(app.preview_cursor, 3);
    app.handle_key(press(Key::Backspace), 10);
    assert_eq!(app.note_content, "note");
    assert_eq!(app.preview_cursor, 2);
    app.handle_key(press(Key::Enter), 10);
    assert_eq!(app.note_content, "no\nte");
    assert_eq!(app.preview_cursor, 3);
    app.handle_key(press(Key::Up), 10);
    assert_eq!(app.preview_cursor, 0);
}

#[test]
fn selection_is_cut_copied_and_replaced() {
    let mut app = loaded_app();
    app.view_mode = ViewMode::Note;
    app.screen_map = vec![VisualRow { text: "note".into(), abs_byte_start: 0 }];
    app.sel_start = Some((1, 0));
    app.sel_end = Some((3, 0));
    assert_eq!(app.selected_text(), "ot");
    match app.handle_key(ctrl('c'), 10) {
        KeyAction::Copy(t) => assert_eq!(t, "ot"),
        _ => panic!("expected a copy"),
    }
    assert!(app.just_selected);
    assert_eq!(app.sel_start, None);
    app.preview_focused = true;
    app.sel_start = Some((3, 0));
    app.sel_end = Some((1, 0));
    app.handle_key(press(Key::Char('Z')), 10);
    assert_eq!(app.note_content, "nZe");
    assert_eq!(app.preview_cursor, 2);
    assert_eq!(app.sel_end, None);
}

fn panes() -> Panes {
    Panes {
        body: Area { x: 0, y: 2, width: 100, height: 20 },
        paper_list: Area { x: 0, y: 2, width: 25, height: 20 },
        preview_text: Area { x: 25, y: 3, width: 40, height: 19 },
        preview_tabs: Area { x: 25, y: 2, width: 40, height: 1 },
        chat: Area { x: 65, y: 2, width: 35, height: 17 },
        chat_input: Area { x: 65, y: 19, width: 35, height: 3 },
        three_pane: true,
    }
}

fn mouse(kind: MouseKind, column: u16, row: u16) -> MouseEvent {
    MouseEvent { kind, column, row }
}

#[test]
fn clicks_on_the_panes() {
    let mut app = loaded_app();
    let p = panes();
    match app.handle_mouse(&p, mouse(MouseKind::LeftDown, 5, 4)) {
        MouseAction::LoadPaper(i) => assert_eq!(i, 1),
        _ => panic!("expected a load"),
    }
    assert_eq!(app.paper_list_selected, 1);
    assert!(app.show_chat);
    assert!(matches!(app.handle_mouse(&p, mouse(MouseKind::LeftDown, 5, 9)), MouseAction::Nothing));
    assert_eq!(app.paper_list_selected, 1);
    app.handle_mouse(&p, mouse(MouseKind::LeftDown, 25 + 17, 2));
    assert_eq!(app.view_mode, ViewMode::Note);
    app.chat_input = "héllo".into();
    app.handle_mouse(&p, mouse(MouseKind::LeftDown, 65 + 3 + 2, 20));
    assert_eq!(app.input_mode, InputMode::Chat);
    assert_eq!(app.chat_cursor, 1);
    // A click on the preview gives the keys back from the chat.
    app.handle_mouse(&p, mouse(MouseKind::LeftDown, 30, 5));
    assert_eq!(app.input_mode, InputMode::Normal);
}

#[test]
fn wheel_and_seams() {
    let mut app = loaded_app();
    let p = panes();
    app.handle_mouse(&p, mouse(MouseKind::ScrollDown, 30, 5));
    assert_eq!(app.preview_scroll, 3);
    app.handle_mouse(&p, mouse(MouseKind::ScrollUp, 30, 5));
    app.handle_mouse(&p, mouse(MouseKind::ScrollUp, 30, 5));
    assert_eq!(app.preview_scroll, 0);
    app.handle_mouse(&p, mouse(MouseKind::ScrollDown, 3, 5));
    app.handle_mouse(&p, mouse(MouseKind::ScrollDown, 3, 5));
    assert_eq!(app.paper_list_selected, 1);
    // Drag the left seam to a tenth of the width: held at 15%.
    app.handle_mouse(&p, mouse(MouseKind::LeftDown, 25, 5));
    assert_eq!(app.dragging_border, Some(0));
    assert!(app.hover_left_border);
    app.handle_mouse(&p, mouse(MouseKind::LeftDrag, 10, 5));
    assert_eq!(app.left_width_pct, 15);
    app.handle_mouse(&p, mouse(MouseKind::LeftDrag, 40, 5));
    assert_eq!(app.left_width_pct, 40);
    app.handle_mouse(&p, mouse(MouseKind::LeftUp, 40, 5));
    assert_eq!(app.dragging_border, None);
}

#[test]
fn clicking_text_places_the_cursor() {
    let mut app = loaded_app();
    let p = panes();
    app.screen_map = vec![
        VisualRow { text: "ab".into(), abs_byte_start: 0 },
        VisualRow { text: "cdef".into(), abs_byte_start: 3 },
    ];
    app.handle_mouse(&p, mouse(MouseKind::LeftDown, 25 + 1 + 2, 3 + 1 + 1));
    assert_eq!(app.preview_cursor, 5);
    assert!(app.preview_focused);
    assert_eq!(app.sel_start, Some((2, 1)));
    app.handle_mouse(&p, mouse(MouseKind::LeftDrag, 25 + 1 + 3, 3 + 1 + 1));
    assert_eq!(app.sel_end, Some((3, 1)));
    // The scrollbar column jumps when the text is taller than the pane.
    app.screen_map = (0..40).map(|i| VisualRow { text: "x".into(), abs_byte_start: i }).collect();
    match app.handle_mouse(&p, mouse(MouseKind::LeftDown, 25 + 36, 3 + 9)) {
        MouseAction::ScrollTo { rel_y, content_h, max_scroll } => {
            assert_eq!(rel_y, 8);
            assert_eq!(content_h, 17);
            assert_eq!(max_scroll, 23);
        },
        _ => panic!("expected a scroll"),
    }
    assert!(app.dragging_scrollbar);
}

fn row_pairs(rows: &[VisualRow]) -> Vec<(String, usize)> {
    rows.iter().map(|r| (r.text.clone(), r.abs_byte_start)).collect()
}

#[test]
fn rows_break_at_line_feeds_and_width() {
    let rows = visual_rows("ab\ncdef", 3);
    assert_eq!(
        row_pairs(&rows),
        vec![("ab".to_string(), 0), ("cde".to_string(), 3), ("f".to_string(), 6)]
    );
}

#[test]
fn rows_keep_an_empty_last_line_and_count_bytes() {
    let rows = visual_rows("\u{e9}\nx\n", 0);
    assert_eq!(
        row_pairs(&rows),
        vec![("\u{e9}".to_string(), 0), ("x".to_string(), 3), ("".to_string(), 5)]
    );
    assert_eq!(row_pairs(&visual_rows("", 4)), vec![("".to_string(), 0)]);
    assert_eq!(row_pairs(&visual_rows("abc\nd", 3)), vec![("abc".to_string(), 0), ("d".to_string(), 4)]);
}

#[test]
fn screen_map_maps_cells_to_text_bytes() {
    let mut app = App::new("Flash".to_string());
    app.set_current_text("h\u{e9}llo\nworld".to_string());
    app.build_screen_map(4);
    assert_eq!(app.screen_map.len(), 4);
    assert_eq!(app.screen_to_byte(0, 2), Some(3));
    assert_eq!(app.screen_to_byte(1, 0), Some(5));
    assert_eq!(app.screen_to_byte(2, 3), Some(10));
    assert_eq!(app.screen_to_byte(3, 0), Some(11));
    assert_eq!(app.screen_to_byte(3, 1), None);
    assert_eq!(app.screen_to_byte(4, 0), None);
}

#[test]
fn chat_right_arrow_passes_a_whole_character() {
    let mut app = App::new("Flash".to_string());
    app.input_mode = InputMode::Chat;
    app.chat_input = "a\u{e9}".to_string();
    app.chat_cursor = 1;
    app.handle_key(press(Key::Right), 10);
    assert_eq!(app.chat_cursor, 3);
    assert_eq!(app.chat_input, "a\u{e9}");
    app.handle_key(press(Key::Right), 10);
    assert_eq!(app.chat_cursor, 3);
    app.handle_key(press(Key::Left), 10);
    assert_eq!(app.chat_cursor, 1);
}

#[test]
fn typing_then_backspace_restores_the_chat_input() {
    let mut app = App::new("Flash".to_string());
    app.input_mode = InputMode::Chat;
    app.chat_input = "ab".to_string();
    app.chat_cursor = 1;
    app.handle_key(press(Key::Char('\u{e9}')), 10);
    assert_eq!(app.chat_input, "a\u{e9}b");
    assert_eq!(app.chat_cursor, 3);
    app.handle_key(press(Key::Backspace), 10);
    assert_eq!(app.chat_input, "ab");
    assert_eq!(app.chat_cursor, 1);
}

#[test]
fn wheel_down_then_up_returns_to_the_same_place() {
    let mut app = loaded_app();
    let p = panes();
    app.preview_scroll = 7;
    app.chat_scroll = 2;
    app.handle_mouse(&p, mouse(MouseKind::ScrollDown, 30, 5));
    app.handle_mouse(&p, mouse(MouseKind::ScrollUp, 30, 5));
    assert_eq!(app.preview_scroll, 7);
    app.handle_mouse(&p, mouse(MouseKind::ScrollDown, 70, 5));
    assert_eq!(app.chat_scroll, 5);
    app.handle_mouse(&p, mouse(MouseKind::ScrollUp, 70, 5));
    assert_eq!(app.chat_scroll, 2);
}

#[test]
fn a_fresh_interface() {
    let app = App::new("Pro".to_string());
    assert!(app.workspace.is_none());
    assert!(app.papers.is_empty());
    assert!(app.current_paper.is_none());
    assert_eq!(app.view_mode, ViewMode::Body);
    assert_eq!(app.input_mode, InputMode::Normal);
    assert_eq!(app.chat_model, "Pro");
    assert!(app.deep_thinking);
    assert!(!app.quit);
    assert!(!app.show_chat);
    assert!(app.log_lines.is_empty());
    assert!(app.chat_messages.is_empty());
    assert_eq!(app.paper_list_selected, 0);
    assert_eq!(app.cmd_cursor, 1);
    assert_eq!(app.left_width_pct, 25);
    assert_eq!(app.right_width_pct, 35);
    assert!(!app.hotkeys_locked);
    assert!(!app.preview_focused);
}

#[test]
fn normal_mode_navigation_keys() {
    let mut app = App::new("Flash".to_string());
    app.papers = vec![paper("2501.12948"), paper("2401.00001")];
    app.handle_key(press(Key::Char('j')), 10);
    assert_eq!(app.paper_list_selected, 1);
    app.handle_key(press(Key::Char('j')), 10);
    assert_eq!(app.paper_list_selected, 1);
    app.handle_key(press(Key::Char('k')), 10);
    assert_eq!(app.paper_list_selected, 0);
    app.handle_key(press(Key::Char('k')), 10);
    assert_eq!(app.paper_list_selected, 0);
    assert_eq!(app.papers.len(), 2);
    app.hotkeys_locked = true;
    app.handle_key(press(Key::Char('q')), 10);
    assert!(!app.quit);
    app.hotkeys_locked = false;
    app.handle_key(press(Key::Char('q')), 10);
    assert!(app.quit);
}
