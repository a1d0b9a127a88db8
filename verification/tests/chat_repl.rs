use arxivcat::chat::{
    build_global_chat_context, build_side_chat_context, choose_brief, model_id, session_file_name,
    session_file_stamp, should_save_session, stream_request, truncate_context, ChatMessage, ChatSession,
    ContextFiles,
    ContextSelection, PaperContext,
};
use arxivcat::repl::{
    compose_messages, history_preview, parse_repl_line, ReplAction, ReplCommand, ReplState,
};
use arxivcat::stream::{collapse_newlines, sse_payloads, StreamState};

fn files(body: Option<&str>, appendix: Option<&str>, description: Option<&str>, note: Option<&str>) -> ContextFiles {
    ContextFiles {
        body: body.map(String::from),
        appendix: appendix.map(String::from),
        description: description.map(String::from),
        note: note.map(String::from),
    }
}

fn sel(body: bool, appendix: bool, description: bool, note: bool) -> ContextSelection {
    ContextSelection { body, appendix, description, note }
}

#[test]
fn test_global_context_empty_selection_returns_placeholder() {
    let papers = vec![PaperContext {
        arxiv_id: "2501.12948".into(),
        title: "Test".into(),
        files: files(Some("body text"), None, None, None),
    }];
    let ctx = build_global_chat_context(&papers, &sel(false, false, false, false));
    assert!(ctx.contains("no context selected"));
}

#[test]
fn test_global_context_body_only() {
    let papers = vec![PaperContext {
        arxiv_id: "2501.12948".into(),
        title: "Test".into(),
        files: files(Some("some body"), None, None, None),
    }];
    let ctx = build_global_chat_context(&papers, &sel(true, false, false, false));
    assert!(ctx.contains("some body"));
    assert!(ctx.contains("Paper [1]"));
}

#[test]
fn test_global_context_skips_paper_without_selected_fields() {
    let papers = vec![
        PaperContext { arxiv_id: "2501.12948".into(), title: "A".into(), files: files(None, None, Some("desc A"), None) },
        PaperContext { arxiv_id: "2412.04445".into(), title: "B".into(), files: files(Some("body B"), None, None, None) },
    ];
    let ctx = build_global_chat_context(&papers, &sel(true, false, false, false));
    assert!(!ctx.contains("desc A"));
    assert!(ctx.contains("body B"));
    assert!(ctx.starts_with("Paper [2]\narXiv ID: 2412.04445\nTitle: B\n---\nbody:\nbody B"));
}

#[test]
fn test_global_context_multiple_fields() {
    let papers = vec![PaperContext {
        arxiv_id: "2501.12948".into(),
        title: "Test".into(),
        files: files(Some("body text"), None, None, Some("my note")),
    }];
    let ctx = build_global_chat_context(&papers, &sel(true, false, false, true));
    assert!(ctx.contains("body text"));
    assert!(ctx.contains("my note"));
    assert_eq!(ctx, "Paper [1]\narXiv ID: 2501.12948\nTitle: Test\n---\nbody:\nbody text\n\nnote:\nmy note");
}

#[test]
fn side_chat_context_with_selection() {
    let f = files(Some("body content"), None, None, Some("my note"));
    let ctx = build_side_chat_context(&f, &sel(true, false, false, true));
    assert!(ctx.contains("body content"));
    assert!(ctx.contains("my note"));
    assert!(!ctx.contains("appendix"));
}

#[test]
fn side_chat_context_empty_returns_placeholder() {
    let f = files(None, None, None, None);
    let ctx = build_side_chat_context(&f, &ContextSelection::default());
    assert!(!ctx.is_empty());
    assert_eq!(ctx, "(no context selected)");
}

#[test]
fn brief_falls_back_to_legacy_description() {
    assert_eq!(choose_brief(Some("brief".into()), Some("old".into())), Some("brief".to_string()));
    assert_eq!(choose_brief(Some("  \n".into()), Some("old".into())), Some("old".to_string()));
    assert_eq!(choose_brief(None, None), None);
}

#[test]
fn long_files_are_capped() {
    let long = "x".repeat(120_001);
    let t = truncate_context(&long);
    assert!(t.ends_with("\n\n...[truncated by arxivcat]"));
    assert_eq!(t.chars().count(), 120_000 + "\n\n...[truncated by arxivcat]".chars().count());
    let exact = "y".repeat(120_000);
    assert_eq!(truncate_context(&exact), exact);
}

#[test]
fn model_ids() {
    assert_eq!(model_id("Flash"), Some("deepseek-v4-flash"));
    assert_eq!(model_id("Pro"), Some("deepseek-v4-pro"));
    assert_eq!(model_id("flash"), None);
}

#[test]
fn sessions_are_titled_and_named() {
    let g = ChatSession::new_at("global", "", "2026-01-01 12:00", "2026-01-01T12:00:00");
    assert_eq!(g.title, "Global Chat 2026-01-01 12:00");
    assert_eq!(g.model, "Flash");
    assert_eq!(g.reasoning_effort, "high");
    let p = ChatSession::new_at("paper", "2501.12948", "2026-01-01 12:00", "t");
    assert_eq!(p.title, "2501.12948 2026-01-01 12:00");
    let anon = ChatSession::new_at("paper", "", "m", "t");
    assert_eq!(anon.title, "Paper m");
    assert_eq!(session_file_name("20260101_120000", 0), "20260101_120000.json");
    assert_eq!(session_file_name("20260101_120000", 2), "20260101_120000_2.json");
    let now = ChatSession::new("paper", "x");
    assert!(now.title.starts_with("x "));
}

#[test]
fn chat_session_save_load_empty_messages_skips() {
    let mut session = ChatSession::new("paper", "test");
    assert!(!should_save_session(&session));
    session.messages.push(ChatMessage::new("user", "hello"));
    assert!(should_save_session(&session));
}

#[test]
fn repl_lines_are_parsed() {
    assert!(matches!(parse_repl_line("   "), ReplCommand::Empty));
    assert!(matches!(parse_repl_line(" /quit "), ReplCommand::Quit));
    assert!(matches!(parse_repl_line("/q"), ReplCommand::Quit));
    match parse_repl_line("/model   pro extra") {
        ReplCommand::Model(Some(m)) => assert_eq!(m, "pro"),
        _ => panic!("expected /model"),
    }
    assert!(matches!(parse_repl_line("/context"), ReplCommand::Context(None)));
    match parse_repl_line("/unknown thing") {
        ReplCommand::Message(m) => assert_eq!(m, "/unknown thing"),
        _ => panic!("unknown commands are sent as messages"),
    }
    match parse_repl_line("  what is this?\n") {
        ReplCommand::Message(m) => assert_eq!(m, "what is this?"),
        _ => panic!("expected a message"),
    }
}

#[test]
fn repl_model_and_thinking() {
    let mut st = ReplState::new(ContextSelection::default(), "Flash".into(), true);
    match st.step(parse_repl_line("/model pro")) {
        ReplAction::ModelSwitched(m) => assert_eq!(m, "Pro"),
        _ => panic!(),
    }
    assert_eq!(st.model, "Pro");
    match st.step(parse_repl_line("/model gpt")) {
        ReplAction::UnknownModel(m) => assert_eq!(m, "gpt"),
        _ => panic!(),
    }
    assert_eq!(st.model, "Pro");
    assert!(matches!(st.step(parse_repl_line("/thinking")), ReplAction::ThinkingToggled(false)));
    assert!(!st.deep_thinking);
}

#[test]
fn side_chat_locks_sent_fields() {
    let mut st = ReplState::new(ContextSelection::default(), "Flash".into(), true);
    assert!(matches!(st.step(parse_repl_line("/context body")), ReplAction::ContextShown(s) if s.body));
    match st.step(parse_repl_line("hello")) {
        ReplAction::Send(window, line, s) => {
            assert!(window.is_empty());
            assert_eq!(line, "hello");
            assert!(s.body);
        }
        _ => panic!("expected a send"),
    }
    match st.step(parse_repl_line("/context body")) {
        ReplAction::FieldLocked(f) => assert_eq!(f, "body"),
        _ => panic!("body was sent and must stay"),
    }
    assert!(st.selection.body);
    assert!(matches!(st.step(parse_repl_line("/clear")), ReplAction::Cleared));
    assert!(st.history.is_empty());
    assert!(matches!(st.step(parse_repl_line("/context body")), ReplAction::ContextShown(s) if !s.body));
    assert!(matches!(st.step(parse_repl_line("/context abstract")), ReplAction::UnknownField(_)));
}

#[test]
fn global_chat_toggles_freely() {
    let mut st = ReplState::new(ContextSelection { body: false, appendix: false, description: true, note: false }, "Flash".into(), false);
    st.step(parse_repl_line("hi"));
    assert!(matches!(st.step(parse_repl_line("/context description")), ReplAction::ContextShown(s) if !s.description));
    assert!(matches!(st.step(parse_repl_line("/context description")), ReplAction::ContextShown(s) if s.description));
}

#[test]
fn only_twelve_messages_go_along() {
    let mut st = ReplState::new(ContextSelection::default(), "Flash".into(), false);
    for i in 0..15 {
        st.step(ReplCommand::Message(format!("m{i}")));
    }
    match st.step(ReplCommand::Message("last".into())) {
        ReplAction::Send(window, _, _) => {
            assert_eq!(window.len(), 12);
            assert_eq!(window[0].content, "m3");
            assert_eq!(window[11].content, "m14");
        }
        _ => panic!(),
    }
    assert_eq!(st.history.len(), 16);
}

#[test]
fn request_messages() {
    let window = vec![ChatMessage::new("user", "q1"), ChatMessage::new("assistant", "a1")];
    let turns = compose_messages("SYS:", "ctx", &window, "q2");
    let pairs: Vec<(String, String)> = turns.into_iter().map(|t| (t.role, t.content)).collect();
    assert_eq!(pairs, vec![
        ("system".to_string(), "SYS:ctx".to_string()),
        ("user".to_string(), "q1".to_string()),
        ("assistant".to_string(), "a1".to_string()),
        ("user".to_string(), "q2".to_string()),
    ]);
    assert_eq!(history_preview(&"z".repeat(300)).len(), 200);
}

#[test]
fn saved_session_round_trip_through_the_repl() {
    let mut st = ReplState::new(ContextSelection::default(), "Pro".into(), true);
    st.step(ReplCommand::Message("hello".into()));
    st.step(ReplCommand::Thinking);
    let s = st.session_to_save("paper", "2501.12948");
    assert_eq!(s.messages.len(), 1);
    assert_eq!(s.model, "Pro");
    assert_eq!(s.reasoning_effort, "off");
    let mut other = ReplState::new(ContextSelection::default(), "Flash".into(), true);
    other.load_session(&s);
    assert_eq!(other.model, "Pro");
    assert!(!other.deep_thinking);
    assert_eq!(other.history.len(), 1);
}

#[test]
fn event_stream_payloads() {
    let p = sse_payloads("data: {\"a\":1}\r\n\ndata: [DONE]\n  raw line  \n");
    assert_eq!(p, vec!["{\"a\":1}".to_string(), "raw line".to_string()]);
    assert_eq!(collapse_newlines("a\n\n\nb\nc"), "a\nb\nc");
}

#[test]
fn streamed_answer_is_assembled() {
    let mut st = StreamState::new();
    let chunk = "data: {\"choices\":[{\"delta\":{\"content\":\"Hel\"}}]}\n\
                 data: {\"choices\":[{\"delta\":{\"content\":\"lo\\n\\n\\nworld \"}}]}\n\
                 data: {\"choices\":[{\"delta\":{}}]}\n\
                 data: [DONE]\n";
    let toks = st.absorb_chunk(chunk.as_bytes());
    assert_eq!(toks.len(), 2);
    assert!(toks[0].first && !toks[1].first);
    assert_eq!(toks[1].text, "lo\nworld ");
    assert_eq!(st.buffer, "Hello\nworld ");
    assert_eq!(st.finish(), Some("Hello\nworld".to_string()));
    assert_eq!(StreamState::new().finish(), None);
}

#[test]
fn answers_join_the_conversation() {
    let mut st = ReplState::new(ContextSelection::default(), "Flash".into(), true);
    st.step(parse_repl_line("what is attention?"));
    st.record_reply("A weighting of tokens.");
    match st.step(parse_repl_line("and why?")) {
        ReplAction::Send(window, line, _) => {
            assert_eq!(line, "and why?");
            let pairs: Vec<(String, String)> = window.iter().map(|m| (m.speaker.clone(), m.content.clone())).collect();
            assert_eq!(
                pairs,
                vec![
                    ("user".to_string(), "what is attention?".to_string()),
                    ("assistant".to_string(), "A weighting of tokens.".to_string()),
                ]
            );
        }
        _ => panic!("expected a send"),
    }
}

#[test]
fn session_stamp_is_date_underscore_time() {
    let s: Vec<char> = session_file_stamp().chars().collect();
    assert_eq!(s.len(), 15);
    assert_eq!(s[8], '_');
    assert!(s.iter().enumerate().all(|(i, c)| i == 8 || c.is_ascii_digit()));
    let month: u32 = s[4..6].iter().collect::<String>().parse().unwrap();
    assert!((1..=12).contains(&month));
}

#[test]
fn stream_request_choices() {
    let r = stream_request("Pro", "high");
    assert_eq!(r.model_id, "deepseek-v4-pro");
    assert!(r.thinking);
    assert_eq!(r.reasoning_effort.as_deref(), Some("high"));
    let r = stream_request("Other", "off");
    assert_eq!(r.model_id, "deepseek-v4-flash");
    assert!(!r.thinking);
    assert_eq!(r.reasoning_effort, None);
}
