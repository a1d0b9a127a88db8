use arxivcat::error::ArxivError;
use arxivcat::repl::ChatTurn;
use arxivcat::summary::{
    auto_steps, brief_turns, build_user1, cap_text, deep_document, deep_turns, summary_model,
    title_from_reply, title_turns, usable_brief, BRIEF_INSTRUCTION, DEEP_INSTRUCTION, MAX_CTX_CHARS,
    SUMMARY_SYSTEM, TITLE_INSTRUCTION,
};

#[test]
fn short_texts_pass_whole() {
    assert_eq!(cap_text("abc"), "abc");
    let exact = "x".repeat(MAX_CTX_CHARS);
    assert_eq!(cap_text(&exact).len(), MAX_CTX_CHARS);
}

#[test]
fn long_texts_keep_both_ends() {
    let mut s = "a".repeat(MAX_CTX_CHARS / 2);
    s.push_str(&"m".repeat(10));
    s.push_str(&"z".repeat(MAX_CTX_CHARS / 2));
    let c = cap_text(&s);
    assert!(c.starts_with(&"a".repeat(MAX_CTX_CHARS / 2)));
    assert!(c.ends_with(&"z".repeat(MAX_CTX_CHARS / 2)));
    assert!(c.contains("\n\n...[truncated by arxivcat: 10 chars omitted from middle]\n\n"));
    assert!(!c.contains("mmm"));
}

#[test]
fn first_message_holds_id_title_text_and_instruction() {
    let u = build_user1("2501.12948", "A Title", Some("BODY".into()), Some("APP".into())).unwrap();
    assert_eq!(
        u,
        format!("arXiv ID: 2501.12948\nTitle: A Title\n\nPaper text snippet:\nBODY\n\n[Appendix]\nAPP\n\n{BRIEF_INSTRUCTION}")
    );
    let only_body = build_user1("1", "T", Some("B".into()), None).unwrap();
    assert!(only_body.contains("snippet:\nB\n\n"));
}

#[test]
fn blank_papers_cannot_be_summarized() {
    match build_user1("1", "T", Some("  \n".into()), None) {
        Err(ArxivError::Extraction(m)) => assert_eq!(m, "paper text is empty"),
        _ => panic!("expected an extraction error"),
    }
    assert!(build_user1("1", "T", None, None).is_err());
}

#[test]
fn deep_request_repeats_the_brief_request() {
    let b = brief_turns("U1");
    let d = deep_turns("U1", "BRIEF");
    assert_eq!(b.len(), 2);
    assert_eq!(d.len(), 4);
    for i in 0..2 {
        assert_eq!(b[i].role, d[i].role);
        assert_eq!(b[i].content, d[i].content);
    }
    assert_eq!(b[0].role, "system");
    assert_eq!(b[0].content, SUMMARY_SYSTEM);
    assert_eq!(d[2].role, "assistant");
    assert_eq!(d[2].content, "BRIEF");
    assert_eq!(d[3].content, DEEP_INSTRUCTION);
}

#[test]
fn tables_follow_the_recap_verbatim() {
    assert_eq!(deep_document("recap", &vec![]), "recap");
    let doc = deep_document("recap", &vec!["T1".to_string(), "T2".to_string()]);
    assert_eq!(
        doc,
        "recap\n\n---\n\n## 附录：原始数据表格\n\n```latex\nT1\n```\n\n```latex\nT2\n```\n\n"
    );
}

#[test]
fn model_and_brief_choice() {
    assert_eq!(summary_model("Pro"), "deepseek-v4-pro");
    assert_eq!(summary_model("Flash"), "deepseek-v4-flash");
    assert_eq!(summary_model("other"), "deepseek-v4-flash");
    assert!(usable_brief(&Some("# Overview".into())));
    assert!(!usable_brief(&Some(" \n".into())));
    assert!(!usable_brief(&None));
}

#[test]
fn downloads_summarize_only_when_asked() {
    assert_eq!(auto_steps(false, false, false), (true, true));
    assert_eq!(auto_steps(true, false, false), (false, false));
    assert_eq!(auto_steps(true, false, true), (false, true));
    assert_eq!(auto_steps(false, true, true), (true, false));
}

#[test]
fn title_request_appends_the_instruction() {
    let conv = vec![
        ChatTurn { role: "user".to_string(), content: "hi".to_string() },
        ChatTurn { role: "assistant".to_string(), content: "hello".to_string() },
    ];
    let t = title_turns(&conv);
    assert_eq!(t.len(), 3);
    assert_eq!((t[0].role.as_str(), t[0].content.as_str()), ("user", "hi"));
    assert_eq!((t[1].role.as_str(), t[1].content.as_str()), ("assistant", "hello"));
    assert_eq!((t[2].role.as_str(), t[2].content.as_str()), ("user", TITLE_INSTRUCTION));
}

#[test]
fn title_reply_is_trimmed_and_must_not_be_blank() {
    assert_eq!(title_from_reply("  Sparse attention \n"), Ok("Sparse attention".to_string()));
    assert_eq!(title_from_reply(" \n "), Err(ArxivError::Chat("empty title response".to_string())));
}
