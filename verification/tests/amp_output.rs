use ishi::amp::output::{OutputKind, SessionOutputBuffer};

#[test]
fn buffer_unknown_thread_returns_empty() {
    let buf = SessionOutputBuffer::new();
    assert!(buf.lines_for("T-nope").is_empty());
    assert_eq!(buf.line_count("T-nope"), 0);
}

#[test]
fn push_user_message_adds_prefixed_lines() {
    let mut buf = SessionOutputBuffer::new();
    buf.push_user_message("T-1", "do the thing");
    assert_eq!(buf.line_count("T-1"), 1);
    assert_eq!(buf.lines_for("T-1")[0].kind, OutputKind::User);
    assert_eq!(buf.lines_for("T-1")[0].text, "▶ do the thing");
}

#[test]
fn push_user_message_splits_multiline() {
    let mut buf = SessionOutputBuffer::new();
    buf.push_user_message("T-1", "line one\nline two");
    assert_eq!(buf.line_count("T-1"), 2);
    assert_eq!(buf.lines_for("T-1")[0].text, "▶ line one");
    assert_eq!(buf.lines_for("T-1")[1].text, "▶ line two");
}

#[test]
fn push_user_message_empty_is_noop() {
    let mut buf = SessionOutputBuffer::new();
    buf.push_user_message("T-1", "");
    assert_eq!(buf.line_count("T-1"), 0);
}

#[test]
fn push_user_message_appends_to_existing_history() {
    let mut buf = SessionOutputBuffer::new();
    buf.push_user_message("T-1", "first");
    buf.push_user_message("T-1", "second\r\nthird\n");
    assert_eq!(buf.line_count("T-1"), 3);
    assert_eq!(buf.lines_for("T-1")[0].text, "▶ first");
    assert_eq!(buf.lines_for("T-1")[1].text, "▶ second");
    assert_eq!(buf.lines_for("T-1")[2].text, "▶ third");
}

#[test]
fn threads_keep_separate_histories() {
    let mut buf = SessionOutputBuffer::new();
    buf.push_user_message("T-1", "one");
    buf.push_user_message("T-2", "two");
    assert_eq!(buf.line_count("T-1"), 1);
    assert_eq!(buf.line_count("T-2"), 1);
    assert_eq!(buf.lines_for("T-2")[0].text, "▶ two");
}
