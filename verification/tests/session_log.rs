use actually::session::{
    collect_response_text, extract_text_from_message, ClaudeSession, ContentBlock, Message,
    SessionError, SessionLog, SessionOptions, SessionResult,
};

fn said(text: &str) -> Message {
    Message::Assistant(vec![ContentBlock::Text(text.to_string())])
}

#[test]
fn session_error_message() {
    assert_eq!(SessionError::SdkError("timeout".to_string()).to_string(), "Agent SDK error: timeout");
}

#[test]
fn sessions_keep_what_they_were_given() {
    let a = ClaudeSession::with_model(Some("opus"));
    assert_eq!(a.cwd(), None);
    assert_eq!(a.model(), Some("opus"));
    let b = ClaudeSession::with_model(None);
    assert_eq!(b.model(), None);
    let c = ClaudeSession::with_cwd_and_model("/work/c0", Some("haiku"));
    assert_eq!(c.cwd(), Some("/work/c0"));
    assert_eq!(c.model(), Some("haiku"));
    let d = ClaudeSession::default();
    assert_eq!(d.cwd(), None);
    assert_eq!(d.model(), None);
    assert_eq!(
        c.build_options(),
        SessionOptions {
            bypass_permissions: true,
            cwd: Some("/work/c0".to_string()),
            model: Some("haiku".to_string()),
        }
    );
    assert_eq!(
        d.build_options(),
        SessionOptions { bypass_permissions: true, cwd: None, model: None }
    );
}

#[test]
fn text_of_messages() {
    assert_eq!(extract_text_from_message(&said("hello")), Some("hello".to_string()));
    assert_eq!(
        extract_text_from_message(&Message::Assistant(vec![
            ContentBlock::Text("I will ".to_string()),
            ContentBlock::Other,
            ContentBlock::ToolUse("Bash".to_string()),
            ContentBlock::Text("done".to_string()),
        ])),
        Some("I will [Tool: Bash]\ndone".to_string())
    );
    assert_eq!(extract_text_from_message(&Message::Assistant(vec![])), None);
    assert_eq!(
        extract_text_from_message(&Message::Assistant(vec![
            ContentBlock::Other,
            ContentBlock::Text(String::new())
        ])),
        None
    );
    assert_eq!(
        extract_text_from_message(&Message::System("init".to_string())),
        Some("[System: init]".to_string())
    );
    assert_eq!(extract_text_from_message(&Message::Other), None);
}

#[test]
fn cost_has_four_decimals() {
    for (e4, text) in [
        (None, "0.0000"),
        (Some(0u64), "0.0000"),
        (Some(1), "0.0001"),
        (Some(1234), "0.1234"),
        (Some(10_000), "1.0000"),
        (Some(123_456), "12.3456"),
        (Some(50_090), "5.0090"),
    ] {
        assert_eq!(
            extract_text_from_message(&Message::Result(e4)),
            Some(format!("[Session complete - cost: ${}]", text))
        );
    }
}

#[test]
fn response_text_joins_the_messages() {
    let messages = vec![
        Message::System("init".to_string()),
        Message::Other,
        said("STRATEGY: Use a map."),
        Message::Assistant(vec![]),
        Message::Result(Some(420)),
    ];
    assert_eq!(
        collect_response_text(&messages),
        "[System: init]\nSTRATEGY: Use a map.\n[Session complete - cost: $0.0420]\n"
    );
    assert_eq!(collect_response_text(&[]), "");
}

#[test]
fn log_of_a_session_that_ends_well() {
    let mut log = SessionLog::begin("Do the task");
    assert!(log.is_open());
    assert!(log.on_message(&Message::System("init".to_string())));
    assert!(log.on_message(&Message::Other));
    assert!(log.on_message(&said("working")));
    assert!(!log.on_message(&Message::Result(Some(15_000))));
    assert!(!log.is_open());
    assert!(!log.on_message(&said("too late")));
    log.on_stream_error("too late as well");
    assert_eq!(
        log.finish(),
        SessionResult {
            transcript: "=== PROMPT ===\nDo the task\n\n=== SESSION ===\n[System: init]\nworking\n[Session complete - cost: $1.5000]\n".to_string(),
            success: true,
        }
    );
}

#[test]
fn log_of_a_session_that_breaks_off() {
    let mut log = SessionLog::begin("p");
    log.on_message(&said("half"));
    log.on_stream_error("connection reset");
    assert!(!log.is_open());
    let result = log.finish();
    assert!(!result.success);
    assert_eq!(
        result.transcript,
        "=== PROMPT ===\np\n\n=== SESSION ===\nhalf\n\n=== ERROR ===\nStream error: connection reset\n"
    );
    assert_eq!(result.clone(), result);
}

#[test]
fn log_of_a_stream_that_just_ends() {
    let mut log = SessionLog::begin("p");
    log.on_message(&said("x"));
    log.on_end();
    assert!(!log.is_open());
    let result = log.finish();
    assert!(result.success);
    assert_eq!(result.transcript, "=== PROMPT ===\np\n\n=== SESSION ===\nx\n");
}
