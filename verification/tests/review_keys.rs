use actually::prompt::{build_assigned_strategy_prompt, build_strategy_prompt};
use actually::record::StrategyRecord;
use actually::review::{
    command_for, ChatResult, Command, EditorOutcome, KeyCode, KeyPress, Review, ReviewAction,
};

fn key(code: KeyCode) -> KeyPress {
    KeyPress { code, ctrl: false }
}

fn ch(c: char) -> KeyPress {
    key(KeyCode::Char(c))
}

fn record(text: &str) -> StrategyRecord {
    StrategyRecord::elicited(format!("STRATEGY: {}", text))
}

fn review(texts: &[&str]) -> Review {
    Review::new("Build a cache", texts.iter().map(|t| record(t)).collect(), true)
}

fn markdowns(r: &Review) -> Vec<String> {
    r.records().iter().map(|x| x.strategy.markdown.clone()).collect()
}

#[test]
fn keys_and_their_commands() {
    assert_eq!(command_for(KeyPress { code: KeyCode::Char('c'), ctrl: true }, false), Command::Quit);
    assert_eq!(command_for(KeyPress { code: KeyCode::Char('c'), ctrl: true }, true), Command::Quit);
    assert_eq!(command_for(KeyPress { code: KeyCode::Char('d'), ctrl: true }, false), Command::Delete);
    assert_eq!(command_for(ch('q'), false), Command::Quit);
    assert_eq!(command_for(key(KeyCode::Esc), false), Command::Quit);
    assert_eq!(command_for(ch('q'), true), Command::HideHelp);
    assert_eq!(command_for(ch('?'), true), Command::HideHelp);
    assert_eq!(command_for(ch('?'), false), Command::ShowHelp);
    assert_eq!(command_for(key(KeyCode::Up), false), Command::Up);
    assert_eq!(command_for(ch('k'), false), Command::Up);
    assert_eq!(command_for(key(KeyCode::Down), false), Command::Down);
    assert_eq!(command_for(ch('j'), false), Command::Down);
    assert_eq!(command_for(key(KeyCode::Enter), false), Command::Enter);
    assert_eq!(command_for(key(KeyCode::Delete), false), Command::Delete);
    assert_eq!(command_for(ch('d'), false), Command::Delete);
    assert_eq!(command_for(ch('c'), false), Command::Copy);
    assert_eq!(command_for(ch('o'), false), Command::Add);
    assert_eq!(command_for(ch('t'), false), Command::Chat);
    assert_eq!(command_for(ch('x'), false), Command::Ignore);
    assert_eq!(command_for(key(KeyCode::Other), false), Command::Ignore);
}

#[test]
fn review_opens_on_the_accept_row() {
    let r = review(&["a", "b"]);
    assert_eq!(r.selected_index(), 2);
    assert_eq!(r.status_message(), None);
    assert!(!r.help_popup_visible());
}

#[test]
fn selection_wraps_through_the_accept_row() {
    let mut r = review(&["a", "b"]);
    assert_eq!(r.handle_key(key(KeyCode::Down)), ReviewAction::Continue);
    assert_eq!(r.selected_index(), 0);
    r.handle_key(ch('j'));
    assert_eq!(r.selected_index(), 1);
    r.handle_key(ch('j'));
    assert_eq!(r.selected_index(), 2);
    r.handle_key(key(KeyCode::Up));
    assert_eq!(r.selected_index(), 1);
    r.handle_key(ch('k'));
    r.handle_key(ch('k'));
    assert_eq!(r.selected_index(), 2);
}

#[test]
fn quit_and_accept() {
    let mut r = review(&["a"]);
    assert_eq!(r.handle_key(ch('q')), ReviewAction::Quit);
    assert_eq!(r.handle_key(key(KeyCode::Esc)), ReviewAction::Quit);
    assert_eq!(r.handle_key(KeyPress { code: KeyCode::Char('c'), ctrl: true }), ReviewAction::Quit);
    assert_eq!(r.handle_key(key(KeyCode::Enter)), ReviewAction::Accept);
    assert_eq!(markdowns(&r), vec!["a"]);
    assert_eq!(r.into_records().len(), 1);
}

#[test]
fn help_consumes_the_next_key() {
    let mut r = review(&["a", "b"]);
    assert_eq!(r.handle_key(ch('?')), ReviewAction::Continue);
    assert!(r.help_popup_visible());
    assert_eq!(r.handle_key(ch('q')), ReviewAction::Continue);
    assert!(!r.help_popup_visible());
    assert_eq!(r.selected_index(), 2);
    r.handle_key(ch('?'));
    assert_eq!(r.handle_key(KeyPress { code: KeyCode::Char('c'), ctrl: true }), ReviewAction::Quit);
}

#[test]
fn delete_removes_the_selected_record() {
    let mut r = review(&["a", "b", "c"]);
    r.handle_key(key(KeyCode::Down));
    r.handle_key(key(KeyCode::Down));
    assert_eq!(r.handle_key(ch('d')), ReviewAction::Continue);
    assert_eq!(markdowns(&r), vec!["a", "c"]);
    assert_eq!(r.status_message(), Some("Removed C1"));
    assert_eq!(r.selected_index(), 1);
    assert_eq!(r.handle_key(key(KeyCode::Delete)), ReviewAction::Continue);
    assert_eq!(markdowns(&r), vec!["a"]);
    assert_eq!(r.status_message(), Some("Removed C1"));
    assert_eq!(r.selected_index(), 1);
}

#[test]
fn delete_refuses_the_last_record() {
    let mut r = review(&["only"]);
    r.handle_key(key(KeyCode::Down));
    assert_eq!(r.selected_index(), 0);
    assert_eq!(r.handle_key(ch('d')), ReviewAction::Continue);
    assert_eq!(markdowns(&r), vec!["only"]);
    assert_eq!(r.status_message(), Some("Cannot remove last strategy"));
    assert_eq!(r.selected_index(), 0);
    assert_eq!(r.handle_key(key(KeyCode::Delete)), ReviewAction::Continue);
    assert_eq!(r.records().len(), 1);
    assert_eq!(r.status_message(), Some("Cannot remove last strategy"));
}

#[test]
fn delete_needs_a_selected_record() {
    let mut r = review(&["a", "b"]);
    r.handle_key(ch('d'));
    assert_eq!(r.status_message(), Some("Select a strategy to delete"));
    assert_eq!(r.records().len(), 2);
}

#[test]
fn every_key_clears_the_status() {
    let mut r = review(&["a", "b"]);
    r.handle_key(ch('d'));
    assert!(r.status_message().is_some());
    r.handle_key(ch('x'));
    assert_eq!(r.status_message(), None);
}

#[test]
fn copy_asks_for_the_clipboard() {
    let mut r = review(&["a **b**", "c"]);
    r.handle_key(ch('c'));
    assert_eq!(r.status_message(), Some("Select a strategy to copy"));
    r.handle_key(key(KeyCode::Down));
    assert_eq!(
        r.handle_key(ch('c')),
        ReviewAction::Copy { index: 0, text: "a **b**".to_string() }
    );
    r.on_copied(0, Ok(()));
    assert_eq!(r.status_message(), Some("C0 copied to clipboard"));
    r.on_copied(0, Err("no display".to_string()));
    assert_eq!(r.status_message(), Some("Clipboard error: no display"));
    let mut none = Review::new("t", vec![record("a")], false);
    none.handle_key(key(KeyCode::Down));
    assert_eq!(none.handle_key(ch('c')), ReviewAction::Continue);
    assert_eq!(none.status_message(), Some("Clipboard unavailable"));
}

#[test]
fn enter_on_a_record_opens_the_editor() {
    let mut r = review(&["a", "b"]);
    r.handle_key(key(KeyCode::Down));
    r.handle_key(key(KeyCode::Down));
    assert_eq!(
        r.handle_key(key(KeyCode::Enter)),
        ReviewAction::Edit { index: 1, markdown: "b".to_string() }
    );
    assert_eq!(r.on_edited(1, EditorOutcome::Unchanged), None);
    assert_eq!(r.status_message(), Some("Strategy unchanged"));
    assert_eq!(r.on_edited(1, EditorOutcome::Failed("no editor".to_string())), None);
    assert_eq!(r.status_message(), Some("Editor error: no editor"));
    assert_eq!(r.on_edited(1, EditorOutcome::Saved("b".to_string())), None);
    assert_eq!(r.status_message(), Some("Strategy unchanged"));
    assert_eq!(markdowns(&r), vec!["a", "b"]);
    let prompt = r.on_edited(1, EditorOutcome::Saved("b, but **better**".to_string()));
    assert_eq!(
        prompt,
        Some(build_assigned_strategy_prompt("Build a cache", "b, but **better**", &["a".to_string()]))
    );
    r.on_confirmed(1, "b, but **better**", Ok("STRATEGY: understood".to_string()));
    assert_eq!(r.status_message(), Some("C1 strategy updated"));
    let rec = &r.records()[1];
    assert_eq!(rec.strategy.markdown, "b, but **better**");
    assert_eq!(rec.strategy.highlights, vec!["better"]);
    assert_eq!(rec.transcript, "STRATEGY: understood");
    assert!(rec.manually_edited && !rec.failed);
    assert_eq!(r.records()[0].strategy.markdown, "a");
}

#[test]
fn a_failed_confirmation_replaces_the_record_with_a_failure() {
    let mut r = review(&["a", "b"]);
    r.on_confirmed(0, "new", Err("offline".to_string()));
    let rec = &r.records()[0];
    assert!(rec.failed && !rec.manually_edited);
    assert_eq!(rec.error, Some("Failed to create agent with edited strategy: offline".to_string()));
    assert_eq!(rec.strategy.markdown, "[FAILED] Failed to create agent with edited strategy: offline");
    assert_eq!(rec.transcript, "Error: offline");
    assert_eq!(r.status_message(), Some("C0 strategy updated"));
    r.on_confirmed(5, "new", Ok("x".to_string()));
    assert_eq!(r.records().len(), 2);
}

#[test]
fn add_asks_for_one_more_strategy() {
    let mut r = Review::new(
        "Build a cache",
        vec![record("a"), StrategyRecord::failure("Failed to extract strategy: ", "x"), record("c")],
        true,
    );
    assert_eq!(
        r.handle_key(ch('o')),
        ReviewAction::Add {
            index: 3,
            prompt: build_strategy_prompt("Build a cache", &["a".to_string(), "c".to_string()]),
        }
    );
    r.on_added(Ok("STRATEGY: d".to_string()));
    assert_eq!(r.records().len(), 4);
    assert_eq!(r.records()[3].strategy.markdown, "d");
    assert_eq!(r.status_message(), Some("Added C3"));
    assert_eq!(r.selected_index(), 3);
    r.on_added(Err("quota".to_string()));
    assert_eq!(r.records().len(), 5);
    assert!(r.records()[4].failed);
    assert_eq!(r.records()[4].error, Some("Failed to generate strategy: quota".to_string()));
    assert_eq!(r.status_message(), Some("C4 failed: Failed to generate strategy: quota"));
}

#[test]
fn chat_revises_or_leaves_the_record() {
    let mut r = review(&["a", "b", "c"]);
    assert_eq!(r.handle_key(ch('t')), ReviewAction::Continue);
    assert_eq!(r.status_message(), Some("Select a strategy to discuss"));
    r.handle_key(key(KeyCode::Down));
    r.handle_key(key(KeyCode::Down));
    assert_eq!(
        r.handle_key(ch('t')),
        ReviewAction::Chat { index: 1, excluded: vec!["a".to_string(), "c".to_string()] }
    );
    r.on_chat(1, ChatResult::NoChanges);
    assert_eq!(r.status_message(), Some("Chat ended without changes"));
    assert_eq!(markdowns(&r), vec!["a", "b", "c"]);
    r.on_chat(1, ChatResult::Error("exit 2".to_string()));
    assert_eq!(r.status_message(), Some("Chat error: exit 2"));
    assert_eq!(markdowns(&r), vec!["a", "b", "c"]);
    r.on_chat(1, ChatResult::RevisedStrategy("b **revised**".to_string()));
    assert_eq!(r.status_message(), Some("C1 strategy revised"));
    assert_eq!(markdowns(&r), vec!["a", "b **revised**", "c"]);
    assert!(r.records()[1].manually_edited);
    assert_eq!(r.records()[1].transcript, "Revised via chat: b **revised**");
}

#[test]
fn scripted_session() {
    let mut r = review(&["a", "b"]);
    let script = [
        ch('j'),
        ch('d'),
        ch('?'),
        ch('d'),
        ch('d'),
        ch('k'),
        key(KeyCode::Enter),
    ];
    let mut last = ReviewAction::Continue;
    for k in script {
        last = r.handle_key(k);
    }
    assert_eq!(last, ReviewAction::Accept);
    assert_eq!(markdowns(&r), vec!["b"]);
}
