use actually::chat::{chat_result, scratch_file_name, ProcessExit, ScratchFile};
use actually::editor::{edited_strategy, editor_outcome, scratch_file_text};
use actually::outcome::InstanceResult;
use actually::output::{agent_log, result_log, strategies_report, strategy_summary, OutputError, RunOutput};
use actually::prompt::{build_assigned_strategy_prompt, build_chat_prompt};
use actually::review::{ChatResult, EditorOutcome};
use actually::workspace::{Workspace, WorkspaceError};

fn result(id: usize, success: bool) -> InstanceResult {
    InstanceResult {
        instance_id: id,
        strategy: format!("plan {}", id),
        workspace_path: format!("/w/{}", id),
        success,
        error: if success { None } else { Some("Session reported failure".to_string()) },
        transcript: format!("transcript {}", id),
    }
}

#[test]
fn error_messages() {
    assert_eq!(
        OutputError::CreateDirFailed("permission denied".to_string()).to_string(),
        "Failed to create output directory: permission denied"
    );
    assert_eq!(
        WorkspaceError::CreateFailed("disk full".to_string()).to_string(),
        "Failed to create workspace directory: disk full"
    );
    assert_eq!(
        WorkspaceError::InvalidBaseDir("/nope".to_string()).to_string(),
        "Invalid base directory: /nope"
    );
}

#[test]
fn run_output_paths() {
    let out = RunOutput::locate("results", 1700000000);
    assert_eq!(out.path(), "results/claudissent-1700000000");
    assert_eq!(out.instance_dir(0), "results/claudissent-1700000000/c0");
    assert_eq!(out.instance_dir(12), "results/claudissent-1700000000/c12");
    assert_eq!(out.strategies_path(), "results/claudissent-1700000000/strategies");
    assert_eq!(out.agent_log_path(3), "results/claudissent-1700000000/c3/session.log");
    assert_eq!(RunOutput::locate("", 0).path(), "claudissent-0");
    assert_eq!(RunOutput::locate("/tmp/", 5).path(), "/tmp/claudissent-5");
}

#[test]
fn workspace_paths() {
    let ws = Workspace::locate("runs/r1", 1700000000, 2);
    assert_eq!(ws.path(), "runs/r1/claudissent-1700000000-instance-2");
    assert_eq!(Workspace::locate("", 0, 0).path(), "claudissent-0-instance-0");
}

#[test]
fn strategies_report_text() {
    let entries = vec![(0usize, "Use a map".to_string(), true), (1usize, "Use **disk**".to_string(), false)];
    assert_eq!(
        strategies_report(&entries),
        "CLAUDISSENT STRATEGIES\n======================\n\nC0 [OK]:\n  Use a map\n\nC1 [FAILED]:\n  Use **disk**\n\n"
    );
    assert_eq!(strategies_report(&[]), "CLAUDISSENT STRATEGIES\n======================\n\n");
}

#[test]
fn agent_log_text() {
    assert_eq!(
        agent_log(4, "Use a map", "full text", true, None),
        "CLAUDISSENT AGENT C4\n========================\n\nStatus: SUCCESS\n\nStrategy:\n  Use a map\n\nSession Transcript:\n-------------------\nfull text\n"
    );
    assert_eq!(
        agent_log(10, "s", "t", false, Some("it broke")),
        "CLAUDISSENT AGENT C10\n========================\n\nStatus: FAILED\nError: it broke\n\nStrategy:\n  s\n\nSession Transcript:\n-------------------\nt\n"
    );
}

#[test]
fn results_become_summary_and_logs() {
    let results = vec![result(0, true), result(1, false)];
    assert_eq!(
        strategy_summary(&results),
        vec![(0usize, "plan 0".to_string(), true), (1usize, "plan 1".to_string(), false)]
    );
    assert_eq!(result_log(&results[1]), agent_log(1, "plan 1", "transcript 1", false, Some("Session reported failure")));
    assert_eq!(result_log(&results[0]), agent_log(0, "plan 0", "transcript 0", true, None));
    assert_eq!(results[0].clone(), results[0]);
}

#[test]
fn scratch_file_for_the_editor() {
    assert_eq!(
        scratch_file_text("Use a **map**"),
        "# Edit the strategy below. Lines starting with # are ignored.\n# Save and exit to apply changes, or exit without saving to cancel.\n\nUse a **map**\n"
    );
}

#[test]
fn edited_strategy_drops_comments_and_trims() {
    assert_eq!(edited_strategy(&scratch_file_text("Use a **map**")), Some("Use a **map**".to_string()));
    assert_eq!(
        edited_strategy("# c\n\n  first\n   # indented comment\nsecond #kept\n\n"),
        Some("first\nsecond #kept".to_string())
    );
    assert_eq!(edited_strategy("# only\n#comments\n   \n"), None);
    assert_eq!(edited_strategy(""), None);
    assert_eq!(edited_strategy("a\r\nb\r\n"), Some("a\nb".to_string()));
}

#[test]
fn editor_outcomes() {
    assert_eq!(editor_outcome(true, true, "# c\nnew plan\n"), EditorOutcome::Saved("new plan".to_string()));
    assert_eq!(editor_outcome(false, true, "new plan"), EditorOutcome::Unchanged);
    assert_eq!(editor_outcome(true, false, "new plan"), EditorOutcome::Unchanged);
    assert_eq!(editor_outcome(true, true, "# nothing\n"), EditorOutcome::Unchanged);
}

#[test]
fn scratch_file_for_the_chat() {
    assert_eq!(scratch_file_name(4242, 1700000000123456789), "contra-strategy-4242-1700000000123456789.md");
    assert_eq!(scratch_file_name(0, 0), "contra-strategy-0-0.md");
}

#[test]
fn chat_results() {
    let ok = ProcessExit::Exited { success: true, code: Some(0) };
    assert_eq!(chat_result(&ok, &ScratchFile::Missing), ChatResult::NoChanges);
    assert_eq!(
        chat_result(&ok, &ScratchFile::Content("  revised **plan**\n".to_string())),
        ChatResult::RevisedStrategy("revised **plan**".to_string())
    );
    assert_eq!(chat_result(&ok, &ScratchFile::Content(" \n\t".to_string())), ChatResult::NoChanges);
    assert_eq!(
        chat_result(&ok, &ScratchFile::Unreadable("denied".to_string())),
        ChatResult::Error("Failed to read revised strategy: denied".to_string())
    );
    assert_eq!(
        chat_result(
            &ProcessExit::Exited { success: false, code: Some(2) },
            &ScratchFile::Content("revised".to_string())
        ),
        ChatResult::Error("Agent exited with status: 2".to_string())
    );
    assert_eq!(
        chat_result(&ProcessExit::Exited { success: false, code: None }, &ScratchFile::Missing),
        ChatResult::Error("Agent exited with status: -1".to_string())
    );
    assert_eq!(
        chat_result(&ProcessExit::Exited { success: false, code: Some(i32::MIN) }, &ScratchFile::Missing),
        ChatResult::Error("Agent exited with status: -2147483648".to_string())
    );
    assert_eq!(
        chat_result(&ProcessExit::NotStarted("not found".to_string()), &ScratchFile::Missing),
        ChatResult::Error("Failed to spawn agent: not found".to_string())
    );
}

#[test]
fn chat_prompt_text() {
    let p = build_chat_prompt("Build a cache", 1, "Use **disk**", &["Use a map".to_string()], "/tmp/x.md");
    assert!(p.starts_with("You are helping discuss a coding strategy for a task.\n\n## Task\nBuild a cache\n\n## Current Strategy (C1)\nUse **disk**\n\n## FORBIDDEN APPROACHES (do not suggest these)\n1. Use a map\n\n---\n\nSTART your first message with exactly:\n\nDiscussing strategy: Use **disk**\n\nWhat would you like to know?\n"));
    assert!(p.contains("to this file:\n/tmp/x.md\n\nWhen writing to the file"));
    assert!(p.ends_with("tell the user: \"Strategy revised. Type `/exit` to return to contra.\""));
    let alone = build_chat_prompt("t", 0, "s", &[], "f");
    assert!(alone.contains("## Current Strategy (C0)\ns\n\n\n---\n"));
}

#[test]
fn assigned_strategy_prompt_text() {
    assert_eq!(
        build_assigned_strategy_prompt("Build a cache", "my plan", &[]),
        "For the following task, you will use a specific implementation strategy that has been provided.\n\nTask: Build a cache\n\nYOUR ASSIGNED STRATEGY (you must follow this exactly):\nmy plan\n\n\n\nConfirm you understand by replying with:\nSTRATEGY: <restate the strategy in your own words>"
    );
    let p = build_assigned_strategy_prompt("t", "mine", &["a".to_string(), "b".to_string()]);
    assert!(p.contains("mine\n\nNote: Other agents are using these approaches (for your awareness, not as constraints):\n  0. a\n  1. b\n\nConfirm you understand"));
}
