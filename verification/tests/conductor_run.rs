use actually::conductor::{summarize, truncate_for_log, Conductor, InstanceResult, Phase};
use actually::outcome::TaskOutcome;
use actually::prompt::{build_implementation_prompt, build_strategy_prompt};
use actually::record::{exclusion_set, StrategyRecord};

fn completed(path: &str, transcript: &str, success: bool) -> TaskOutcome {
    TaskOutcome::Completed {
        workspace_path: path.to_string(),
        transcript: transcript.to_string(),
        success,
    }
}

fn collect(n: usize, interactive: bool, replies: &[Result<&str, &str>]) -> Conductor {
    let mut c = Conductor::new("Build a cache", n, false, interactive);
    for r in replies {
        c.on_elicited(match r {
            Ok(t) => Ok(t.to_string()),
            Err(e) => Err(e.to_string()),
        });
    }
    c
}

#[test]
fn successful_run_gives_one_result_per_instance_in_order() {
    for n in 1..6usize {
        let mut c = Conductor::new("task", n, false, false);
        for i in 0..n {
            let req = c.next_elicitation().unwrap();
            assert_eq!(req.index, i);
            c.on_elicited(Ok(format!("STRATEGY: plan {}", i)));
        }
        assert_eq!(c.phase(), Phase::Implementing);
        for i in (0..n).rev() {
            assert!(c.results().is_none());
            let job = c.job(i).unwrap();
            assert_eq!(job.instance_id, i);
            c.on_finished(i, completed(&format!("/w/{}", i), "done", true));
        }
        assert_eq!(c.phase(), Phase::Done);
        let results = c.results().unwrap();
        assert_eq!(results.len(), n);
        for (i, r) in results.iter().enumerate() {
            assert_eq!(r.instance_id, i);
            assert!(r.success);
            assert_eq!(r.error, None);
            assert_eq!(r.strategy, format!("plan {}", i));
            assert_eq!(r.workspace_path, format!("/w/{}", i));
        }
        assert_eq!(summarize(&results), (n, 0));
    }
}

#[test]
fn two_strategies_for_a_cache() {
    let mut c = Conductor::new("Build a cache", 2, false, false);
    let first = c.next_elicitation().unwrap();
    assert_eq!(first.index, 0);
    assert!(first.exclusions.is_empty());
    assert_eq!(first.prompt, build_strategy_prompt("Build a cache", &[]));
    c.on_elicited(Ok("STRATEGY: Use an LRU map.".to_string()));
    let second = c.next_elicitation().unwrap();
    assert_eq!(second.index, 1);
    assert_eq!(second.exclusions, vec!["Use an LRU map."]);
    assert_eq!(
        second.prompt,
        build_strategy_prompt("Build a cache", &["Use an LRU map.".to_string()])
    );
    c.on_elicited(Ok("STRATEGY: Use a write-through disk cache.".to_string()));
    assert!(c.next_elicitation().is_none());
    let records = c.records();
    assert_eq!(records.len(), 2);
    assert_eq!(records[0].strategy.markdown, "Use an LRU map.");
    assert_eq!(records[1].strategy.markdown, "Use a write-through disk cache.");
    assert_ne!(records[0], records[1]);
    assert_eq!(records[0].transcript, "STRATEGY: Use an LRU map.");
    assert!(!records[0].failed && !records[1].failed);
}

#[test]
fn one_session_fails_and_the_other_succeeds() {
    for first_done in [0usize, 1] {
        let mut c = collect(2, false, &[Ok("STRATEGY: one"), Ok("STRATEGY: two")]);
        let order = [first_done, 1 - first_done];
        for i in order {
            let outcome = if i == 0 {
                completed("/w/0", "=== SESSION ===\nhalf\n=== ERROR ===\nStream error: eof\n", false)
            } else {
                completed("/w/1", "=== SESSION ===\nall\n", true)
            };
            c.on_finished(i, outcome);
        }
        let results = c.results().unwrap();
        assert_eq!(results.len(), 2);
        assert_eq!(results[0].instance_id, 0);
        assert!(!results[0].success);
        assert_eq!(results[0].error, Some("Session reported failure".to_string()));
        assert_eq!(results[1].instance_id, 1);
        assert!(results[1].success);
        assert_eq!(results[1].error, None);
        assert_eq!(summarize(&results), (1, 1));
        assert_eq!(
            results[1].transcript,
            "=== STRATEGY SELECTION ===\nSTRATEGY: two\n\n=== SESSION ===\nall\n"
        );
    }
}

#[test]
fn failed_elicitation_is_kept_out_of_exclusions_and_never_implemented() {
    let mut c = collect(3, false, &[Ok("STRATEGY: a"), Err("rate limited")]);
    let req = c.next_elicitation().unwrap();
    assert_eq!(req.index, 2);
    assert_eq!(req.exclusions, vec!["a"]);
    c.on_elicited(Ok("STRATEGY: c".to_string()));
    assert_eq!(c.phase(), Phase::Implementing);
    let failed = &c.records()[1];
    assert!(failed.failed);
    assert_eq!(failed.error, Some("Failed to extract strategy: rate limited".to_string()));
    assert_eq!(failed.strategy.markdown, "[FAILED] Failed to extract strategy: rate limited");
    assert_eq!(failed.transcript, "Error: rate limited");
    assert!(c.job(1).is_none());
    let job0 = c.job(0).unwrap();
    assert_eq!(job0.exclusions, vec!["c"]);
    assert_eq!(job0.strategy, "a");
    assert_eq!(job0.prompt, build_implementation_prompt("Build a cache", "a", &["c".to_string()]));
    let job2 = c.job(2).unwrap();
    assert_eq!(job2.exclusions, vec!["a"]);
    c.on_finished(1, completed("/w/1", "should not count", true));
    c.on_finished(2, completed("/w/2", "t2", true));
    assert_eq!(c.phase(), Phase::Implementing);
    c.on_finished(0, completed("/w/0", "t0", true));
    let results = c.results().unwrap();
    assert_eq!(
        results[1],
        InstanceResult {
            instance_id: 1,
            strategy: "[FAILED] Failed to extract strategy: rate limited".to_string(),
            workspace_path: String::new(),
            success: false,
            error: Some("Failed to extract strategy: rate limited".to_string()),
            transcript: "Error: rate limited".to_string(),
        }
    );
    assert_eq!(summarize(&results), (2, 1));
}

#[test]
fn all_strategies_failed_ends_the_run_at_once() {
    let c = collect(2, false, &[Err("x"), Err("y")]);
    assert_eq!(c.phase(), Phase::Done);
    let results = c.results().unwrap();
    assert_eq!(results.len(), 2);
    assert!(results.iter().all(|r| !r.success));
    assert_eq!(results[1].instance_id, 1);
}

#[test]
fn outcomes_of_every_kind() {
    let mut c = collect(
        4,
        false,
        &[Ok("STRATEGY: a"), Ok("STRATEGY: b"), Ok("STRATEGY: c"), Ok("STRATEGY: d")],
    );
    c.on_finished(0, TaskOutcome::WorkspaceFailed("Failed to create workspace directory: denied".to_string()));
    c.on_finished(
        1,
        TaskOutcome::SessionFailed { workspace_path: "/w/1".to_string(), error: "Agent SDK error: gone".to_string() },
    );
    c.on_finished(2, TaskOutcome::NotJoined("task panicked".to_string()));
    c.on_finished(3, completed("/w/3", "T", true));
    let r = c.results().unwrap();
    assert_eq!(
        r[0],
        InstanceResult {
            instance_id: 0,
            strategy: "a".to_string(),
            workspace_path: String::new(),
            success: false,
            error: Some("Failed to create workspace: Failed to create workspace directory: denied".to_string()),
            transcript: "=== STRATEGY SELECTION ===\nSTRATEGY: a\n\n=== ERROR ===\nFailed to create workspace: Failed to create workspace directory: denied".to_string(),
        }
    );
    assert_eq!(
        r[1],
        InstanceResult {
            instance_id: 1,
            strategy: "b".to_string(),
            workspace_path: "/w/1".to_string(),
            success: false,
            error: Some("Agent SDK error: gone".to_string()),
            transcript: "=== STRATEGY SELECTION ===\nSTRATEGY: b\n\n=== ERROR ===\nAgent SDK error: gone".to_string(),
        }
    );
    assert_eq!(
        r[2],
        InstanceResult {
            instance_id: 2,
            strategy: "c".to_string(),
            workspace_path: String::new(),
            success: false,
            error: Some("Task join error: task panicked".to_string()),
            transcript: "=== STRATEGY SELECTION ===\nSTRATEGY: c\n\n=== ERROR ===\nTask join error: task panicked".to_string(),
        }
    );
    assert_eq!(
        r[3],
        InstanceResult {
            instance_id: 3,
            strategy: "d".to_string(),
            workspace_path: "/w/3".to_string(),
            success: true,
            error: None,
            transcript: "=== STRATEGY SELECTION ===\nSTRATEGY: d\n\nT".to_string(),
        }
    );
}

#[test]
fn a_second_report_for_a_slot_changes_nothing() {
    let mut c = collect(2, false, &[Ok("STRATEGY: a"), Ok("STRATEGY: b")]);
    c.on_finished(0, completed("/first", "t", true));
    c.on_finished(0, completed("/second", "t", false));
    c.on_finished(7, completed("/none", "t", true));
    assert_eq!(c.phase(), Phase::Implementing);
    assert!(c.job(0).is_none());
    c.on_finished(1, completed("/w/1", "t", true));
    let r = c.results().unwrap();
    assert_eq!(r[0].workspace_path, "/first");
    assert!(r[0].success);
}

#[test]
fn replies_after_the_collection_are_ignored() {
    let mut c = collect(1, false, &[Ok("STRATEGY: a")]);
    c.on_elicited(Ok("STRATEGY: late".to_string()));
    assert_eq!(c.records().len(), 1);
    c.on_reviewed(vec![]);
    assert_eq!(c.phase(), Phase::Implementing);
    assert!(!c.was_aborted());
}

#[test]
fn dry_run_sends_nothing_and_succeeds() {
    let c = Conductor::new("Build a cache", 2, true, true);
    assert_eq!(c.phase(), Phase::Done);
    assert!(c.next_elicitation().is_none());
    assert!(c.job(0).is_none());
    let records = c.records();
    assert_eq!(records.len(), 2);
    assert_eq!(records[0].strategy.markdown, "[DRY RUN] Strategy 0 would be generated here");
    assert_eq!(records[0].transcript, build_strategy_prompt("Build a cache", &[]));
    assert_eq!(
        records[1].transcript,
        build_strategy_prompt(
            "Build a cache",
            &["[DRY RUN] Strategy 0 would be generated here".to_string()]
        )
    );
    let results = c.results().unwrap();
    assert_eq!(results.len(), 2);
    assert_eq!(
        results[1],
        InstanceResult {
            instance_id: 1,
            strategy: "[DRY RUN] Strategy 1 would be generated here".to_string(),
            workspace_path: String::new(),
            success: true,
            error: None,
            transcript: records[1].transcript.clone(),
        }
    );
    assert_eq!(
        c.implementation_prompt_for(0).unwrap(),
        build_implementation_prompt(
            "Build a cache",
            "[DRY RUN] Strategy 0 would be generated here",
            &["[DRY RUN] Strategy 1 would be generated here".to_string()]
        )
    );
    assert!(c.implementation_prompt_for(2).is_none());
}

#[test]
fn interactive_run_is_reviewed_and_quit_ends_it() {
    let mut c = collect(2, true, &[Ok("STRATEGY: a"), Ok("STRATEGY: b")]);
    assert_eq!(c.phase(), Phase::ReviewingStrategies);
    assert!(c.job(0).is_none());
    c.on_reviewed(vec![]);
    assert_eq!(c.phase(), Phase::Done);
    assert!(c.was_aborted());
    assert_eq!(c.results().unwrap(), Vec::<InstanceResult>::new());
    assert!(c.records().is_empty());
}

#[test]
fn reviewed_records_are_what_is_implemented() {
    let mut c = collect(2, true, &[Ok("STRATEGY: a"), Ok("STRATEGY: b")]);
    let kept = vec![
        StrategyRecord::revised("edited **b**"),
        StrategyRecord::elicited("STRATEGY: added".to_string()),
        StrategyRecord::failure("Failed to generate strategy: ", "boom"),
    ];
    c.on_reviewed(kept);
    assert_eq!(c.phase(), Phase::Implementing);
    assert_eq!(c.job(0).unwrap().exclusions, vec!["added"]);
    assert_eq!(c.job(1).unwrap().exclusions, vec!["edited **b**"]);
    assert!(c.job(2).is_none());
    c.on_finished(1, completed("/w/1", "t", true));
    c.on_finished(0, completed("/w/0", "t", true));
    let r = c.results().unwrap();
    assert_eq!(r.len(), 3);
    assert_eq!(r[0].strategy, "edited **b**");
    assert_eq!(r[0].transcript, "=== STRATEGY SELECTION ===\nRevised via chat: edited **b**\n\nt");
    assert!(!r[2].success);
}

#[test]
fn a_run_without_instances() {
    let c = Conductor::new("t", 0, false, false);
    assert_eq!(c.phase(), Phase::Done);
    assert_eq!(c.results().unwrap(), Vec::<InstanceResult>::new());
    assert!(!c.was_aborted());
    let reviewed = Conductor::new("t", 0, false, true);
    assert_eq!(reviewed.phase(), Phase::ReviewingStrategies);
}

#[test]
fn exclusion_sets_skip_failed_records_and_the_one_asked_for() {
    let records = vec![
        StrategyRecord::elicited("STRATEGY: a".to_string()),
        StrategyRecord::failure("oops: ", "x"),
        StrategyRecord::elicited("STRATEGY: c".to_string()),
    ];
    assert_eq!(exclusion_set(&records, None), vec!["a", "c"]);
    assert_eq!(exclusion_set(&records, Some(0)), vec!["c"]);
    assert_eq!(exclusion_set(&records, Some(1)), vec!["a", "c"]);
    assert_eq!(exclusion_set(&records, Some(2)), vec!["a"]);
    assert_eq!(exclusion_set(&records, Some(9)), vec!["a", "c"]);
    assert!(exclusion_set(&Vec::new(), None).is_empty());
}

#[test]
fn records_of_every_kind() {
    let p = StrategyRecord::placeholder(12, "the prompt".to_string());
    assert_eq!(p.strategy.markdown, "[DRY RUN] Strategy 12 would be generated here");
    assert_eq!(p.transcript, "the prompt");
    assert!(!p.failed && !p.manually_edited && p.error.is_none());
    let c = StrategyRecord::confirmed("my **own** plan", "STRATEGY: restated".to_string());
    assert_eq!(c.strategy.markdown, "my **own** plan");
    assert_eq!(c.strategy.highlights, vec!["own"]);
    assert_eq!(c.transcript, "STRATEGY: restated");
    assert!(c.manually_edited && !c.failed);
    let r = StrategyRecord::revised("new `plan`");
    assert_eq!(r.strategy.raw, "new plan");
    assert_eq!(r.transcript, "Revised via chat: new `plan`");
    assert!(r.manually_edited);
    assert_eq!(r.clone(), r);
}

#[test]
fn log_lines_are_cut() {
    assert_eq!(truncate_for_log("a short strategy", 60), "a short strategy");
    assert_eq!(truncate_for_log("0123456789", 8), "01234...");
}

#[test]
fn summary_counts() {
    assert_eq!(summarize(&[]), (0, 0));
}

#[test]
fn a_failed_workspace_keeps_the_strategy_transcript() {
    let record = StrategyRecord::elicited("STRATEGY: Use a map.".to_string());
    let r = InstanceResult::of_outcome(3, &record, &TaskOutcome::WorkspaceFailed("disk full".to_string()));
    assert_eq!(r.instance_id, 3);
    assert_eq!(r.strategy, "Use a map.");
    assert_eq!(r.workspace_path, "");
    assert!(!r.success);
    assert_eq!(r.error, Some("Failed to create workspace: disk full".to_string()));
    assert!(r.transcript.contains("STRATEGY: Use a map."));
    assert_eq!(
        r.transcript,
        "=== STRATEGY SELECTION ===\nSTRATEGY: Use a map.\n\n=== ERROR ===\nFailed to create workspace: disk full"
    );
    let lost = InstanceResult::of_outcome(0, &record, &TaskOutcome::NotJoined("cancelled".to_string()));
    assert_eq!(
        lost.transcript,
        "=== STRATEGY SELECTION ===\nSTRATEGY: Use a map.\n\n=== ERROR ===\nTask join error: cancelled"
    );
}
