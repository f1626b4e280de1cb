//! What one instance's implementation gave, and how that becomes its result.

use crate::record::{RecordView, StrategyRecord};
use crate::text::{clone_opt, opt_text, push_str, string_of};
use vstd::prelude::*;

verus! {

/// The result of one instance.
#[derive(Debug, PartialEq)]
pub struct InstanceResult {
    /// The index of the instance.
    pub instance_id: usize,
    /// The markdown of its strategy.
    pub strategy: String,
    /// The directory it worked in; empty if none was made.
    pub workspace_path: String,
    /// Whether its session reported success.
    pub success: bool,
    /// Why it failed, if it did.
    pub error: Option<String>,
    /// The transcript of the strategy, then that of the implementation.
    pub transcript: String,
}

/// What an [`InstanceResult`] holds, as plain values.
pub struct ResultView {
    pub instance_id: nat,
    pub strategy: Seq<char>,
    pub workspace_path: Seq<char>,
    pub success: bool,
    pub error: Option<Seq<char>>,
    pub transcript: Seq<char>,
}

impl View for InstanceResult {
    type V = ResultView;

    open spec fn view(&self) -> ResultView {
        ResultView {
            instance_id: self.instance_id as nat,
            strategy: self.strategy@,
            workspace_path: self.workspace_path@,
            success: self.success,
            error: opt_text(self.error),
            transcript: self.transcript@,
        }
    }
}

impl Clone for InstanceResult {
    fn clone(&self) -> (r: Self)
        ensures
            r@ == self@,
    {
        InstanceResult {
            instance_id: self.instance_id,
            strategy: self.strategy.clone(),
            workspace_path: self.workspace_path.clone(),
            success: self.success,
            error: clone_opt(&self.error),
            transcript: self.transcript.clone(),
        }
    }
}

/// The views of a sequence of results.
pub open spec fn result_views(v: Seq<InstanceResult>) -> Seq<ResultView> {
    Seq::new(v.len(), |i: int| v[i]@)
}

/// How the task of one instance ended.
#[derive(Debug, PartialEq)]
pub enum TaskOutcome {
    /// No workspace could be made; the text says why. No session was started.
    WorkspaceFailed(String),
    /// The session ran to its end, or broke off on the way, and reported
    /// `success`.
    Completed { workspace_path: String, transcript: String, success: bool },
    /// The session could not be run; `error` says why.
    SessionFailed { workspace_path: String, error: String },
    /// The task itself did not run to its end; the text says why.
    NotJoined(String),
}

/// What a [`TaskOutcome`] holds, as plain values.
pub enum OutcomeView {
    WorkspaceFailed(Seq<char>),
    Completed { workspace_path: Seq<char>, transcript: Seq<char>, success: bool },
    SessionFailed { workspace_path: Seq<char>, error: Seq<char> },
    NotJoined(Seq<char>),
}

impl View for TaskOutcome {
    type V = OutcomeView;

    open spec fn view(&self) -> OutcomeView {
        match self {
            TaskOutcome::WorkspaceFailed(why) => OutcomeView::WorkspaceFailed(why@),
            TaskOutcome::Completed { workspace_path, transcript, success } => OutcomeView::Completed {
                workspace_path: workspace_path@,
                transcript: transcript@,
                success: *success,
            },
            TaskOutcome::SessionFailed { workspace_path, error } => OutcomeView::SessionFailed {
                workspace_path: workspace_path@,
                error: error@,
            },
            TaskOutcome::NotJoined(why) => OutcomeView::NotJoined(why@),
        }
    }
}

/// What opens the transcript of an instance that ran a session.
pub const SELECTION_HEADER: &'static str = "=== STRATEGY SELECTION ===\n";

/// The result of an instance whose strategy could not be had: a failure that
/// keeps the record's error and transcript. No implementation is tried.
pub open spec fn strategy_failure(id: nat, record: RecordView) -> ResultView {
    ResultView {
        instance_id: id,
        strategy: record.strategy.markdown,
        workspace_path: Seq::empty(),
        success: false,
        error: record.error,
        transcript: record.transcript,
    }
}

/// What stands between the transcript of the strategy and the error that
/// kept an instance from its implementation, or broke it off.
pub const ERROR_HEADER: &'static str = "\n\n=== ERROR ===\n";

/// The transcript of an instance that failed after its strategy was had:
/// what was exchanged for the strategy, then the error.
pub open spec fn failure_transcript(strategy_transcript: Seq<char>, error: Seq<char>) -> Seq<char> {
    SELECTION_HEADER@ + strategy_transcript + ERROR_HEADER@ + error
}

/// The result of the instance `id`, whose strategy was had and stands in
/// `record`, after its task ended with `outcome`. Whatever the outcome, the
/// transcript begins with what was exchanged for the strategy.
pub open spec fn implemented(id: nat, record: RecordView, outcome: OutcomeView) -> ResultView {
    match outcome {
        OutcomeView::WorkspaceFailed(why) => ResultView {
            instance_id: id,
            strategy: record.strategy.markdown,
            workspace_path: Seq::empty(),
            success: false,
            error: Some("Failed to create workspace: "@ + why),
            transcript: failure_transcript(record.transcript, "Failed to create workspace: "@ + why),
        },
        OutcomeView::Completed { workspace_path, transcript, success } => ResultView {
            instance_id: id,
            strategy: record.strategy.markdown,
            workspace_path,
            success,
            error: if success {
                None
            } else {
                Some("Session reported failure"@)
            },
            transcript: SELECTION_HEADER@ + record.transcript + "\n\n"@ + transcript,
        },
        OutcomeView::SessionFailed { workspace_path, error } => ResultView {
            instance_id: id,
            strategy: record.strategy.markdown,
            workspace_path,
            success: false,
            error: Some(error),
            transcript: failure_transcript(record.transcript, error),
        },
        OutcomeView::NotJoined(why) => ResultView {
            instance_id: id,
            strategy: record.strategy.markdown,
            workspace_path: Seq::empty(),
            success: false,
            error: Some("Task join error: "@ + why),
            transcript: failure_transcript(record.transcript, "Task join error: "@ + why),
        },
    }
}

/// The result of the instance `id` with the record `record`: that of its
/// failed strategy, whatever `outcome` says, or that of its task.
pub open spec fn instance_result(id: nat, record: RecordView, outcome: OutcomeView) -> ResultView {
    if record.failed {
        strategy_failure(id, record)
    } else {
        implemented(id, record, outcome)
    }
}

/// The result of the dry run of instance `id`: a success without a
/// workspace, whose transcript is the record's.
pub open spec fn dry_result(id: nat, record: RecordView) -> ResultView {
    ResultView {
        instance_id: id,
        strategy: record.strategy.markdown,
        workspace_path: Seq::empty(),
        success: true,
        error: None,
        transcript: record.transcript,
    }
}

/// The text `head` followed by `tail`.
fn prefixed(head: &str, tail: &str) -> (r: String)
    ensures
        r@ == head@ + tail@,
{
    let mut out: Vec<char> = Vec::new();
    push_str(&mut out, head);
    push_str(&mut out, tail);
    string_of(&out)
}

impl InstanceResult {
    /// The result of an instance whose strategy could not be had.
    pub fn of_failed_strategy(id: usize, record: &StrategyRecord) -> (r: Self)
        ensures
            r@ == strategy_failure(id as nat, record@),
    {
        InstanceResult {
            instance_id: id,
            strategy: record.strategy.markdown.clone(),
            workspace_path: String::new(),
            success: false,
            error: clone_opt(&record.error),
            transcript: record.transcript.clone(),
        }
    }

    /// The result of an instance in a dry run.
    pub fn of_dry_run(id: usize, record: &StrategyRecord) -> (r: Self)
        ensures
            r@ == dry_result(id as nat, record@),
    {
        InstanceResult {
            instance_id: id,
            strategy: record.strategy.markdown.clone(),
            workspace_path: String::new(),
            success: true,
            error: None,
            transcript: record.transcript.clone(),
        }
    }

    /// The result of the instance `id` after its task ended with `outcome`.
    /// An instance whose strategy failed has the result of that failure.
    pub fn of_outcome(id: usize, record: &StrategyRecord, outcome: &TaskOutcome) -> (r: Self)
        ensures
            r@ == instance_result(id as nat, record@, outcome@),
    {
        if record.failed {
            return Self::of_failed_strategy(id, record);
        }
        let strategy = record.strategy.markdown.clone();
        match outcome {
            TaskOutcome::WorkspaceFailed(why) => {
                let error = prefixed("Failed to create workspace: ", why.as_str());
                InstanceResult {
                    instance_id: id,
                    strategy,
                    workspace_path: String::new(),
                    success: false,
                    transcript: failed_transcript(record, error.as_str()),
                    error: Some(error),
                }
            },
            TaskOutcome::Completed { workspace_path, transcript, success } => {
                let mut full: Vec<char> = Vec::new();
                push_str(&mut full, SELECTION_HEADER);
                push_str(&mut full, record.transcript.as_str());
                push_str(&mut full, "\n\n");
                push_str(&mut full, transcript.as_str());
                InstanceResult {
                    instance_id: id,
                    strategy,
                    workspace_path: workspace_path.clone(),
                    success: *success,
                    error: if *success {
                        None
                    } else {
                        Some("Session reported failure".to_owned())
                    },
                    transcript: string_of(&full),
                }
            },
            TaskOutcome::SessionFailed { workspace_path, error } => InstanceResult {
                instance_id: id,
                strategy,
                workspace_path: workspace_path.clone(),
                success: false,
                error: Some(error.clone()),
                transcript: failed_transcript(record, error.as_str()),
            },
            TaskOutcome::NotJoined(why) => {
                let error = prefixed("Task join error: ", why.as_str());
                InstanceResult {
                    instance_id: id,
                    strategy,
                    workspace_path: String::new(),
                    success: false,
                    transcript: failed_transcript(record, error.as_str()),
                    error: Some(error),
                }
            },
        }
    }
}

/// The transcript of an instance that failed with `error` after its strategy
/// was had.
fn failed_transcript(record: &StrategyRecord, error: &str) -> (r: String)
    ensures
        r@ == failure_transcript(record@.transcript, error@),
{
    let mut full: Vec<char> = Vec::new();
    push_str(&mut full, SELECTION_HEADER);
    push_str(&mut full, record.transcript.as_str());
    push_str(&mut full, ERROR_HEADER);
    push_str(&mut full, error);
    string_of(&full)
}

} // verus!
