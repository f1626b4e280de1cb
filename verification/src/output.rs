//! Where a run writes what it gave, and what it writes there.
//!
//! The run directory holds the file `strategies`, a summary of all
//! strategies, and for each instance a directory `c0`, `c1`, ... with the
//! file `session.log`.

use crate::number::{decimal, push_decimal};
use crate::outcome::{result_views, InstanceResult, ResultView};
use crate::path::{child_path, join_path};
use crate::text::{opt_str_text, push_str, string_of};
use vstd::prelude::*;

verus! {

/// Why the output of a run could not be written.
#[derive(Debug, PartialEq)]
pub enum OutputError {
    /// The directory could not be created; the text says why.
    CreateDirFailed(String),
}

/// What an [`OutputError`] says.
pub open spec fn output_error_text(e: OutputError) -> Seq<char> {
    match e {
        OutputError::CreateDirFailed(why) => "Failed to create output directory: "@ + why@,
    }
}

impl OutputError {
    /// The error as a message.
    pub fn to_string(&self) -> (r: String)
        ensures
            r@ == output_error_text(*self),
    {
        let mut out: Vec<char> = Vec::new();
        match self {
            OutputError::CreateDirFailed(why) => {
                push_str(&mut out, "Failed to create output directory: ");
                push_str(&mut out, why.as_str());
            },
        }
        string_of(&out)
    }
}

/// The name of the directory of a run that started at the time `timestamp`,
/// in seconds.
pub open spec fn run_dir_name(timestamp: nat) -> Seq<char> {
    "claudissent-"@ + decimal(timestamp)
}

/// The name of the directory of the instance `instance_id` inside the run
/// directory.
pub open spec fn instance_dir_name(instance_id: nat) -> Seq<char> {
    "c"@ + decimal(instance_id)
}

/// One line of the summary: an instance, its strategy, and whether it
/// succeeded.
pub type SummaryEntry = (usize, String, bool);

/// The views of the entries of a summary.
pub open spec fn entry_views(v: Seq<SummaryEntry>) -> Seq<(nat, Seq<char>, bool)> {
    Seq::new(v.len(), |i: int| (v[i].0 as nat, v[i].1@, v[i].2))
}

/// What the summary says of one instance: its name and status on one line,
/// its strategy on the next, indented, and an empty line.
pub open spec fn entry_text(entry: (nat, Seq<char>, bool)) -> Seq<char> {
    "C"@ + decimal(entry.0) + " ["@ + (if entry.2 {
        "OK"@
    } else {
        "FAILED"@
    }) + "]:\n  "@ + entry.1 + "\n\n"@
}

/// What the summary says of the instances in `entries`, in their order.
pub open spec fn entries_text(entries: Seq<(nat, Seq<char>, bool)>) -> Seq<char>
    decreases entries.len(),
{
    if entries.len() == 0 {
        Seq::empty()
    } else {
        entries_text(entries.drop_last()) + entry_text(entries.last())
    }
}

/// What opens the summary of the strategies.
pub const STRATEGIES_HEADER: &'static str = "CLAUDISSENT STRATEGIES\n======================\n\n";

/// The summary of the strategies of a run.
pub open spec fn strategies_text(entries: Seq<(nat, Seq<char>, bool)>) -> Seq<char> {
    STRATEGIES_HEADER@ + entries_text(entries)
}

/// The line of the log that gives the error, if there is one.
pub open spec fn error_line(error: Option<Seq<char>>) -> Seq<char> {
    match error {
        Some(e) => "Error: "@ + e + "\n"@,
        None => Seq::empty(),
    }
}

/// The log of one instance's session: its name, its status, its error if
/// any, its strategy, and its transcript.
pub open spec fn agent_log_text(
    instance_id: nat,
    strategy: Seq<char>,
    transcript: Seq<char>,
    success: bool,
    error: Option<Seq<char>>,
) -> Seq<char> {
    "CLAUDISSENT AGENT C"@ + decimal(instance_id) + "\n========================\n\nStatus: "@ + (if success {
        "SUCCESS"@
    } else {
        "FAILED"@
    }) + "\n"@ + error_line(error) + "\nStrategy:\n  "@ + strategy
        + "\n\nSession Transcript:\n-------------------\n"@ + transcript + "\n"@
}

/// The entry of the summary for each result, in their order.
pub open spec fn summary_of(results: Seq<ResultView>) -> Seq<(nat, Seq<char>, bool)> {
    Seq::new(results.len(), |i: int| (results[i].instance_id, results[i].strategy, results[i].success))
}

/// The directory of one run.
pub struct RunOutput {
    run_dir: String,
}

impl View for RunOutput {
    type V = Seq<char>;

    /// The path of the run directory.
    closed spec fn view(&self) -> Seq<char> {
        self.run_dir@
    }
}

impl RunOutput {
    /// The output of a run that started at the time `timestamp` and writes
    /// under `base_dir`. The directory itself is for the caller to make.
    pub fn locate(base_dir: &str, timestamp: u64) -> (r: Self)
        ensures
            r@ == child_path(base_dir@, run_dir_name(timestamp as nat)),
    {
        let mut name: Vec<char> = Vec::new();
        push_str(&mut name, "claudissent-");
        push_decimal(&mut name, timestamp);
        let name = string_of(&name);
        RunOutput { run_dir: join_path(base_dir, name.as_str()) }
    }

    /// The path of the run directory.
    pub fn path(&self) -> (r: &str)
        ensures
            r@ == self@,
    {
        self.run_dir.as_str()
    }

    /// The path of the directory of the instance `instance_id`.
    pub fn instance_dir(&self, instance_id: usize) -> (r: String)
        ensures
            r@ == child_path(self@, instance_dir_name(instance_id as nat)),
    {
        let mut name: Vec<char> = Vec::new();
        push_str(&mut name, "c");
        push_decimal(&mut name, instance_id as u64);
        let name = string_of(&name);
        join_path(self.run_dir.as_str(), name.as_str())
    }

    /// The path of the summary of the strategies.
    pub fn strategies_path(&self) -> (r: String)
        ensures
            r@ == child_path(self@, "strategies"@),
    {
        join_path(self.run_dir.as_str(), "strategies")
    }

    /// The path of the log of the instance `instance_id`.
    pub fn agent_log_path(&self, instance_id: usize) -> (r: String)
        ensures
            r@ == child_path(
                child_path(self@, instance_dir_name(instance_id as nat)),
                "session.log"@,
            ),
    {
        let dir = self.instance_dir(instance_id);
        join_path(dir.as_str(), "session.log")
    }
}

/// The summary of the strategies in `strategies`, as it is written to the
/// file `strategies`.
pub fn strategies_report(strategies: &[SummaryEntry]) -> (r: String)
    ensures
        r@ == strategies_text(entry_views(strategies@)),
{
    let ghost all = entry_views(strategies@);
    let mut out: Vec<char> = Vec::new();
    push_str(&mut out, STRATEGIES_HEADER);
    let mut i: usize = 0;
    assert(all.take(0).len() == 0);
    assert(out@ == STRATEGIES_HEADER@ + entries_text(all.take(0)));
    while i < strategies.len()
        invariant
            i <= strategies@.len(),
            all == entry_views(strategies@),
            out@ == STRATEGIES_HEADER@ + entries_text(all.take(i as int)),
        decreases strategies@.len() - i,
    {
        let ghost sofar = out@;
        let ghost done = entries_text(all.take(i as int));
        let entry = &strategies[i];
        push_str(&mut out, "C");
        push_decimal(&mut out, entry.0 as u64);
        push_str(&mut out, " [");
        if entry.2 {
            push_str(&mut out, "OK");
        } else {
            push_str(&mut out, "FAILED");
        }
        push_str(&mut out, "]:\n  ");
        push_str(&mut out, entry.1.as_str());
        push_str(&mut out, "\n\n");
        proof {
            let next = all.take(i + 1);
            assert(next.drop_last() == all.take(i as int));
            assert(next.last() == all[i as int]);
            assert(out@ == sofar + entry_text(all[i as int]));
            assert(out@ == STRATEGIES_HEADER@ + (done + entry_text(all[i as int])));
        }
        i += 1;
    }
    assert(all.take(strategies@.len() as int) == all);
    string_of(&out)
}

/// The log of one instance's session, as it is written to `session.log`.
pub fn agent_log(
    instance_id: usize,
    strategy: &str,
    transcript: &str,
    success: bool,
    error: Option<&str>,
) -> (r: String)
    ensures
        r@ == agent_log_text(instance_id as nat, strategy@, transcript@, success, opt_str_text(error)),
{
    let mut out: Vec<char> = Vec::new();
    push_str(&mut out, "CLAUDISSENT AGENT C");
    push_decimal(&mut out, instance_id as u64);
    push_str(&mut out, "\n========================\n\nStatus: ");
    if success {
        push_str(&mut out, "SUCCESS");
    } else {
        push_str(&mut out, "FAILED");
    }
    push_str(&mut out, "\n");
    match error {
        Some(e) => {
            push_str(&mut out, "Error: ");
            push_str(&mut out, e);
            push_str(&mut out, "\n");
        },
        None => {},
    }
    assert(out@ == "CLAUDISSENT AGENT C"@ + decimal(instance_id as nat)
        + "\n========================\n\nStatus: "@ + (if success {
        "SUCCESS"@
    } else {
        "FAILED"@
    }) + "\n"@ + error_line(opt_str_text(error)));
    push_str(&mut out, "\nStrategy:\n  ");
    push_str(&mut out, strategy);
    push_str(&mut out, "\n\nSession Transcript:\n-------------------\n");
    push_str(&mut out, transcript);
    push_str(&mut out, "\n");
    string_of(&out)
}

/// The log of the instance that `result` is of.
pub fn result_log(result: &InstanceResult) -> (r: String)
    ensures
        r@ == agent_log_text(
            result@.instance_id,
            result@.strategy,
            result@.transcript,
            result@.success,
            result@.error,
        ),
{
    let error: Option<&str> = match &result.error {
        Some(e) => Some(e.as_str()),
        None => None,
    };
    agent_log(
        result.instance_id,
        result.strategy.as_str(),
        result.transcript.as_str(),
        result.success,
        error,
    )
}

/// The entries of the summary for `results`: for each, in their order, its
/// instance, its strategy and whether it succeeded.
pub fn strategy_summary(results: &[InstanceResult]) -> (r: Vec<SummaryEntry>)
    ensures
        entry_views(r@) == summary_of(result_views(results@)),
{
    let mut r: Vec<SummaryEntry> = Vec::new();
    let mut i: usize = 0;
    while i < results.len()
        invariant
            i <= results@.len(),
            r@.len() == i,
            forall|j: int|
                0 <= j < i ==> r@[j].0 == results@[j].instance_id && r@[j].1@ == results@[j].strategy@
                    && r@[j].2 == results@[j].success,
        decreases results@.len() - i,
    {
        r.push((results[i].instance_id, results[i].strategy.clone(), results[i].success));
        i += 1;
    }
    assert(entry_views(r@) =~= summary_of(result_views(results@)));
    r
}

} // verus!
