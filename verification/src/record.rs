//! The record that a run keeps for each instance while strategies are
//! collected and reviewed, and the exclusion sets that the records give.

use crate::number::{decimal, push_decimal};
use crate::strategy::{failure_text, parse_strategy, parsed, strategy_text, Strategy, StrategyView};
use crate::text::{clone_opt, opt_text, push_str, string_of, texts};
use vstd::prelude::*;

verus! {

/// One instance's strategy with what was exchanged to get it.
#[derive(Debug, PartialEq)]
pub struct StrategyRecord {
    /// The strategy, or the sentinel of a failure.
    pub strategy: Strategy,
    /// The full text exchanged to obtain or revise the strategy.
    pub transcript: String,
    /// Whether no strategy could be had.
    pub failed: bool,
    /// Why, if it failed.
    pub error: Option<String>,
    /// Whether the operator changed the strategy.
    pub manually_edited: bool,
}

/// What a [`StrategyRecord`] holds, as plain values.
pub struct RecordView {
    pub strategy: StrategyView,
    pub transcript: Seq<char>,
    pub failed: bool,
    pub error: Option<Seq<char>>,
    pub manually_edited: bool,
}

impl View for StrategyRecord {
    type V = RecordView;

    open spec fn view(&self) -> RecordView {
        RecordView {
            strategy: self.strategy@,
            transcript: self.transcript@,
            failed: self.failed,
            error: opt_text(self.error),
            manually_edited: self.manually_edited,
        }
    }
}

/// The views of a sequence of records.
pub open spec fn record_views(v: Seq<StrategyRecord>) -> Seq<RecordView> {
    Seq::new(v.len(), |i: int| v[i]@)
}

/// The record of a strategy read from the reply `response`.
pub open spec fn elicited_record(response: Seq<char>) -> RecordView {
    RecordView {
        strategy: parsed(strategy_text(response)),
        transcript: response,
        failed: false,
        error: None,
        manually_edited: false,
    }
}

/// The record of an instance whose strategy could not be had: `what` says
/// which step failed and `error` why.
pub open spec fn failed_record(what: Seq<char>, error: Seq<char>) -> RecordView {
    RecordView {
        strategy: StrategyView {
            markdown: failure_text(what + error),
            raw: failure_text(what + error),
            highlights: Seq::empty(),
        },
        transcript: "Error: "@ + error,
        failed: true,
        error: Some(what + error),
        manually_edited: false,
    }
}

/// The text of the strategy that stands in for instance `index` in a dry run.
pub open spec fn placeholder_text(index: nat) -> Seq<char> {
    "[DRY RUN] Strategy "@ + decimal(index) + " would be generated here"@
}

/// The record that stands in for instance `index` in a dry run; its
/// transcript is the prompt that would have been sent.
pub open spec fn placeholder_record(index: nat, prompt: Seq<char>) -> RecordView {
    RecordView {
        strategy: parsed(placeholder_text(index)),
        transcript: prompt,
        failed: false,
        error: None,
        manually_edited: false,
    }
}

/// The record of a strategy that the operator wrote and an agent confirmed
/// with the reply `response`.
pub open spec fn confirmed_record(edited: Seq<char>, response: Seq<char>) -> RecordView {
    RecordView {
        strategy: parsed(edited),
        transcript: response,
        failed: false,
        error: None,
        manually_edited: true,
    }
}

/// The record of a strategy that a conversation revised to `markdown`.
pub open spec fn revised_record(markdown: Seq<char>) -> RecordView {
    RecordView {
        strategy: parsed(markdown),
        transcript: "Revised via chat: "@ + markdown,
        failed: false,
        error: None,
        manually_edited: true,
    }
}

/// What is said of a strategy that could not be extracted.
pub const EXTRACTION_FAILED: &'static str = "Failed to extract strategy: ";

/// What is said of an added strategy that could not be generated.
pub const GENERATION_FAILED: &'static str = "Failed to generate strategy: ";

/// What is said of an edited strategy that no agent confirmed.
pub const CONFIRMATION_FAILED: &'static str = "Failed to create agent with edited strategy: ";

impl StrategyRecord {
    /// Whether the strategy is well formed and the error is there exactly
    /// for a failed record.
    pub open spec fn well_formed(&self) -> bool {
        &&& self.strategy.well_formed()
        &&& self.failed <==> self.error is Some
    }

    /// The record of a strategy read from an agent's reply.
    pub fn elicited(response: String) -> (r: Self)
        ensures
            r@ == elicited_record(response@),
            r.well_formed(),
    {
        let strategy = parse_strategy(response.as_str());
        StrategyRecord {
            strategy,
            transcript: response,
            failed: false,
            error: None,
            manually_edited: false,
        }
    }

    /// The record of an instance whose strategy could not be had.
    pub fn failure(what: &str, error: &str) -> (r: Self)
        ensures
            r@ == failed_record(what@, error@),
            r.well_formed(),
    {
        let mut message: Vec<char> = Vec::new();
        push_str(&mut message, what);
        push_str(&mut message, error);
        let message = string_of(&message);
        let mut transcript: Vec<char> = Vec::new();
        push_str(&mut transcript, "Error: ");
        push_str(&mut transcript, error);
        let strategy = Strategy::failed(message.as_str());
        let r = StrategyRecord {
            strategy,
            transcript: string_of(&transcript),
            failed: true,
            error: Some(message),
            manually_edited: false,
        };
        assert(r@.strategy.highlights =~= Seq::<Seq<char>>::empty());
        r
    }

    /// The record that stands in for instance `index` in a dry run.
    pub fn placeholder(index: usize, prompt: String) -> (r: Self)
        ensures
            r@ == placeholder_record(index as nat, prompt@),
            r.well_formed(),
    {
        let mut text: Vec<char> = Vec::new();
        push_str(&mut text, "[DRY RUN] Strategy ");
        push_decimal(&mut text, index as u64);
        push_str(&mut text, " would be generated here");
        let text = string_of(&text);
        StrategyRecord {
            strategy: Strategy::parse(text.as_str()),
            transcript: prompt,
            failed: false,
            error: None,
            manually_edited: false,
        }
    }

    /// The record of a strategy that the operator wrote and an agent
    /// confirmed.
    pub fn confirmed(edited: &str, response: String) -> (r: Self)
        ensures
            r@ == confirmed_record(edited@, response@),
            r.well_formed(),
    {
        StrategyRecord {
            strategy: Strategy::parse(edited),
            transcript: response,
            failed: false,
            error: None,
            manually_edited: true,
        }
    }

    /// The record of a strategy that a conversation revised.
    pub fn revised(markdown: &str) -> (r: Self)
        ensures
            r@ == revised_record(markdown@),
            r.well_formed(),
    {
        let mut transcript: Vec<char> = Vec::new();
        push_str(&mut transcript, "Revised via chat: ");
        push_str(&mut transcript, markdown);
        StrategyRecord {
            strategy: Strategy::parse(markdown),
            transcript: string_of(&transcript),
            failed: false,
            error: None,
            manually_edited: true,
        }
    }
}

impl Clone for StrategyRecord {
    fn clone(&self) -> (r: Self)
        ensures
            r@ == self@,
    {
        StrategyRecord {
            strategy: self.strategy.clone(),
            transcript: self.transcript.clone(),
            failed: self.failed,
            error: clone_opt(&self.error),
            manually_edited: self.manually_edited,
        }
    }
}

/// A copy of each record.
pub fn clone_records(records: &Vec<StrategyRecord>) -> (r: Vec<StrategyRecord>)
    ensures
        record_views(r@) == record_views(records@),
        forall|i: int| 0 <= i < r@.len() ==> r@[i]@ == records@[i]@,
        r@.len() == records@.len(),
{
    let mut r: Vec<StrategyRecord> = Vec::new();
    let mut i: usize = 0;
    while i < records.len()
        invariant
            i <= records@.len(),
            r@.len() == i,
            forall|j: int| 0 <= j < i ==> r@[j]@ == records@[j]@,
        decreases records@.len() - i,
    {
        r.push(records[i].clone());
        i += 1;
    }
    assert(record_views(r@) =~= record_views(records@));
    r
}

/// The strategies that another one must differ from: the markdown of every
/// record that has not failed, but for the record at `skip`, in the order of
/// the records. A `skip` that is no index leaves none out.
pub open spec fn exclusions(records: Seq<RecordView>, skip: int) -> Seq<Seq<char>>
    decreases records.len(),
{
    if records.len() == 0 {
        Seq::empty()
    } else {
        let rest = exclusions(records.drop_last(), skip);
        if !records.last().failed && records.len() - 1 != skip {
            rest.push(records.last().strategy.markdown)
        } else {
            rest
        }
    }
}

/// The markdown of every record that has not failed.
pub open spec fn accepted(records: Seq<RecordView>) -> Seq<Seq<char>> {
    exclusions(records, -1)
}

/// An exclusion set holds exactly the markdown of the records that have not
/// failed and do not stand at `skip`: each of those, and nothing else.
pub proof fn lemma_exclusions_exact(records: Seq<RecordView>, skip: int)
    ensures
        exclusions(records, skip).len() <= records.len(),
        forall|m: Seq<char>| #[trigger]
            exclusions(records, skip).contains(m) <==> exists|j: int|
                0 <= j < records.len() && j != skip && !records[j].failed
                    && #[trigger] records[j].strategy.markdown == m,
    decreases records.len(),
{
    if records.len() > 0 {
        let init = records.drop_last();
        let last = records.last();
        let k = records.len() - 1;
        lemma_exclusions_exact(init, skip);
        let e = exclusions(records, skip);
        let r = exclusions(init, skip);
        assert forall|m: Seq<char>| #[trigger]
            e.contains(m) <==> exists|j: int|
                0 <= j < records.len() && j != skip && !records[j].failed
                    && #[trigger] records[j].strategy.markdown == m by {
            if e.contains(m) {
                let i = choose|i: int| 0 <= i < e.len() && e[i] == m;
                if i < r.len() {
                    assert(r[i] == m);
                    assert(r.contains(m));
                    let j = choose|j: int|
                        0 <= j < init.len() && j != skip && !init[j].failed
                            && #[trigger] init[j].strategy.markdown == m;
                    assert(records[j].strategy.markdown == m);
                } else {
                    assert(records[k].strategy.markdown == m);
                }
            }
            if exists|j: int|
                0 <= j < records.len() && j != skip && !records[j].failed
                    && #[trigger] records[j].strategy.markdown == m {
                let j = choose|j: int|
                    0 <= j < records.len() && j != skip && !records[j].failed
                        && #[trigger] records[j].strategy.markdown == m;
                if j < k {
                    assert(init[j].strategy.markdown == m);
                    assert(r.contains(m));
                    let i = choose|i: int| 0 <= i < r.len() && r[i] == m;
                    assert(e[i] == m);
                } else {
                    assert(e[e.len() - 1] == m);
                }
            }
        }
    }
}

/// The exclusion set of `records` without the record at `skip`; with a `skip`
/// that is no index, of all of them.
pub fn exclusion_set(records: &Vec<StrategyRecord>, skip: Option<usize>) -> (r: Vec<String>)
    ensures
        texts(r@) == exclusions(
            record_views(records@),
            match skip {
                Some(k) => k as int,
                None => -1,
            },
        ),
{
    let ghost all = record_views(records@);
    let ghost hole: int = match skip {
        Some(k) => k as int,
        None => -1,
    };
    let mut r: Vec<String> = Vec::new();
    let mut i: usize = 0;
    assert(all.take(0).len() == 0);
    assert(texts(r@) =~= exclusions(all.take(0), hole));
    while i < records.len()
        invariant
            i <= records@.len(),
            all == record_views(records@),
            hole == match skip {
                Some(k) => k as int,
                None => -1,
            },
            texts(r@) == exclusions(all.take(i as int), hole),
        decreases records@.len() - i,
    {
        let ghost before = texts(r@);
        let skipped = match skip {
            Some(k) => k == i,
            None => false,
        };
        proof {
            let next = all.take(i + 1);
            assert(next.drop_last() == all.take(i as int));
            assert(next.last() == records@[i as int]@);
        }
        if !records[i].failed && !skipped {
            r.push(records[i].strategy.markdown.clone());
            assert(texts(r@) =~= before.push(records@[i as int]@.strategy.markdown));
        }
        i += 1;
    }
    assert(all.take(records@.len() as int) == all);
    r
}

/// An agent's reply, or why there is none, as plain values.
pub open spec fn reply_view(reply: Result<String, String>) -> Result<Seq<char>, Seq<char>> {
    match reply {
        Ok(text) => Ok(text@),
        Err(why) => Err(why@),
    }
}

} // verus!
