//! The phases of a run: strategies are collected one after the other, are
//! reviewed if the run is interactive, and are then implemented side by side.
//!
//! The conductor decides; it does no outside work. Its caller sends the
//! prompts, shows the review and runs the sessions, and reports what came
//! back.

pub use crate::outcome::InstanceResult;
use crate::outcome::{
    dry_result, instance_result, result_views, strategy_failure, OutcomeView, ResultView,
    TaskOutcome,
};
use crate::prompt::{
    build_implementation_prompt, build_strategy_prompt, implementation_prompt, strategy_prompt,
};
use crate::record::{
    accepted, elicited_record, exclusion_set, exclusions, failed_record, placeholder_record,
    record_views, reply_view, RecordView, StrategyRecord, EXTRACTION_FAILED,
};
use crate::text::texts;
use vstd::prelude::*;

verus! {

/// Where a run stands.
#[derive(Debug, Clone, Copy, PartialEq, Eq, Structural)]
pub enum Phase {
    /// Strategies are asked for, one instance after the other.
    CollectingStrategies,
    /// The operator reviews the strategies.
    ReviewingStrategies,
    /// The instances implement their strategies.
    Implementing,
    /// The run is over.
    Done,
}

/// What a [`Conductor`] holds, as plain values.
pub struct ConductorView {
    pub task: Seq<char>,
    pub n: nat,
    pub dry_run: bool,
    pub interactive: bool,
    pub phase: Phase,
    pub records: Seq<RecordView>,
    pub slots: Seq<Option<ResultView>>,
    pub aborted: bool,
}

/// The views of the slots of the results.
pub open spec fn slot_views(v: Seq<Option<InstanceResult>>) -> Seq<Option<ResultView>> {
    Seq::new(
        v.len(),
        |i: int|
            match v[i] {
                Some(r) => Some(r@),
                None => None,
            },
    )
}

/// Number of slots without a result.
pub open spec fn unfilled(slots: Seq<Option<ResultView>>) -> nat
    decreases slots.len(),
{
    if slots.len() == 0 {
        0
    } else {
        unfilled(slots.drop_last()) + if slots.last() is None {
            1nat
        } else {
            0nat
        }
    }
}

/// The slots at the start of the implementation: an instance whose strategy
/// failed has its result at once, the others have none yet.
pub open spec fn initial_slots(records: Seq<RecordView>) -> Seq<Option<ResultView>> {
    Seq::new(
        records.len(),
        |i: int|
            if records[i].failed {
                Some(strategy_failure(i as nat, records[i]))
            } else {
                None
            },
    )
}

/// The slots of a dry run: every instance succeeds without doing anything.
pub open spec fn dry_slots(records: Seq<RecordView>) -> Seq<Option<ResultView>> {
    Seq::new(records.len(), |i: int| Some(dry_result(i as nat, records[i])))
}

/// The records of the dry run of `n` instances: each stands in for a
/// strategy and keeps the prompt that would have asked for it.
pub open spec fn dry_records(task: Seq<char>, n: nat) -> Seq<RecordView>
    decreases n,
{
    if n == 0 {
        Seq::empty()
    } else {
        let before = dry_records(task, (n - 1) as nat);
        before.push(placeholder_record((n - 1) as nat, strategy_prompt(task, accepted(before))))
    }
}

/// The run `c` as it starts to implement `records`: with their slots, and
/// over at once where no instance is left to run.
pub open spec fn started(c: ConductorView, records: Seq<RecordView>) -> ConductorView {
    ConductorView {
        records,
        slots: initial_slots(records),
        phase: if unfilled(initial_slots(records)) == 0 {
            Phase::Done
        } else {
            Phase::Implementing
        },
        ..c
    }
}

/// The run `c` after its last strategy came in: under review if it is
/// interactive, else implementing.
pub open spec fn collected(c: ConductorView) -> ConductorView {
    if c.interactive {
        ConductorView { phase: Phase::ReviewingStrategies, ..c }
    } else {
        started(c, c.records)
    }
}

/// The run as it begins. A dry run is over at once, with its placeholders
/// and their results. Any other run collects strategies, unless it has no
/// instance.
pub open spec fn created(task: Seq<char>, n: nat, dry_run: bool, interactive: bool) -> ConductorView {
    let blank = ConductorView {
        task,
        n,
        dry_run,
        interactive,
        phase: Phase::CollectingStrategies,
        records: Seq::empty(),
        slots: Seq::empty(),
        aborted: false,
    };
    if dry_run {
        ConductorView {
            phase: Phase::Done,
            records: dry_records(task, n),
            slots: dry_slots(dry_records(task, n)),
            ..blank
        }
    } else if n == 0 {
        collected(blank)
    } else {
        blank
    }
}

/// The record that the reply to an elicitation gives.
pub open spec fn reply_record(reply: Result<Seq<char>, Seq<char>>) -> RecordView {
    match reply {
        Ok(text) => elicited_record(text),
        Err(why) => failed_record(EXTRACTION_FAILED@, why),
    }
}

/// The run `c` after the next elicitation gave `reply`: the record is kept,
/// failed or not, and the collection ends with the record of the last
/// instance. A run that is not collecting is left as it is.
pub open spec fn elicited(c: ConductorView, reply: Result<Seq<char>, Seq<char>>) -> ConductorView {
    if c.phase != Phase::CollectingStrategies {
        c
    } else {
        let grown = ConductorView { records: c.records.push(reply_record(reply)), ..c };
        if grown.records.len() >= c.n {
            collected(grown)
        } else {
            grown
        }
    }
}

/// The run `c` after the review gave back `records`. No records mean that
/// the operator quit: the run is over, and nothing is kept. A run that is
/// not under review is left as it is.
pub open spec fn reviewed(c: ConductorView, records: Seq<RecordView>) -> ConductorView {
    if c.phase != Phase::ReviewingStrategies {
        c
    } else if records.len() == 0 {
        ConductorView {
            phase: Phase::Done,
            records: Seq::empty(),
            slots: Seq::empty(),
            aborted: true,
            ..c
        }
    } else {
        started(c, records)
    }
}

/// The run `c` after the task of the instance `index` ended with `outcome`:
/// the result takes its slot, and the run is over with the last result. A
/// report for a slot that has its result, or for no slot, changes nothing.
pub open spec fn finished(c: ConductorView, index: nat, outcome: OutcomeView) -> ConductorView {
    if c.phase != Phase::Implementing || index >= c.slots.len() || index >= c.records.len()
        || c.slots[index as int] is Some {
        c
    } else {
        let slots = c.slots.update(
            index as int,
            Some(instance_result(index, c.records[index as int], outcome)),
        );
        ConductorView {
            slots,
            phase: if unfilled(slots) == 0 {
                Phase::Done
            } else {
                Phase::Implementing
            },
            ..c
        }
    }
}

/// Whether the parts of a run fit together: while strategies are collected
/// some are missing and no slot exists; during the implementation each
/// record has a slot and one slot at least is empty; at the end every slot
/// is filled.
pub open spec fn consistent(c: ConductorView) -> bool {
    match c.phase {
        Phase::CollectingStrategies => c.records.len() < c.n && c.slots.len() == 0 && !c.dry_run
            && !c.aborted,
        Phase::ReviewingStrategies => c.slots.len() == 0 && !c.dry_run && !c.aborted,
        Phase::Implementing => c.slots.len() == c.records.len() && unfilled(c.slots) > 0
            && !c.aborted,
        Phase::Done => c.slots.len() == c.records.len() && unfilled(c.slots) == 0,
    }
}

/// The results of a run that is over, by instance.
pub open spec fn results_of(c: ConductorView) -> Seq<ResultView> {
    Seq::new(c.slots.len(), |i: int| c.slots[i]->0)
}

/// Filling an empty slot leaves one empty slot less.
pub proof fn lemma_unfilled_update(slots: Seq<Option<ResultView>>, index: int, r: ResultView)
    requires
        0 <= index < slots.len(),
        slots[index] is None,
    ensures
        unfilled(slots.update(index, Some(r))) == unfilled(slots) - 1,
    decreases slots.len(),
{
    let next = slots.update(index, Some(r));
    if index == slots.len() - 1 {
        assert(next.drop_last() == slots.drop_last());
    } else {
        lemma_unfilled_update(slots.drop_last(), index, r);
        assert(next.drop_last() == slots.drop_last().update(index, Some(r)));
    }
}

/// No slot is empty exactly where every slot has its result.
pub proof fn lemma_unfilled_zero(slots: Seq<Option<ResultView>>)
    ensures
        unfilled(slots) == 0 <==> forall|i: int| 0 <= i < slots.len() ==> slots[i] is Some,
        unfilled(slots) <= slots.len(),
    decreases slots.len(),
{
    if slots.len() > 0 {
        let init = slots.drop_last();
        lemma_unfilled_zero(init);
        if unfilled(slots) == 0 {
            assert forall|i: int| 0 <= i < slots.len() implies slots[i] is Some by {
                if i < init.len() {
                    assert(init[i] == slots[i]);
                }
            }
        }
        if forall|i: int| 0 <= i < slots.len() ==> slots[i] is Some {
            assert forall|i: int| 0 <= i < init.len() implies init[i] is Some by {
                assert(init[i] == slots[i]);
            }
        }
    }
}

/// What the caller is to send to ask the next instance for its strategy.
#[derive(Debug, PartialEq)]
pub struct ElicitationRequest {
    /// The instance that is asked.
    pub index: usize,
    /// The strategies that the new one must differ from.
    pub exclusions: Vec<String>,
    /// The prompt.
    pub prompt: String,
}

/// What the caller is to run for one instance.
#[derive(Debug, PartialEq)]
pub struct ImplementationJob {
    /// The instance.
    pub instance_id: usize,
    /// The strategy it is bound to.
    pub strategy: String,
    /// The approaches it may not use.
    pub exclusions: Vec<String>,
    /// The prompt.
    pub prompt: String,
}

/// One run.
pub struct Conductor {
    task: String,
    n: usize,
    dry_run: bool,
    interactive: bool,
    phase: Phase,
    records: Vec<StrategyRecord>,
    slots: Vec<Option<InstanceResult>>,
    pending: usize,
    aborted: bool,
}

impl View for Conductor {
    type V = ConductorView;

    closed spec fn view(&self) -> ConductorView {
        ConductorView {
            task: self.task@,
            n: self.n as nat,
            dry_run: self.dry_run,
            interactive: self.interactive,
            phase: self.phase,
            records: record_views(self.records@),
            slots: slot_views(self.slots@),
            aborted: self.aborted,
        }
    }
}

impl Conductor {
    /// Whether the run is consistent and knows how many slots are empty.
    pub closed spec fn well_formed(&self) -> bool {
        &&& consistent(self@)
        &&& self.pending == unfilled(self@.slots)
    }

    /// Fills the slots for the implementation of the records.
    fn start(&mut self)
        requires
            old(self).slots@.len() == 0,
            !old(self).aborted,
        ensures
            final(self)@ == started(old(self)@, old(self)@.records),
            final(self).well_formed(),
    {
        let ghost records = record_views(self.records@);
        let ghost target = initial_slots(records);
        let mut slots: Vec<Option<InstanceResult>> = Vec::new();
        let mut pending: usize = 0;
        let mut i: usize = 0;
        assert(slot_views(slots@) =~= target.take(0));
        while i < self.records.len()
            invariant
                i <= self.records@.len(),
                records == record_views(self.records@),
                target == initial_slots(records),
                slot_views(slots@) == target.take(i as int),
                pending == unfilled(target.take(i as int)),
                pending <= i,
            decreases self.records@.len() - i,
        {
            let ghost before = slot_views(slots@);
            proof {
                let next = target.take(i + 1);
                assert(next.drop_last() == target.take(i as int));
                assert(next.last() == target[i as int]);
            }
            if self.records[i].failed {
                let r = InstanceResult::of_failed_strategy(i, &self.records[i]);
                slots.push(Some(r));
            } else {
                slots.push(None);
                pending += 1;
            }
            assert(slot_views(slots@) =~= before.push(target[i as int]));
            assert(before.push(target[i as int]) == target.take(i + 1));
            i += 1;
        }
        assert(target.take(self.records@.len() as int) == target);
        self.slots = slots;
        self.pending = pending;
        self.phase = if pending == 0 {
            Phase::Done
        } else {
            Phase::Implementing
        };
    }

    /// Ends the collection of strategies.
    fn finish_collection(&mut self)
        requires
            old(self).slots@.len() == 0,
            !old(self).aborted,
            !old(self).dry_run,
            old(self).pending == 0,
        ensures
            final(self)@ == collected(old(self)@),
            final(self).well_formed(),
    {
        if self.interactive {
            self.phase = Phase::ReviewingStrategies;
            assert(self@.slots =~= old(self)@.slots);
            assert(unfilled(self@.slots) == 0);
        } else {
            self.start();
        }
    }

    /// A run of `n` instances on the task `prompt`. A dry run sends nothing
    /// and is over at once; an interactive run has its strategies reviewed.
    pub fn new(prompt: &str, n: usize, dry_run: bool, interactive: bool) -> (r: Self)
        ensures
            r@ == created(prompt@, n as nat, dry_run, interactive),
            r.well_formed(),
            consistent(r@),
    {
        let mut c = Conductor {
            task: prompt.to_owned(),
            n,
            dry_run,
            interactive,
            phase: Phase::CollectingStrategies,
            records: Vec::new(),
            slots: Vec::new(),
            pending: 0,
            aborted: false,
        };
        assert(c@.records =~= Seq::<RecordView>::empty());
        assert(c@.slots =~= Seq::<Option<ResultView>>::empty());
        if dry_run {
            let mut i: usize = 0;
            while i < n
                invariant
                    i <= n,
                    c.task@ == prompt@,
                    c.n == n,
                    c.dry_run == dry_run,
                    c.interactive == interactive,
                    !c.aborted,
                    c.pending == 0,
                    c.slots@.len() == i,
                    c.records@.len() == i,
                    record_views(c.records@) == dry_records(prompt@, i as nat),
                    slot_views(c.slots@) == dry_slots(dry_records(prompt@, i as nat)),
                decreases n - i,
            {
                let ghost before = record_views(c.records@);
                let ghost filled = slot_views(c.slots@);
                let existing = exclusion_set(&c.records, None);
                let text = build_strategy_prompt(prompt, existing.as_slice());
                let record = StrategyRecord::placeholder(i, text);
                let result = InstanceResult::of_dry_run(i, &record);
                let ghost added = record@;
                let ghost given = result@;
                c.records.push(record);
                c.slots.push(Some(result));
                proof {
                    assert(record_views(c.records@) =~= before.push(added));
                    let now = dry_records(prompt@, (i + 1) as nat);
                    assert(now == before.push(added));
                    assert(slot_views(c.slots@) =~= filled.push(Some(given)));
                    assert forall|j: int| 0 <= j < i + 1 implies dry_slots(now)[j] == filled.push(
                        Some(given),
                    )[j] by {
                        if j < i {
                            assert(now[j] == before[j]);
                            assert(filled[j] == dry_slots(before)[j]);
                        }
                    }
                    assert(slot_views(c.slots@) =~= dry_slots(now));
                }
                i += 1;
            }
            c.phase = Phase::Done;
            proof {
                lemma_unfilled_zero(slot_views(c.slots@));
            }
        } else if n == 0 {
            c.finish_collection();
        }
        c
    }

    /// Where the run stands.
    pub fn phase(&self) -> (r: Phase)
        ensures
            r == self@.phase,
    {
        self.phase
    }

    /// Whether the operator quit the run in the review.
    pub fn was_aborted(&self) -> (r: bool)
        ensures
            r == self@.aborted,
    {
        self.aborted
    }

    /// The records of the strategies that are in.
    pub fn records(&self) -> (r: &Vec<StrategyRecord>)
        ensures
            record_views(r@) == self@.records,
    {
        &self.records
    }

    /// What to send to ask the next instance for its strategy, while
    /// strategies are collected. The strategies to differ from are those of
    /// the records so far that have not failed, and no others.
    pub fn next_elicitation(&self) -> (r: Option<ElicitationRequest>)
        ensures
            r is Some <==> self@.phase == Phase::CollectingStrategies,
            r matches Some(req) ==> {
                &&& req.index == self@.records.len()
                &&& texts(req.exclusions@) == accepted(self@.records)
                &&& req.prompt@ == strategy_prompt(self@.task, accepted(self@.records))
            },
    {
        match self.phase {
            Phase::CollectingStrategies => {
                let exclusions = exclusion_set(&self.records, None);
                let prompt = build_strategy_prompt(self.task.as_str(), exclusions.as_slice());
                Some(ElicitationRequest { index: self.records.len(), exclusions, prompt })
            },
            _ => None,
        }
    }

    /// Takes the reply to the elicitation that was asked for last, or the
    /// reason why there is none.
    pub fn on_elicited(&mut self, reply: Result<String, String>)
        requires
            old(self).well_formed(),
        ensures
            final(self)@ == elicited(old(self)@, reply_view(reply)),
            final(self).well_formed(),
            consistent(final(self)@),
    {
        match self.phase {
            Phase::CollectingStrategies => {
                let ghost before = record_views(self.records@);
                let record = match reply {
                    Ok(text) => StrategyRecord::elicited(text),
                    Err(why) => StrategyRecord::failure(EXTRACTION_FAILED, why.as_str()),
                };
                let ghost added = record@;
                self.records.push(record);
                assert(record_views(self.records@) =~= before.push(added));
                assert(self@.slots =~= old(self)@.slots);
                if self.records.len() >= self.n {
                    self.finish_collection();
                } else {
                    assert(unfilled(self@.slots) == 0);
                }
            },
            _ => {},
        }
    }

    /// Takes the records that the review gave back. No records mean that
    /// the operator quit.
    pub fn on_reviewed(&mut self, records: Vec<StrategyRecord>)
        requires
            old(self).well_formed(),
        ensures
            final(self)@ == reviewed(old(self)@, record_views(records@)),
            final(self).well_formed(),
            consistent(final(self)@),
    {
        match self.phase {
            Phase::ReviewingStrategies => {
                if records.len() == 0 {
                    self.phase = Phase::Done;
                    self.records = Vec::new();
                    self.slots = Vec::new();
                    self.pending = 0;
                    self.aborted = true;
                    assert(self@.records =~= Seq::<RecordView>::empty());
                    assert(self@.slots =~= Seq::<Option<ResultView>>::empty());
                } else {
                    self.records = records;
                    self.start();
                }
            },
            _ => {},
        }
    }

    /// What to run for the instance `index`, if its slot is empty.
    pub fn job(&self, index: usize) -> (r: Option<ImplementationJob>)
        requires
            self.well_formed(),
        ensures
            r is Some <==> self@.phase == Phase::Implementing && index < self@.slots.len()
                && self@.slots[index as int] is None,
            r matches Some(job) ==> {
                &&& job.instance_id == index
                &&& job.strategy@ == self@.records[index as int].strategy.markdown
                &&& texts(job.exclusions@) == exclusions(self@.records, index as int)
                &&& job.prompt@ == implementation_prompt(
                    self@.task,
                    self@.records[index as int].strategy.markdown,
                    exclusions(self@.records, index as int),
                )
            },
    {
        match self.phase {
            Phase::Implementing => {
                if index < self.slots.len() && self.slots[index].is_none() {
                    Some(self.plan(index))
                } else {
                    None
                }
            },
            _ => None,
        }
    }

    /// The prompt and what goes with it for the instance `index`.
    fn plan(&self, index: usize) -> (job: ImplementationJob)
        requires
            index < self.records@.len(),
        ensures
            job.instance_id == index,
            job.strategy@ == self@.records[index as int].strategy.markdown,
            texts(job.exclusions@) == exclusions(self@.records, index as int),
            job.prompt@ == implementation_prompt(
                self@.task,
                self@.records[index as int].strategy.markdown,
                exclusions(self@.records, index as int),
            ),
    {
        let exclusions = exclusion_set(&self.records, Some(index));
        let strategy = self.records[index].strategy.markdown.clone();
        let prompt = build_implementation_prompt(
            self.task.as_str(),
            strategy.as_str(),
            exclusions.as_slice(),
        );
        ImplementationJob { instance_id: index, strategy, exclusions, prompt }
    }

    /// The prompt that the instance `index` would get for its
    /// implementation, whether or not it is run.
    pub fn implementation_prompt_for(&self, index: usize) -> (r: Option<String>)
        ensures
            r is Some <==> index < self@.records.len(),
            r matches Some(p) ==> p@ == implementation_prompt(
                self@.task,
                self@.records[index as int].strategy.markdown,
                exclusions(self@.records, index as int),
            ),
    {
        if index < self.records.len() {
            Some(self.plan(index).prompt)
        } else {
            None
        }
    }

    /// Takes the outcome of the task of the instance `index`.
    pub fn on_finished(&mut self, index: usize, outcome: TaskOutcome)
        requires
            old(self).well_formed(),
        ensures
            final(self)@ == finished(old(self)@, index as nat, outcome@),
            final(self).well_formed(),
            consistent(final(self)@),
    {
        match self.phase {
            Phase::Implementing => {
                if index < self.slots.len() && self.slots[index].is_none() {
                    let ghost before = slot_views(self.slots@);
                    let result = InstanceResult::of_outcome(index, &self.records[index], &outcome);
                    let ghost added = result@;
                    self.slots.set(index, Some(result));
                    proof {
                        assert(slot_views(self.slots@) =~= before.update(index as int, Some(added)));
                        lemma_unfilled_update(before, index as int, added);
                    }
                    self.pending = self.pending - 1;
                    if self.pending == 0 {
                        self.phase = Phase::Done;
                    }
                }
            },
            _ => {},
        }
    }

    /// The results of a run that is over, by instance; none before that.
    pub fn results(&self) -> (r: Option<Vec<InstanceResult>>)
        requires
            self.well_formed(),
        ensures
            r is Some <==> self@.phase == Phase::Done,
            r matches Some(v) ==> result_views(v@) == results_of(self@),
    {
        match self.phase {
            Phase::Done => {
                proof {
                    lemma_unfilled_zero(slot_views(self.slots@));
                }
                let mut out: Vec<InstanceResult> = Vec::new();
                let mut i: usize = 0;
                while i < self.slots.len()
                    invariant
                        i <= self.slots@.len(),
                        out@.len() == i,
                        forall|j: int|
                            0 <= j < self.slots@.len() ==> (#[trigger] slot_views(
                                self.slots@,
                            )[j]) is Some,
                        forall|j: int| 0 <= j < i ==> Some(out@[j]@) == slot_views(self.slots@)[j],
                    decreases self.slots@.len() - i,
                {
                    assert(slot_views(self.slots@)[i as int] is Some);
                    match &self.slots[i] {
                        Some(r) => {
                            out.push(r.clone());
                        },
                        None => {},
                    }
                    i += 1;
                }
                assert(result_views(out@) =~= results_of(self@));
                Some(out)
            },
            _ => None,
        }
    }
}

/// Number of results that are successes.
pub open spec fn successes(results: Seq<ResultView>) -> nat
    decreases results.len(),
{
    if results.len() == 0 {
        0
    } else {
        successes(results.drop_last()) + if results.last().success {
            1nat
        } else {
            0nat
        }
    }
}

/// How many of `results` succeeded and how many failed.
pub fn summarize(results: &[InstanceResult]) -> (r: (usize, usize))
    ensures
        r.0 == successes(result_views(results@)),
        r.0 + r.1 == results@.len(),
{
    let ghost all = result_views(results@);
    let mut succeeded: usize = 0;
    let mut failed: usize = 0;
    let mut i: usize = 0;
    assert(all.take(0).len() == 0);
    while i < results.len()
        invariant
            i <= results@.len(),
            all == result_views(results@),
            succeeded == successes(all.take(i as int)),
            succeeded + failed == i,
        decreases results@.len() - i,
    {
        proof {
            let next = all.take(i + 1);
            assert(next.drop_last() == all.take(i as int));
            assert(next.last() == results@[i as int]@);
        }
        if results[i].success {
            succeeded += 1;
        } else {
            failed += 1;
        }
        i += 1;
    }
    assert(all.take(results@.len() as int) == all);
    (succeeded, failed)
}

/// `s` as a log line shows it: cut to fit `max_len` characters.
pub fn truncate_for_log(s: &str, max_len: usize) -> (r: String)
    ensures
        r@ == crate::text::truncated(s@, max_len as nat),
{
    crate::text::truncate(s, max_len)
}

} // verus!
