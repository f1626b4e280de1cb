//! Whole runs: what the conductor has come to after a series of replies and
//! of finished tasks, and what holds of every such run.

use crate::conductor::{
    collected, consistent, created, elicited, finished, initial_slots, lemma_unfilled_update,
    lemma_unfilled_zero, reply_record, results_of, unfilled, ConductorView, Phase,
};
use crate::outcome::{instance_result, OutcomeView, ResultView};
use crate::record::{accepted, lemma_exclusions_exact, RecordView};
use crate::strategy::{parsed, strategy_text};
use vstd::prelude::*;

verus! {

/// The run `c` after the replies `replies` came in, in their order.
pub open spec fn collecting(c: ConductorView, replies: Seq<Result<Seq<char>, Seq<char>>>) -> ConductorView
    decreases replies.len(),
{
    if replies.len() == 0 {
        c
    } else {
        elicited(collecting(c, replies.drop_last()), replies.last())
    }
}

/// The record of each reply, in their order.
pub open spec fn reply_records(replies: Seq<Result<Seq<char>, Seq<char>>>) -> Seq<RecordView> {
    Seq::new(replies.len(), |k: int| reply_record(replies[k]))
}

/// The run `c` after the tasks of the instances in `order` ended, in that
/// order, the task of the instance `i` with `outcomes[i]`.
pub open spec fn reporting(c: ConductorView, order: Seq<nat>, outcomes: Seq<OutcomeView>) -> ConductorView
    decreases order.len(),
{
    if order.len() == 0 {
        c
    } else {
        finished(
            reporting(c, order.drop_last(), outcomes),
            order.last(),
            outcomes[order.last() as int],
        )
    }
}

/// While replies are missing, a run that is not dry collects: it holds the
/// record of each reply so far, in their order, and no slot. With the last
/// reply the collection ends.
pub proof fn lemma_collecting(
    task: Seq<char>,
    n: nat,
    interactive: bool,
    replies: Seq<Result<Seq<char>, Seq<char>>>,
)
    requires
        n >= 1,
        replies.len() <= n,
    ensures
        ({
            let c = collecting(created(task, n, false, interactive), replies);
            let held = ConductorView { records: reply_records(replies), ..created(task, n, false, interactive) };
            if replies.len() < n {
                c == held
            } else {
                c == collected(held)
            }
        }),
    decreases replies.len(),
{
    let c0 = created(task, n, false, interactive);
    if replies.len() == 0 {
        assert(reply_records(replies) =~= c0.records);
    } else {
        let init = replies.drop_last();
        lemma_collecting(task, n, interactive, init);
        let before = collecting(c0, init);
        assert(before.records.push(reply_record(replies.last())) =~= reply_records(replies));
    }
}

/// The strategies that the elicitation after the replies `replies` must
/// differ from are exactly those that the replies so far gave, the failed
/// ones left out; the first elicitation has none to differ from.
pub proof fn lemma_elicitation_excludes_earlier_strategies(
    task: Seq<char>,
    n: nat,
    interactive: bool,
    replies: Seq<Result<Seq<char>, Seq<char>>>,
)
    requires
        replies.len() < n,
    ensures
        ({
            let c = collecting(created(task, n, false, interactive), replies);
            &&& c.phase == Phase::CollectingStrategies
            &&& c.records == reply_records(replies)
            &&& replies.len() == 0 ==> accepted(c.records).len() == 0
            &&& forall|m: Seq<char>| #[trigger]
                accepted(c.records).contains(m) <==> exists|j: int|
                    0 <= j < replies.len() && replies[j] is Ok && #[trigger] parsed(
                        strategy_text(replies[j]->Ok_0),
                    ).markdown == m
        }),
{
    lemma_collecting(task, n, interactive, replies);
    let c = collecting(created(task, n, false, interactive), replies);
    let records = c.records;
    lemma_exclusions_exact(records, -1);
    assert forall|m: Seq<char>| #[trigger]
        accepted(records).contains(m) <==> exists|j: int|
            0 <= j < replies.len() && replies[j] is Ok && #[trigger] parsed(
                strategy_text(replies[j]->Ok_0),
            ).markdown == m by {
        if accepted(records).contains(m) {
            let j = choose|j: int|
                0 <= j < records.len() && j != -1 && !records[j].failed
                    && #[trigger] records[j].strategy.markdown == m;
            assert(replies[j] is Ok);
            assert(parsed(strategy_text(replies[j]->Ok_0)).markdown == m);
        }
        if exists|j: int|
            0 <= j < replies.len() && replies[j] is Ok && #[trigger] parsed(
                strategy_text(replies[j]->Ok_0),
            ).markdown == m {
            let j = choose|j: int|
                0 <= j < replies.len() && replies[j] is Ok && #[trigger] parsed(
                    strategy_text(replies[j]->Ok_0),
                ).markdown == m;
            assert(!records[j].failed);
            assert(records[j].strategy.markdown == m);
        }
    }
}

/// The slots of the records `records` once the tasks of the instances in
/// `done` have ended.
pub open spec fn slots_after(records: Seq<RecordView>, done: Seq<nat>, outcomes: Seq<OutcomeView>) -> Seq<
    Option<ResultView>,
> {
    Seq::new(
        records.len(),
        |i: int|
            if records[i].failed || done.contains(i as nat) {
                Some(instance_result(i as nat, records[i], outcomes[i]))
            } else {
                None
            },
    )
}

/// Whether `order` names each instance whose strategy was had once, and no
/// other.
pub open spec fn names_each_task_once(records: Seq<RecordView>, order: Seq<nat>) -> bool {
    &&& order.no_duplicates()
    &&& forall|k: int| 0 <= k < order.len() ==> #[trigger] order[k] < records.len() && !records[order[k] as int].failed
    &&& order.len() == unfilled(initial_slots(records))
}

/// While tasks are running, the run holds the result of each task that has
/// ended and of each instance whose strategy failed, and one empty slot for
/// each of the others.
pub proof fn lemma_reporting(
    c: ConductorView,
    order: Seq<nat>,
    outcomes: Seq<OutcomeView>,
    k: int,
)
    requires
        c.phase == Phase::Implementing,
        consistent(c),
        c.slots == initial_slots(c.records),
        names_each_task_once(c.records, order),
        0 <= k <= order.len(),
    ensures
        ({
            let after = reporting(c, order.take(k), outcomes);
            &&& after.slots == slots_after(c.records, order.take(k), outcomes)
            &&& unfilled(after.slots) == order.len() - k
            &&& after == ConductorView {
                slots: after.slots,
                phase: if k < order.len() {
                    Phase::Implementing
                } else {
                    Phase::Done
                },
                ..c
            }
        }),
    decreases k,
{
    let records = c.records;
    if k == 0 {
        let none = order.take(0);
        assert(none.len() == 0);
        assert(slots_after(records, none, outcomes) =~= initial_slots(records));
    } else {
        lemma_reporting(c, order, outcomes, k - 1);
        let done = order.take(k - 1);
        let next = order.take(k);
        let index = order[k - 1];
        assert(next.drop_last() == done);
        assert(next.last() == index);
        let before = reporting(c, done, outcomes);
        assert(!done.contains(index)) by {
            if done.contains(index) {
                let j = choose|j: int| 0 <= j < done.len() && done[j] == index;
                assert(order[j] == order[k - 1]);
            }
        }
        assert(before.slots[index as int] is None);
        let r = instance_result(index, records[index as int], outcomes[index as int]);
        lemma_unfilled_update(before.slots, index as int, r);
        let slots = before.slots.update(index as int, Some(r));
        assert(slots =~= slots_after(records, next, outcomes)) by {
            assert forall|i: int| 0 <= i < records.len() implies slots[i] == slots_after(
                records,
                next,
                outcomes,
            )[i] by {
                if i == index {
                    assert(next[k - 1] == index);
                } else {
                    if done.contains(i as nat) {
                        let j = choose|j: int| 0 <= j < done.len() && done[j] == i as nat;
                        assert(next[j] == i as nat);
                    }
                    if next.contains(i as nat) {
                        let j = choose|j: int| 0 <= j < next.len() && next[j] == i as nat;
                        assert(j < k - 1);
                        assert(done[j] == i as nat);
                    }
                }
            }
        }
    }
}

/// Once every task has ended, the run is over and holds one result for each
/// record, at the record's index: the result that the record and the
/// outcome of its task give. The order in which the tasks ended does not
/// show.
pub proof fn lemma_results_by_instance(c: ConductorView, order: Seq<nat>, outcomes: Seq<OutcomeView>)
    requires
        c.phase == Phase::Implementing,
        consistent(c),
        c.slots == initial_slots(c.records),
        names_each_task_once(c.records, order),
    ensures
        ({
            let end = reporting(c, order, outcomes);
            &&& end == ConductorView { slots: end.slots, phase: Phase::Done, ..c }
            &&& results_of(end).len() == c.records.len()
            &&& forall|i: int|
                0 <= i < c.records.len() ==> #[trigger] results_of(end)[i] == instance_result(
                    i as nat,
                    c.records[i],
                    outcomes[i],
                )
        }),
{
    lemma_reporting(c, order, outcomes, order.len() as int);
    assert(order.take(order.len() as int) == order);
    let end = reporting(c, order, outcomes);
    lemma_unfilled_zero(end.slots);
    assert forall|i: int| 0 <= i < c.records.len() implies #[trigger] results_of(end)[i]
        == instance_result(i as nat, c.records[i], outcomes[i]) by {
        assert(end.slots[i] is Some);
    }
}

/// No slot of records that have not failed is filled at the start.
pub proof fn lemma_all_slots_empty(records: Seq<RecordView>)
    requires
        forall|i: int| 0 <= i < records.len() ==> !(#[trigger] records[i]).failed,
    ensures
        unfilled(initial_slots(records)) == records.len(),
    decreases records.len(),
{
    if records.len() > 0 {
        let init = records.drop_last();
        assert forall|i: int| 0 <= i < init.len() implies !(#[trigger] init[i]).failed by {
            assert(init[i] == records[i]);
        }
        lemma_all_slots_empty(init);
        assert(initial_slots(records).drop_last() =~= initial_slots(init));
    }
}

/// Each of `replies` as the reply that an elicitation gave.
pub open spec fn all_given(replies: Seq<Seq<char>>) -> Seq<Result<Seq<char>, Seq<char>>> {
    Seq::new(replies.len(), |k: int| Ok::<Seq<char>, Seq<char>>(replies[k]))
}

/// A run of `n` instances, `n` at least 1, without review, in which every
/// elicitation gave a reply and every session succeeded, gives `n` results:
/// one for each instance, at the instance's index, each a success with the
/// strategy that the instance's reply gave. The order in which the sessions
/// ended does not show.
pub proof fn lemma_successful_run(
    task: Seq<char>,
    n: nat,
    replies: Seq<Seq<char>>,
    order: Seq<nat>,
    outcomes: Seq<OutcomeView>,
)
    requires
        n >= 1,
        replies.len() == n,
        order.len() == n,
        order.no_duplicates(),
        forall|k: int| 0 <= k < n ==> #[trigger] order[k] < n,
        outcomes.len() == n,
        forall|i: int|
            0 <= i < n ==> (#[trigger] outcomes[i] matches OutcomeView::Completed { success, .. }
                && success),
    ensures
        ({
            let end = reporting(
                collecting(created(task, n, false, false), all_given(replies)),
                order,
                outcomes,
            );
            &&& end.phase == Phase::Done
            &&& !end.aborted
            &&& results_of(end).len() == n
            &&& forall|i: int|
                0 <= i < n ==> {
                    &&& (#[trigger] results_of(end)[i]).instance_id == i
                    &&& results_of(end)[i].success
                    &&& results_of(end)[i].error is None
                    &&& results_of(end)[i].strategy == strategy_text(replies[i])
                }
        }),
{
    let given = all_given(replies);
    lemma_collecting(task, n, false, given);
    let records = reply_records(given);
    let c = collecting(created(task, n, false, false), given);
    lemma_all_slots_empty(records);
    assert(c.phase == Phase::Implementing);
    assert(names_each_task_once(c.records, order));
    lemma_results_by_instance(c, order, outcomes);
    let end = reporting(c, order, outcomes);
    assert forall|i: int| 0 <= i < n implies {
        &&& (#[trigger] results_of(end)[i]).instance_id == i
        &&& results_of(end)[i].success
        &&& results_of(end)[i].error is None
        &&& results_of(end)[i].strategy == strategy_text(replies[i])
    } by {
        assert(results_of(end)[i] == instance_result(i as nat, c.records[i], outcomes[i]));
        assert(c.records[i] == reply_record(given[i]));
        assert(outcomes[i] is Completed);
    }
}

} // verus!
