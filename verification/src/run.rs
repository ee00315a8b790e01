//! Whole runs: what the orchestrator asks for over a sequence of events, and
//! the laws that hold of every run.

use vstd::prelude::*;
use crate::effect::{effects_of, failure_of, EffectView, ItemErrorView};
use crate::item::{Equality, ItemView};
use crate::notice::{scan_failure_text, scrape_failure_text, summary_text};
use crate::orchestrator::{
    initial_state, next_state, pending_action, ActionView, EventView, FetchErrorView, Phase,
    RunState, SummaryView,
};
use crate::reconcile::{diff_of, lemma_same_entries_give_empty_diff, same_entries};

verus! {

/// The state of a run that started in `state` and has taken in `events`.
pub open spec fn state_after(state: RunState, events: Seq<EventView>) -> RunState
    decreases events.len(),
{
    if events.len() == 0 {
        state
    } else {
        next_state(state_after(state, events.drop_last()), events.last())
    }
}

/// The actions that a run started in `state` asks for in answer to `events`,
/// one for each event.
pub open spec fn actions_after(state: RunState, events: Seq<EventView>) -> Seq<ActionView> {
    Seq::new(events.len(), |i: int| pending_action(state_after(state, events.take(i + 1))))
}

/// The events of a run in which both snapshots are read and side effect
/// number `i` is answered with `replies[i]`.
pub open spec fn full_run(
    previous: Seq<ItemView>,
    current: Seq<ItemView>,
    replies: Seq<Result<(), Seq<char>>>,
) -> Seq<EventView> {
    seq![EventView::Scanned(Ok(previous)), EventView::Fetched(Ok(current))] + replies.map_values(
        |reply: Result<(), Seq<char>>| EventView::Applied(reply),
    )
}

/// The events of a run whose scan fails with `detail`, followed by `later`.
pub open spec fn failed_scan_run(detail: Seq<char>, later: Seq<EventView>) -> Seq<EventView> {
    seq![EventView::Scanned(Err(detail))] + later
}

/// The events of a run that reads `previous` and whose scrape then fails with
/// `detail`, followed by `later`.
pub open spec fn failed_scrape_run(
    previous: Seq<ItemView>,
    detail: Seq<char>,
    later: Seq<EventView>,
) -> Seq<EventView> {
    seq![EventView::Scanned(Ok(previous)), EventView::Fetched(Err(detail))] + later
}

/// The failures recorded when effect number `i` of `effects` is answered with
/// `replies[i]`: one for each `Err`, in order.
pub open spec fn failures_among(
    effects: Seq<EffectView>,
    replies: Seq<Result<(), Seq<char>>>,
) -> Seq<ItemErrorView>
    decreases replies.len(),
{
    if replies.len() == 0 {
        Seq::empty()
    } else {
        let earlier = failures_among(effects, replies.drop_last());
        match replies.last() {
            Ok(_) => earlier,
            Err(detail) => earlier.push(failure_of(effects[replies.len() - 1], detail)),
        }
    }
}

/// Once a run is over, no event changes its state.
pub proof fn lemma_finished_run_stays_finished(state: RunState, events: Seq<EventView>)
    requires
        state.phase == Phase::Finished,
    ensures
        state_after(state, events) == state,
    decreases events.len(),
{
    if events.len() > 0 {
        lemma_finished_run_stays_finished(state, events.drop_last());
    }
}

/// Taking in `first` and then `second` is taking in their concatenation.
proof fn lemma_state_after_concat(state: RunState, first: Seq<EventView>, second: Seq<EventView>)
    ensures
        state_after(state, first + second) == state_after(state_after(state, first), second),
    decreases second.len(),
{
    if second.len() == 0 {
        assert(first + second =~= first);
    } else {
        lemma_state_after_concat(state, first, second.drop_last());
        assert((first + second).drop_last() =~= first + second.drop_last());
        assert((first + second).last() == second.last());
    }
}

/// A run whose scan fails asks for nothing but to stop: whatever events
/// follow, every action is `Finish` with the scan's diagnostic and the
/// invocation's identifier. No snapshot is scraped, no notice published, no
/// write made.
pub proof fn lemma_failed_scan_ends_run(
    policy: Equality,
    request_id: Option<Seq<char>>,
    detail: Seq<char>,
    later: Seq<EventView>,
)
    ensures
        forall|i: int|
            0 <= i < 1 + later.len() ==> #[trigger] actions_after(
                initial_state(policy, request_id),
                failed_scan_run(detail, later),
            )[i] == ActionView::Finish(
                Err(FetchErrorView { message: scan_failure_text(detail), request_id }),
            ),
{
    let start = initial_state(policy, request_id);
    let events = failed_scan_run(detail, later);
    let head = seq![EventView::Scanned(Err::<Seq<ItemView>, Seq<char>>(detail))];
    assert(head.drop_last() =~= Seq::<EventView>::empty());
    let stopped = state_after(start, head);
    assert(stopped == start.failed(scan_failure_text(detail))) by {
        assert(state_after(start, head.drop_last()) == start);
    }
    assert forall|i: int| 0 <= i < 1 + later.len() implies #[trigger] actions_after(start, events)[i]
        == ActionView::Finish(
        Err(FetchErrorView { message: scan_failure_text(detail), request_id }),
    ) by {
        assert(events.take(i + 1) =~= head + later.take(i));
        lemma_state_after_concat(start, head, later.take(i));
        lemma_finished_run_stays_finished(stopped, later.take(i));
    }
}

/// A run whose scrape fails asks for nothing after it but to stop: whatever
/// events follow, every action is `Finish` with the scrape's diagnostic and
/// the invocation's identifier. No notice is published and no write made.
pub proof fn lemma_failed_scrape_ends_run(
    policy: Equality,
    request_id: Option<Seq<char>>,
    previous: Seq<ItemView>,
    detail: Seq<char>,
    later: Seq<EventView>,
)
    ensures
        actions_after(
            initial_state(policy, request_id),
            failed_scrape_run(previous, detail, later),
        )[0] == ActionView::Fetch,
        forall|i: int|
            1 <= i < 2 + later.len() ==> #[trigger] actions_after(
                initial_state(policy, request_id),
                failed_scrape_run(previous, detail, later),
            )[i] == ActionView::Finish(
                Err(FetchErrorView { message: scrape_failure_text(detail), request_id }),
            ),
{
    let start = initial_state(policy, request_id);
    let scanned = EventView::Scanned(Ok::<Seq<ItemView>, Seq<char>>(previous));
    let failed = EventView::Fetched(Err::<Seq<ItemView>, Seq<char>>(detail));
    let head = seq![scanned, failed];
    let events = failed_scrape_run(previous, detail, later);
    assert(head.drop_last() =~= seq![scanned]);
    assert(seq![scanned].drop_last() =~= Seq::<EventView>::empty());
    assert(state_after(start, seq![scanned].drop_last()) == start);
    let waiting = state_after(start, seq![scanned]);
    assert(waiting.phase == Phase::AwaitingFetch);
    let stopped = state_after(start, head);
    assert(stopped == waiting.failed(scrape_failure_text(detail)));
    assert(events.take(1) =~= seq![scanned]);
    assert forall|i: int| 1 <= i < 2 + later.len() implies #[trigger] actions_after(start, events)[i]
        == ActionView::Finish(
        Err(FetchErrorView { message: scrape_failure_text(detail), request_id }),
    ) by {
        assert(events.take(i + 1) =~= head + later.take(i - 1));
        lemma_state_after_concat(start, head, later.take(i - 1));
        lemma_finished_run_stays_finished(stopped, later.take(i - 1));
    }
}

/// The state of a full run after its first `done` side effects were answered.
spec fn state_amid(
    policy: Equality,
    request_id: Option<Seq<char>>,
    previous: Seq<ItemView>,
    current: Seq<ItemView>,
    replies: Seq<Result<(), Seq<char>>>,
    done: int,
) -> RunState {
    let effects = effects_of(diff_of(policy, previous, current));
    RunState {
        policy,
        request_id,
        phase: if done < effects.len() {
            Phase::Applying
        } else {
            Phase::Finished
        },
        previous,
        current,
        issued: if done < effects.len() {
            (done + 1) as nat
        } else if done == 0 {
            0
        } else {
            done as nat
        },
        recovered: failures_among(effects, replies.take(done)),
        failure: None,
    }
}

/// Where a full run stands after `done` of its side effects were answered.
proof fn lemma_state_amid(
    policy: Equality,
    request_id: Option<Seq<char>>,
    previous: Seq<ItemView>,
    current: Seq<ItemView>,
    replies: Seq<Result<(), Seq<char>>>,
    done: int,
)
    requires
        0 <= done <= replies.len(),
        replies.len() == effects_of(diff_of(policy, previous, current)).len(),
    ensures
        state_after(
            initial_state(policy, request_id),
            full_run(previous, current, replies).take(2 + done),
        ) == state_amid(policy, request_id, previous, current, replies, done),
    decreases done,
{
    let start = initial_state(policy, request_id);
    let events = full_run(previous, current, replies);
    let effects = effects_of(diff_of(policy, previous, current));
    let prefix = events.take(2 + done);
    if done == 0 {
        let scanned = EventView::Scanned(Ok::<Seq<ItemView>, Seq<char>>(previous));
        assert(prefix.drop_last() =~= seq![scanned]);
        assert(seq![scanned].drop_last() =~= Seq::<EventView>::empty());
        assert(state_after(start, seq![scanned].drop_last()) == start);
        assert(replies.take(0) =~= Seq::<Result<(), Seq<char>>>::empty());
        let waiting = state_after(start, seq![scanned]);
        assert(waiting.phase == Phase::AwaitingFetch);
        assert(prefix.last() == EventView::Fetched(Ok::<Seq<ItemView>, Seq<char>>(current)));
    } else {
        lemma_state_amid(policy, request_id, previous, current, replies, done - 1);
        assert(prefix.drop_last() =~= events.take(2 + (done - 1)));
        assert(prefix.last() == EventView::Applied(replies[done - 1]));
        assert(replies.take(done).drop_last() =~= replies.take(done - 1));
        assert(replies.take(done).last() == replies[done - 1]);
    }
}

/// Every side effect that a diff calls for is attempted, in order, whatever
/// the earlier ones were answered with: after both snapshots were read, the
/// run asks for each effect of the diff in turn and then stops with the
/// summary of the current snapshot and the failures that were passed over.
/// A failed notice does not keep its item from being stored, and a failed
/// write does not keep the next item from being handled.
pub proof fn lemma_every_effect_is_attempted(
    policy: Equality,
    request_id: Option<Seq<char>>,
    previous: Seq<ItemView>,
    current: Seq<ItemView>,
    replies: Seq<Result<(), Seq<char>>>,
)
    requires
        replies.len() == effects_of(diff_of(policy, previous, current)).len(),
    ensures
        actions_after(initial_state(policy, request_id), full_run(previous, current, replies)).len()
            == 2 + replies.len(),
        actions_after(initial_state(policy, request_id), full_run(previous, current, replies))[0]
            == ActionView::Fetch,
        forall|i: int|
            0 <= i < replies.len() ==> #[trigger] actions_after(
                initial_state(policy, request_id),
                full_run(previous, current, replies),
            )[1 + i] == ActionView::Apply(effects_of(diff_of(policy, previous, current))[i]),
        actions_after(initial_state(policy, request_id), full_run(previous, current, replies))[replies.len() as int
            + 1] == ActionView::Finish(
            Ok(
                SummaryView {
                    message: summary_text(current),
                    recovered: failures_among(
                        effects_of(diff_of(policy, previous, current)),
                        replies,
                    ),
                },
            ),
        ),
{
    let start = initial_state(policy, request_id);
    let events = full_run(previous, current, replies);
    let effects = effects_of(diff_of(policy, previous, current));
    let actions = actions_after(start, events);
    let scanned = EventView::Scanned(Ok::<Seq<ItemView>, Seq<char>>(previous));
    assert(events.take(1) =~= seq![scanned]);
    assert(seq![scanned].drop_last() =~= Seq::<EventView>::empty());
    assert(state_after(start, seq![scanned].drop_last()) == start);
    assert(actions[0] == ActionView::Fetch);
    assert forall|i: int| 0 <= i < replies.len() implies #[trigger] actions[1 + i]
        == ActionView::Apply(effects[i]) by {
        lemma_state_amid(policy, request_id, previous, current, replies, i);
    }
    lemma_state_amid(policy, request_id, previous, current, replies, replies.len() as int);
    assert(replies.take(replies.len() as int) =~= replies);
}

/// A run whose scrape holds the same entries as the persisted snapshot asks
/// for no side effect: no notice is published and nothing is written.
pub proof fn lemma_unchanged_scrape_has_no_effects(
    policy: Equality,
    request_id: Option<Seq<char>>,
    previous: Seq<ItemView>,
    current: Seq<ItemView>,
)
    requires
        same_entries(policy, previous, current),
    ensures
        effects_of(diff_of(policy, previous, current)) == Seq::<EffectView>::empty(),
        actions_after(
            initial_state(policy, request_id),
            full_run(previous, current, Seq::empty()),
        ) == seq![
            ActionView::Fetch,
            ActionView::Finish(
                Ok(SummaryView { message: summary_text(current), recovered: Seq::empty() }),
            ),
        ],
{
    lemma_same_entries_give_empty_diff(policy, previous, current);
    assert(effects_of(diff_of(policy, previous, current)) =~= Seq::<EffectView>::empty());
    lemma_every_effect_is_attempted(policy, request_id, previous, current, Seq::empty());
    assert(actions_after(
        initial_state(policy, request_id),
        full_run(previous, current, Seq::empty()),
    ) =~= seq![
        ActionView::Fetch,
        ActionView::Finish(
            Ok(SummaryView { message: summary_text(current), recovered: Seq::empty() }),
        ),
    ]);
}

} // verus!
