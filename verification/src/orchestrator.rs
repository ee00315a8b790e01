//! The orchestrator: the decisions of a run, as a machine that is told what
//! each collaborator answered and says what to ask next.
//!
//! The machine performs no side effect itself. Its caller carries out each
//! `Action` against the store, the scraper or the notifier and hands the
//! answer back as an `Event`. A failed read of either snapshot ends the run;
//! a failed notice or write is recorded and the run goes on.

use vstd::prelude::*;
use crate::effect::{
    effect_views, effects_of, error_views, failure_of, plan, Effect, EffectView, ItemError,
    ItemErrorView,
};
use crate::item::{views, CatalogItem, Equality, ItemView};
use crate::notice::{
    scan_failure_message, scan_failure_text, scrape_failure_message, scrape_failure_text,
    summary_message, summary_text,
};
use crate::reconcile::{diff_of, Reconciler};

verus! {

/// A run that could not obtain one of its two snapshots.
#[derive(Debug, PartialEq)]
pub struct FetchError {
    /// What went wrong, for the caller.
    pub message: String,
    /// The identifier of the invocation, where the caller supplied one.
    pub request_id: Option<String>,
}

/// What a `FetchError` is, over plain sequences of characters.
pub struct FetchErrorView {
    pub message: Seq<char>,
    pub request_id: Option<Seq<char>>,
}

/// The characters of an optional text.
pub open spec fn text_of(text: Option<String>) -> Option<Seq<char>> {
    match text {
        Some(t) => Some(t@),
        None => None,
    }
}

impl View for FetchError {
    type V = FetchErrorView;

    open spec fn view(&self) -> FetchErrorView {
        FetchErrorView { message: self.message@, request_id: text_of(self.request_id) }
    }
}

/// The report of a run that reached its end.
#[derive(Debug, PartialEq)]
pub struct Summary {
    /// The keys of the current snapshot, as a message for the caller.
    pub message: String,
    /// The side effects that failed along the way, in the order of their
    /// attempt.
    pub recovered: Vec<ItemError>,
}

/// What a `Summary` is, over plain sequences of characters.
pub struct SummaryView {
    pub message: Seq<char>,
    pub recovered: Seq<ItemErrorView>,
}

impl View for Summary {
    type V = SummaryView;

    open spec fn view(&self) -> SummaryView {
        SummaryView { message: self.message@, recovered: error_views(self.recovered@) }
    }
}

/// What the caller is to do next.
#[derive(Debug, PartialEq)]
pub enum Action {
    /// Read the persisted snapshot and answer with `Event::Scanned`.
    Scan,
    /// Scrape the current snapshot and answer with `Event::Fetched`.
    Fetch,
    /// Attempt the effect and answer with `Event::Applied`.
    Apply(Effect),
    /// Stop: the run is over, with this outcome.
    Finish(Result<Summary, FetchError>),
}

/// What an `Action` is, over plain sequences of characters.
pub enum ActionView {
    Scan,
    Fetch,
    Apply(EffectView),
    Finish(Result<SummaryView, FetchErrorView>),
}

impl View for Action {
    type V = ActionView;

    open spec fn view(&self) -> ActionView {
        match self {
            Action::Scan => ActionView::Scan,
            Action::Fetch => ActionView::Fetch,
            Action::Apply(effect) => ActionView::Apply(effect@),
            Action::Finish(Ok(summary)) => ActionView::Finish(Ok(summary@)),
            Action::Finish(Err(error)) => ActionView::Finish(Err(error@)),
        }
    }
}

/// What a collaborator answered.
#[derive(Debug)]
pub enum Event {
    /// The store's answer to `Action::Scan`: the persisted snapshot, or why
    /// it could not be read.
    Scanned(Result<Vec<CatalogItem>, String>),
    /// The scraper's answer to `Action::Fetch`: the current snapshot, or why
    /// it could not be obtained.
    Fetched(Result<Vec<CatalogItem>, String>),
    /// The answer to `Action::Apply`: done, or why not.
    Applied(Result<(), String>),
}

/// What an `Event` is, over plain sequences of characters.
pub enum EventView {
    Scanned(Result<Seq<ItemView>, Seq<char>>),
    Fetched(Result<Seq<ItemView>, Seq<char>>),
    Applied(Result<(), Seq<char>>),
}

impl View for Event {
    type V = EventView;

    open spec fn view(&self) -> EventView {
        match self {
            Event::Scanned(Ok(items)) => EventView::Scanned(Ok(views(items@))),
            Event::Scanned(Err(detail)) => EventView::Scanned(Err(detail@)),
            Event::Fetched(Ok(items)) => EventView::Fetched(Ok(views(items@))),
            Event::Fetched(Err(detail)) => EventView::Fetched(Err(detail@)),
            Event::Applied(Ok(_)) => EventView::Applied(Ok(())),
            Event::Applied(Err(detail)) => EventView::Applied(Err(detail@)),
        }
    }
}

/// Where a run stands.
#[derive(Clone, Copy, Debug, PartialEq, Eq, Structural)]
pub enum Phase {
    /// The persisted snapshot has been asked for.
    AwaitingScan,
    /// The current snapshot has been asked for.
    AwaitingFetch,
    /// A side effect has been asked for.
    Applying,
    /// The run is over.
    Finished,
}

/// The state of a run.
pub struct RunState {
    /// The equality under which the snapshots are reconciled.
    pub policy: Equality,
    /// The identifier of the invocation, where there is one.
    pub request_id: Option<Seq<char>>,
    pub phase: Phase,
    /// The persisted snapshot, once scanned.
    pub previous: Seq<ItemView>,
    /// The scraped snapshot, once fetched.
    pub current: Seq<ItemView>,
    /// How many effects have been asked for so far.
    pub issued: nat,
    /// The effects that failed so far, in the order of their attempt.
    pub recovered: Seq<ItemErrorView>,
    /// Why the run stopped early, where it did.
    pub failure: Option<FetchErrorView>,
}

impl RunState {
    /// The effects that the two snapshots call for.
    pub open spec fn effects(self) -> Seq<EffectView> {
        effects_of(diff_of(self.policy, self.previous, self.current))
    }

    /// The outcome of the run, once it is over: the failure that stopped it,
    /// or else the summary of the current snapshot with the failures that
    /// were passed over.
    pub open spec fn outcome(self) -> Result<SummaryView, FetchErrorView> {
        match self.failure {
            Some(error) => Err(error),
            None => Ok(
                SummaryView { message: summary_text(self.current), recovered: self.recovered },
            ),
        }
    }

    /// The run stops with the diagnostic `message`.
    pub open spec fn failed(self, message: Seq<char>) -> RunState {
        RunState {
            phase: Phase::Finished,
            failure: Some(FetchErrorView { message, request_id: self.request_id }),
            ..self
        }
    }
}

/// The state in which a run starts: the persisted snapshot is being asked
/// for and nothing else is known.
pub open spec fn initial_state(policy: Equality, request_id: Option<Seq<char>>) -> RunState {
    RunState {
        policy,
        request_id,
        phase: Phase::AwaitingScan,
        previous: Seq::empty(),
        current: Seq::empty(),
        issued: 0,
        recovered: Seq::empty(),
        failure: None,
    }
}

/// The action that the run is waiting on in `state`.
pub open spec fn pending_action(state: RunState) -> ActionView {
    match state.phase {
        Phase::AwaitingScan => ActionView::Scan,
        Phase::AwaitingFetch => ActionView::Fetch,
        Phase::Applying => ActionView::Apply(state.effects()[state.issued - 1]),
        Phase::Finished => ActionView::Finish(state.outcome()),
    }
}

/// The state that follows `state` when `event` arrives.
///
/// A snapshot that could not be read ends the run at once. The second
/// snapshot starts the side effects, or ends the run where there are none.
/// The answer to a side effect, whatever it is, moves the run on to the next
/// effect, and a failure is recorded on the way. An event that does not
/// answer the pending action changes nothing.
pub open spec fn next_state(state: RunState, event: EventView) -> RunState {
    match (state.phase, event) {
        (Phase::AwaitingScan, EventView::Scanned(Ok(items))) => RunState {
            previous: items,
            phase: Phase::AwaitingFetch,
            ..state
        },
        (Phase::AwaitingScan, EventView::Scanned(Err(detail))) => state.failed(
            scan_failure_text(detail),
        ),
        (Phase::AwaitingFetch, EventView::Fetched(Ok(items))) => {
            let fetched = RunState { current: items, ..state };
            if fetched.effects().len() == 0 {
                RunState { phase: Phase::Finished, ..fetched }
            } else {
                RunState { phase: Phase::Applying, issued: 1, ..fetched }
            }
        },
        (Phase::AwaitingFetch, EventView::Fetched(Err(detail))) => state.failed(
            scrape_failure_text(detail),
        ),
        (Phase::Applying, EventView::Applied(reply)) => {
            let recovered = match reply {
                Ok(_) => state.recovered,
                Err(detail) => state.recovered.push(
                    failure_of(state.effects()[state.issued - 1], detail),
                ),
            };
            if state.issued >= state.effects().len() {
                RunState { phase: Phase::Finished, recovered, ..state }
            } else {
                RunState { issued: state.issued + 1, recovered, ..state }
            }
        },
        _ => state,
    }
}

/// The decisions of one run.
pub struct Orchestrator {
    reconciler: Reconciler,
    request_id: Option<String>,
    phase: Phase,
    previous: Vec<CatalogItem>,
    current: Vec<CatalogItem>,
    effects: Vec<Effect>,
    issued: usize,
    recovered: Vec<ItemError>,
    failure: Option<FetchError>,
}

impl View for Orchestrator {
    type V = RunState;

    closed spec fn view(&self) -> RunState {
        RunState {
            policy: self.reconciler.policy,
            request_id: text_of(self.request_id),
            phase: self.phase,
            previous: views(self.previous@),
            current: views(self.current@),
            issued: self.issued as nat,
            recovered: error_views(self.recovered@),
            failure: match self.failure {
                Some(error) => Some(error@),
                None => None,
            },
        }
    }
}

/// Copies an optional text.
fn copy_text(text: &Option<String>) -> (copy: Option<String>)
    ensures
        text_of(copy) == text_of(*text),
{
    match text {
        Some(t) => Some(t.clone()),
        None => None,
    }
}

/// Copies a list of recorded failures.
fn copy_errors(errors: &Vec<ItemError>) -> (copy: Vec<ItemError>)
    ensures
        error_views(copy@) == error_views(errors@),
{
    let mut copy: Vec<ItemError> = Vec::new();
    let mut i: usize = 0;
    while i < errors.len()
        invariant
            i <= errors.len(),
            copy.len() == i,
            forall|j: int| 0 <= j < i ==> (#[trigger] copy@[j])@ == errors@[j]@,
        decreases errors.len() - i,
    {
        copy.push(errors[i].clone());
        i += 1;
    }
    proof {
        assert(error_views(copy@) =~= error_views(errors@));
    }
    copy
}

impl Orchestrator {
    /// The invariant of the machine: while side effects are under way, the
    /// list it walks is the one that the two snapshots call for, and the
    /// effect last asked for is on it.
    #[verifier::type_invariant]
    spec fn wf(&self) -> bool {
        self.phase == Phase::Applying ==> {
            &&& effect_views(self.effects@) == self@.effects()
            &&& 1 <= self.issued <= self.effects.len()
        }
    }

    /// A run at its start, waiting for the persisted snapshot.
    pub fn new(policy: Equality, request_id: Option<String>) -> (machine: Orchestrator)
        ensures
            machine@ == initial_state(policy, text_of(request_id)),
    {
        let machine = Orchestrator {
            reconciler: Reconciler::new(policy),
            request_id,
            phase: Phase::AwaitingScan,
            previous: Vec::new(),
            current: Vec::new(),
            effects: Vec::new(),
            issued: 0,
            recovered: Vec::new(),
            failure: None,
        };
        proof {
            assert(views(machine.previous@) =~= Seq::<ItemView>::empty());
            assert(views(machine.current@) =~= Seq::<ItemView>::empty());
            assert(error_views(machine.recovered@) =~= Seq::<ItemErrorView>::empty());
        }
        machine
    }

    /// Where the run stands.
    pub fn phase(&self) -> (phase: Phase)
        ensures
            phase == self@.phase,
    {
        self.phase
    }

    /// The action that the run is waiting on.
    pub fn pending(&self) -> (action: Action)
        ensures
            action@ == pending_action(self@),
    {
        proof {
            use_type_invariant(self);
        }
        match self.phase {
            Phase::AwaitingScan => Action::Scan,
            Phase::AwaitingFetch => Action::Fetch,
            Phase::Applying => {
                proof {
                    assert(effect_views(self.effects@)[self.issued - 1] == self.effects@[self.issued
                        - 1]@);
                }
                Action::Apply(self.effects[self.issued - 1].clone())
            },
            Phase::Finished => match &self.failure {
                Some(error) => Action::Finish(
                    Err(
                        FetchError {
                            message: error.message.clone(),
                            request_id: copy_text(&error.request_id),
                        },
                    ),
                ),
                None => Action::Finish(
                    Ok(
                        Summary {
                            message: summary_message(self.current.as_slice()),
                            recovered: copy_errors(&self.recovered),
                        },
                    ),
                ),
            },
        }
    }

    /// Takes in what a collaborator answered; gives the machine in its next
    /// state and the action to carry out next.
    pub fn step(self, event: Event) -> (next: (Orchestrator, Action))
        ensures
            next.0@ == next_state(self@, event@),
            next.1@ == pending_action(next.0@),
    {
        proof {
            use_type_invariant(&self);
        }
        let Orchestrator {
            reconciler,
            request_id,
            phase,
            previous,
            current,
            effects,
            issued,
            recovered,
            failure,
        } = self;
        let machine = match (phase, event) {
            (Phase::AwaitingScan, Event::Scanned(Ok(items))) => Orchestrator {
                reconciler,
                request_id,
                phase: Phase::AwaitingFetch,
                previous: items,
                current,
                effects,
                issued,
                recovered,
                failure,
            },
            (Phase::AwaitingScan, Event::Scanned(Err(detail))) => {
                let stopped = FetchError {
                    message: scan_failure_message(detail.as_str()),
                    request_id: copy_text(&request_id),
                };
                Orchestrator {
                    reconciler,
                    request_id,
                    phase: Phase::Finished,
                    previous,
                    current,
                    effects,
                    issued,
                    recovered,
                    failure: Some(stopped),
                }
            },
            (Phase::AwaitingFetch, Event::Fetched(Ok(items))) => {
                let diff = reconciler.diff(previous.as_slice(), items.as_slice());
                let effects = plan(&diff);
                let none = effects.len() == 0;
                Orchestrator {
                    reconciler,
                    request_id,
                    phase: if none {
                        Phase::Finished
                    } else {
                        Phase::Applying
                    },
                    previous,
                    current: items,
                    effects,
                    issued: if none {
                        issued
                    } else {
                        1
                    },
                    recovered,
                    failure,
                }
            },
            (Phase::AwaitingFetch, Event::Fetched(Err(detail))) => {
                let stopped = FetchError {
                    message: scrape_failure_message(detail.as_str()),
                    request_id: copy_text(&request_id),
                };
                Orchestrator {
                    reconciler,
                    request_id,
                    phase: Phase::Finished,
                    previous,
                    current,
                    effects,
                    issued,
                    recovered,
                    failure: Some(stopped),
                }
            },
            (Phase::Applying, Event::Applied(reply)) => {
                proof {
                    assert(effect_views(effects@)[issued - 1] == effects@[issued - 1]@);
                }
                let mut recovered = recovered;
                match reply {
                    Ok(_) => {},
                    Err(detail) => {
                        let ghost earlier = error_views(recovered@);
                        let error = effects[issued - 1].failure(detail);
                        recovered.push(error);
                        proof {
                            assert(error_views(recovered@) =~= earlier.push(error@));
                        }
                    },
                }
                let last = issued >= effects.len();
                Orchestrator {
                    reconciler,
                    request_id,
                    phase: if last {
                        Phase::Finished
                    } else {
                        Phase::Applying
                    },
                    previous,
                    current,
                    effects,
                    issued: if last {
                        issued
                    } else {
                        issued + 1
                    },
                    recovered,
                    failure,
                }
            },
            (phase, _) => Orchestrator {
                reconciler,
                request_id,
                phase,
                previous,
                current,
                effects,
                issued,
                recovered,
                failure,
            },
        };
        let action = machine.pending();
        (machine, action)
    }
}

} // verus!
