//! The running machine and the rule by which it dispatches a trigger.

use vstd::prelude::*;
use crate::hooks::GlobalHook;
use crate::transition::{labels_comparable, table_of, Transition, TransitionView};

verus! {

/// The model of a machine: its table in declaration order, the relation of
/// its global hook, its current state and its store.
#[verifier::reject_recursive_types(Event)]
#[verifier::reject_recursive_types(State)]
#[verifier::reject_recursive_types(Store)]
pub struct MachineView<Event, State, Store> {
    pub table: Seq<TransitionView<Event, State, Store>>,
    pub global_hook: spec_fn(Store, State, Event, Store) -> bool,
    pub state: State,
    pub store: Store,
}

impl<Event: PartialEq, State: PartialEq, Store> MachineView<Event, State, Store> {
    /// Whether no record from index `from` on is a candidate for `event` in
    /// the current state.
    pub open spec fn no_candidate_from(self, event: Event, from: int) -> bool {
        forall|i: int|
            from <= i < self.table.len() ==> !(#[trigger] self.table[i]).is_candidate(
                event,
                self.state,
            )
    }

    /// Whether record `at` commits from `store`: its pre-hook leads from
    /// `store` to a store on which its guard passes, its post-hook leads on
    /// from there, and the global hook, told of the target state and the
    /// event, leads from there to `end`.
    pub open spec fn commits(self, at: int, event: Event, store: Store, end: Store) -> bool {
        let record = self.table[at];
        exists|tested: Store, settled: Store|
            {
                &&& #[trigger] (record.pre_hook)(store, tested)
                &&& (record.guard)(tested, true)
                &&& #[trigger] (record.post_hook)(tested, settled)
                &&& (self.global_hook)(settled, record.target, event, end)
            }
    }

    /// Whether record `at` is visited and declines from `store`: its
    /// pre-hook leads from `store` to `tested`, on which its guard fails.
    pub open spec fn declines(self, at: int, store: Store, tested: Store) -> bool {
        let record = self.table[at];
        (record.pre_hook)(store, tested) && (record.guard)(tested, false)
    }

    /// Whether a scan for `event` that stands before record `from`, with
    /// `store` in hand, may end in state `end_state` with store `end_store`.
    ///
    /// Records that are no candidates are passed over. A candidate is
    /// visited: its pre-hook runs, then its guard is asked. Where the guard
    /// passes the candidate commits and the scan ends; where it fails the
    /// scan goes on behind it with the store that the pre-hook left. A scan
    /// that runs off the table leaves the state as it was.
    pub open spec fn scan(
        self,
        event: Event,
        from: int,
        store: Store,
        end_state: State,
        end_store: Store,
    ) -> bool
        decreases self.table.len() - from,
    {
        if from < 0 || from >= self.table.len() {
            end_state == self.state && end_store == store
        } else if !self.table[from].is_candidate(event, self.state) {
            self.scan(event, from + 1, store, end_state, end_store)
        } else {
            ||| (end_state == self.table[from].target && self.commits(
                from,
                event,
                store,
                end_store,
            ))
            ||| exists|tested: Store|
                #[trigger] self.declines(from, store, tested) && self.scan(
                    event,
                    from + 1,
                    tested,
                    end_state,
                    end_store,
                )
        }
    }

    /// Whether dispatching `event` may turn this machine into `next`: the
    /// table and the global hook stay, and state and store are what a scan
    /// of the whole table ends in.
    pub open spec fn dispatches(self, event: Event, next: Self) -> bool {
        &&& next.table == self.table
        &&& next.global_hook == self.global_hook
        &&& self.scan(event, 0, self.store, next.state, next.store)
    }
}

/// A machine: a table of transitions, a current state, and the store that
/// guards read and hooks change.
#[verifier::reject_recursive_types(Event)]
#[verifier::reject_recursive_types(State)]
#[verifier::reject_recursive_types(Store)]
pub struct StateMachine<Event, State, Store> {
    pub(crate) global_hook: GlobalHook<Event, State, Store>,
    pub(crate) transitions: Vec<Transition<Event, State, Store>>,
    pub state: State,
    pub store: Store,
}

impl<Event, State, Store> View for StateMachine<Event, State, Store> {
    type V = MachineView<Event, State, Store>;

    open(crate) spec fn view(&self) -> MachineView<Event, State, Store> {
        MachineView {
            table: table_of(self.transitions@),
            global_hook: self.global_hook.effect(),
            state: self.state,
            store: self.store,
        }
    }
}

/// A scan that meets no candidate ends where it began.
pub proof fn lemma_scan_without_candidate<Event: PartialEq, State: PartialEq, Store>(
    machine: MachineView<Event, State, Store>,
    event: Event,
    from: int,
    store: Store,
    end_state: State,
    end_store: Store,
)
    requires
        0 <= from,
        machine.no_candidate_from(event, from),
        machine.scan(event, from, store, end_state, end_store),
    ensures
        end_state == machine.state,
        end_store == store,
    decreases machine.table.len() - from,
{
    if from < machine.table.len() {
        assert(!machine.table[from].is_candidate(event, machine.state));
        lemma_scan_without_candidate(machine, event, from + 1, store, end_state, end_store);
    }
}

impl<Event: PartialEq, State: Copy + PartialEq, Store> StateMachine<Event, State, Store> {
    /// The state that the machine is in.
    pub fn current_state(&self) -> (state: State)
        ensures
            state == self@.state,
    {
        self.state
    }

    /// The store as the last hook left it.
    pub fn current_store(&self) -> (store: &Store)
        ensures
            *store == self@.store,
    {
        &self.store
    }

    /// Dispatches `event`: scans the table in declaration order, visits each
    /// candidate, and commits the first whose guard passes.
    ///
    /// The machine that comes back has the same table and global hook. When
    /// no candidate commits the state is unchanged, and the store has seen
    /// the pre-hooks of the candidates that were visited and nothing else.
    /// No event is an error.
    #[must_use]
    pub fn trigger(self, event: Event) -> (next: Self)
        ensures
            next@.table == self@.table,
            next@.global_hook == self@.global_hook,
            labels_comparable::<Event, State>() ==> self@.dispatches(event, next@),
            labels_comparable::<Event, State>() && self@.no_candidate_from(event, 0) ==> next@
                == self@,
    {
        let ghost start = self@;
        let StateMachine { global_hook, transitions, state, store } = self;
        let mut state = state;
        let mut store = store;
        let mut at: usize = 0;
        assert(start.scan(event, transitions.len() as int, store, state, store));
        while at < transitions.len()
            invariant_except_break
                state == start.state,
                labels_comparable::<Event, State>() ==> forall|end_state: State, end_store: Store|
                    #[trigger] start.scan(event, at as int, store, end_state, end_store)
                        ==> start.scan(event, 0, start.store, end_state, end_store),
                labels_comparable::<Event, State>() && at == transitions.len() ==> start.scan(
                    event,
                    0,
                    start.store,
                    state,
                    store,
                ),
            invariant
                at <= transitions.len(),
                start.table == table_of(transitions@),
                start.global_hook == global_hook.effect(),
            ensures
                labels_comparable::<Event, State>() ==> start.scan(
                    event,
                    0,
                    start.store,
                    state,
                    store,
                ),
            decreases transitions.len() - at,
        {
            let record = &transitions[at];
            let ghost before = store;
            if record.is_candidate(&event, &state) {
                store = record.pre_hook.run(store);
                let ghost tested = store;
                if record.guard.check(&store) {
                    store = record.post_hook.run(store);
                    let ghost settled = store;
                    state = record.target;
                    store = global_hook.run(store, &state, &event);
                    proof {
                        if labels_comparable::<Event, State>() {
                            assert((record@.pre_hook)(before, tested));
                            assert((record@.post_hook)(tested, settled));
                            assert(start.scan(event, at as int, before, state, store));
                        }
                    }
                    break ;
                }
                proof {
                    if labels_comparable::<Event, State>() {
                        assert(start.declines(at as int, before, tested));
                        assert forall|end_state: State, end_store: Store| #[trigger]
                            start.scan(
                                event,
                                at + 1,
                                tested,
                                end_state,
                                end_store,
                            ) implies start.scan(event, 0, start.store, end_state, end_store) by {
                            assert(start.scan(event, at as int, before, end_state, end_store));
                        }
                    }
                }
            } else {
                proof {
                    if labels_comparable::<Event, State>() {
                        assert forall|end_state: State, end_store: Store| #[trigger]
                            start.scan(
                                event,
                                at + 1,
                                before,
                                end_state,
                                end_store,
                            ) implies start.scan(event, 0, start.store, end_state, end_store) by {
                            assert(start.scan(event, at as int, before, end_state, end_store));
                        }
                    }
                }
            }
            at += 1;
            assert(start.scan(event, transitions.len() as int, store, state, store));
        }
        let next = StateMachine { global_hook, transitions, state, store };
        proof {
            if labels_comparable::<Event, State>() && start.no_candidate_from(event, 0) {
                lemma_scan_without_candidate(start, event, 0, start.store, state, store);
            }
        }
        next
    }
}

} // verus!
