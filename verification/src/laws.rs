//! What holds of every machine, proved from the dispatch rule.

use vstd::prelude::*;
use crate::builder::BuilderView;
use crate::hooks::{global_is_function, guard_is_function, hook_is_function};
use crate::machine::MachineView;
use crate::transition::TransitionView;

verus! {

impl<Event: PartialEq, State: PartialEq, Store> MachineView<Event, State, Store> {
    /// Whether every guard and hook of the machine computes a function of
    /// what it is handed.
    pub open spec fn is_deterministic(self) -> bool {
        &&& global_is_function(self.global_hook)
        &&& forall|i: int|
            0 <= i < self.table.len() ==> {
                &&& hook_is_function((#[trigger] self.table[i]).pre_hook)
                &&& guard_is_function(self.table[i].guard)
                &&& hook_is_function(self.table[i].post_hook)
            }
    }

    /// Whether dispatching `events` one after the other, first to last, may
    /// turn this machine into `end`.
    pub open spec fn replays(self, events: Seq<Event>, end: Self) -> bool
        decreases events.len(),
    {
        if events.len() == 0 {
            end == self
        } else {
            exists|mid: Self|
                #[trigger] self.dispatches(events[0], mid) && mid.replays(
                    events.drop_first(),
                    end,
                )
        }
    }
}

/// A scan passes over a stretch of records that holds no candidate without
/// any effect.
pub proof fn lemma_scan_skips<Event: PartialEq, State: PartialEq, Store>(
    machine: MachineView<Event, State, Store>,
    event: Event,
    from: int,
    to: int,
    store: Store,
    end_state: State,
    end_store: Store,
)
    requires
        0 <= from <= to <= machine.table.len(),
        forall|i: int|
            from <= i < to ==> !(#[trigger] machine.table[i]).is_candidate(event, machine.state),
        machine.scan(event, from, store, end_state, end_store),
    ensures
        machine.scan(event, to, store, end_state, end_store),
    decreases to - from,
{
    if from < to {
        assert(!machine.table[from].is_candidate(event, machine.state));
        lemma_scan_skips(machine, event, from + 1, to, store, end_state, end_store);
    }
}

/// A scan ends in the state it began in, or in the target of a candidate that
/// it came past.
pub proof fn lemma_scan_enters_declared_state<Event: PartialEq, State: PartialEq, Store>(
    machine: MachineView<Event, State, Store>,
    event: Event,
    from: int,
    store: Store,
    end_state: State,
    end_store: Store,
)
    requires
        0 <= from,
        machine.scan(event, from, store, end_state, end_store),
    ensures
        end_state == machine.state || exists|i: int|
            {
                &&& from <= i < machine.table.len()
                &&& (#[trigger] machine.table[i]).is_candidate(event, machine.state)
                &&& end_state == machine.table[i].target
            },
    decreases machine.table.len() - from,
{
    if from < machine.table.len() {
        if !machine.table[from].is_candidate(event, machine.state) {
            lemma_scan_enters_declared_state(
                machine,
                event,
                from + 1,
                store,
                end_state,
                end_store,
            );
        } else if end_state == machine.table[from].target {
        } else {
            let tested = choose|tested: Store|
                #[trigger] machine.declines(from, store, tested) && machine.scan(
                    event,
                    from + 1,
                    tested,
                    end_state,
                    end_store,
                );
            lemma_scan_enters_declared_state(
                machine,
                event,
                from + 1,
                tested,
                end_state,
                end_store,
            );
        }
    }
}

/// The engine introduces no state of its own: after a dispatch the machine
/// is in the state it was in, or in the target that a candidate declared.
pub proof fn lemma_dispatch_enters_declared_state<Event: PartialEq, State: PartialEq, Store>(
    machine: MachineView<Event, State, Store>,
    event: Event,
    next: MachineView<Event, State, Store>,
)
    requires
        machine.dispatches(event, next),
    ensures
        next.state == machine.state || exists|i: int|
            {
                &&& 0 <= i < machine.table.len()
                &&& (#[trigger] machine.table[i]).is_candidate(event, machine.state)
                &&& next.state == machine.table[i].target
            },
{
    lemma_scan_enters_declared_state(
        machine,
        event,
        0,
        machine.store,
        next.state,
        next.store,
    );
}

/// No match is inert: an event for which the current state has no candidate
/// leaves the machine as it is.
pub proof fn lemma_no_match_is_inert<Event: PartialEq, State: PartialEq, Store>(
    machine: MachineView<Event, State, Store>,
    event: Event,
    next: MachineView<Event, State, Store>,
)
    requires
        machine.no_candidate_from(event, 0),
        machine.dispatches(event, next),
    ensures
        next == machine,
{
    crate::machine::lemma_scan_without_candidate(
        machine,
        event,
        0,
        machine.store,
        next.state,
        next.store,
    );
}

/// The order within one commit: where the only candidate has a guard that
/// always passes, its pre-hook runs on the store as it was, the guard is
/// asked on what the pre-hook left, the post-hook runs on that, the state
/// becomes the target, and the global hook runs last, on what the post-hook
/// left and with the new state and the event.
pub proof fn lemma_commit_order<Event: PartialEq, State: PartialEq, Store>(
    machine: MachineView<Event, State, Store>,
    event: Event,
    at: int,
    next: MachineView<Event, State, Store>,
)
    requires
        0 <= at < machine.table.len(),
        forall|i: int|
            0 <= i < machine.table.len() ==> ((#[trigger] machine.table[i]).is_candidate(
                event,
                machine.state,
            ) <==> i == at),
        forall|store: Store| !(#[trigger] (machine.table[at].guard)(store, false)),
        machine.dispatches(event, next),
    ensures
        next.state == machine.table[at].target,
        exists|tested: Store, settled: Store|
            {
                &&& #[trigger] (machine.table[at].pre_hook)(machine.store, tested)
                &&& (machine.table[at].guard)(tested, true)
                &&& #[trigger] (machine.table[at].post_hook)(tested, settled)
                &&& (machine.global_hook)(settled, next.state, event, next.store)
            },
{
    lemma_scan_skips(machine, event, 0, at, machine.store, next.state, next.store);
    assert(machine.table[at].is_candidate(event, machine.state));
    assert(machine.commits(at, event, machine.store, next.store));
}

/// First match commits: where the first candidate's guard always fails and
/// the second candidate's guard always passes, the first candidate's
/// pre-hook runs and the first candidate does not commit; the second
/// candidate's pre-hook runs on what the first left, and the second
/// candidate commits from there.
pub proof fn lemma_first_match_commits<Event: PartialEq, State: PartialEq, Store>(
    machine: MachineView<Event, State, Store>,
    event: Event,
    first: int,
    second: int,
    next: MachineView<Event, State, Store>,
)
    requires
        0 <= first < second < machine.table.len(),
        forall|i: int|
            0 <= i <= second ==> ((#[trigger] machine.table[i]).is_candidate(
                event,
                machine.state,
            ) <==> i == first || i == second),
        forall|store: Store| !(#[trigger] (machine.table[first].guard)(store, true)),
        forall|store: Store| !(#[trigger] (machine.table[second].guard)(store, false)),
        machine.dispatches(event, next),
    ensures
        next.state == machine.table[second].target,
        exists|visited: Store|
            #[trigger] (machine.table[first].pre_hook)(machine.store, visited) && machine.commits(
                second,
                event,
                visited,
                next.store,
            ),
{
    lemma_scan_skips(machine, event, 0, first, machine.store, next.state, next.store);
    assert(machine.table[first].is_candidate(event, machine.state));
    assert(!machine.commits(first, event, machine.store, next.store));
    let visited = choose|visited: Store|
        #[trigger] machine.declines(first, machine.store, visited) && machine.scan(
            event,
            first + 1,
            visited,
            next.state,
            next.store,
        );
    lemma_scan_skips(machine, event, first + 1, second, visited, next.state, next.store);
    assert(machine.table[second].is_candidate(event, machine.state));
    assert(forall|tested: Store| !machine.declines(second, visited, tested));
    assert(machine.commits(second, event, visited, next.store));
}

/// Where every guard and hook computes a function, a scan has one outcome.
pub proof fn lemma_scan_deterministic<Event: PartialEq, State: PartialEq, Store>(
    machine: MachineView<Event, State, Store>,
    event: Event,
    from: int,
    store: Store,
    one: (State, Store),
    other: (State, Store),
)
    requires
        0 <= from,
        machine.is_deterministic(),
        machine.scan(event, from, store, one.0, one.1),
        machine.scan(event, from, store, other.0, other.1),
    ensures
        one == other,
    decreases machine.table.len() - from,
{
    if from < machine.table.len() {
        let record = machine.table[from];
        if !record.is_candidate(event, machine.state) {
            lemma_scan_deterministic(machine, event, from + 1, store, one, other);
        } else {
            let one_commits = machine.commits(from, event, store, one.1);
            let other_commits = machine.commits(from, event, store, other.1);
            let one_declines = exists|tested: Store|
                #[trigger] machine.declines(from, store, tested) && machine.scan(
                    event,
                    from + 1,
                    tested,
                    one.0,
                    one.1,
                );
            let other_declines = exists|tested: Store|
                #[trigger] machine.declines(from, store, tested) && machine.scan(
                    event,
                    from + 1,
                    tested,
                    other.0,
                    other.1,
                );
            assert(hook_is_function(record.pre_hook));
            assert(guard_is_function(record.guard));
            assert(hook_is_function(record.post_hook));
            if one_declines && other_declines {
                let left = choose|tested: Store|
                    #[trigger] machine.declines(from, store, tested) && machine.scan(
                        event,
                        from + 1,
                        tested,
                        one.0,
                        one.1,
                    );
                let right = choose|tested: Store|
                    #[trigger] machine.declines(from, store, tested) && machine.scan(
                        event,
                        from + 1,
                        tested,
                        other.0,
                        other.1,
                    );
                assert(left == right);
                lemma_scan_deterministic(machine, event, from + 1, left, one, other);
            } else if one_declines {
                assert(other_commits);
                assert(false);
            } else if other_declines {
                assert(one_commits);
                assert(false);
            } else {
                assert(one_commits && other_commits);
            }
        }
    }
}

/// Where every guard and hook computes a function, dispatching an event has
/// one outcome.
pub proof fn lemma_dispatch_deterministic<Event: PartialEq, State: PartialEq, Store>(
    machine: MachineView<Event, State, Store>,
    event: Event,
    one: MachineView<Event, State, Store>,
    other: MachineView<Event, State, Store>,
)
    requires
        machine.is_deterministic(),
        machine.dispatches(event, one),
        machine.dispatches(event, other),
    ensures
        one == other,
{
    lemma_scan_deterministic(
        machine,
        event,
        0,
        machine.store,
        (one.state, one.store),
        (other.state, other.store),
    );
}

/// Determinism: where every guard and hook computes a function, replaying
/// the same events from the same state and store ends in the same state and
/// store.
pub proof fn lemma_replay_deterministic<Event: PartialEq, State: PartialEq, Store>(
    machine: MachineView<Event, State, Store>,
    events: Seq<Event>,
    one: MachineView<Event, State, Store>,
    other: MachineView<Event, State, Store>,
)
    requires
        machine.is_deterministic(),
        machine.replays(events, one),
        machine.replays(events, other),
    ensures
        one == other,
    decreases events.len(),
{
    if events.len() > 0 {
        let left = choose|mid: MachineView<Event, State, Store>|
            #[trigger] machine.dispatches(events[0], mid) && mid.replays(
                events.drop_first(),
                one,
            );
        let right = choose|mid: MachineView<Event, State, Store>|
            #[trigger] machine.dispatches(events[0], mid) && mid.replays(
                events.drop_first(),
                other,
            );
        lemma_dispatch_deterministic(machine, events[0], left, right);
        lemma_replay_deterministic(left, events.drop_first(), one, other);
    }
}

/// Closed records stay: attaching a trigger leaves every record that was in
/// the table as it was, and a refinement leaves every record but the open
/// one as it was. Neither changes state, store or global hook.
pub proof fn lemma_closed_records_stay<Event: PartialEq, State: PartialEq, Store>(
    builder: BuilderView<Event, State, Store>,
    trigger: Event,
    record: TransitionView<Event, State, Store>,
)
    ensures
        builder.attach(trigger).machine.table.len() == builder.machine.table.len() + 1,
        forall|i: int|
            0 <= i < builder.machine.table.len() ==> #[trigger] builder.attach(
                trigger,
            ).machine.table[i] == builder.machine.table[i],
        builder.has_open_record() ==> {
            &&& builder.refine(record).machine.table.len() == builder.machine.table.len()
            &&& builder.refine(record).open_record() == record
            &&& forall|i: int|
                0 <= i < builder.machine.table.len() - 1 ==> #[trigger] builder.refine(
                    record,
                ).machine.table[i] == builder.machine.table[i]
        },
        builder.attach(trigger).machine.state == builder.machine.state,
        builder.attach(trigger).machine.store == builder.machine.store,
        builder.attach(trigger).machine.global_hook == builder.machine.global_hook,
        builder.refine(record).machine.state == builder.machine.state,
        builder.refine(record).machine.store == builder.machine.store,
        builder.refine(record).machine.global_hook == builder.machine.global_hook,
{
}

} // verus!
