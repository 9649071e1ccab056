//! One edge of a machine: a transition record and its model.

use vstd::prelude::*;
use vstd::std_specs::cmp::PartialEqSpec;
use crate::hooks::{always_pass, no_effect, Guard, Hook};

verus! {

/// The model of a transition record: its three labels, and for the guard and
/// each hook the relation that describes it.
#[verifier::reject_recursive_types(Store)]
pub struct TransitionView<Event, State, Store> {
    pub trigger: Event,
    pub source: State,
    pub target: State,
    pub pre_hook: spec_fn(Store, Store) -> bool,
    pub guard: spec_fn(Store, bool) -> bool,
    pub post_hook: spec_fn(Store, Store) -> bool,
}

impl<Event: PartialEq, State: PartialEq, Store> TransitionView<Event, State, Store> {
    /// A record as it is when a trigger is first attached to `source`: a
    /// self-loop that always passes and whose hooks do nothing.
    pub open spec fn fresh(trigger: Event, source: State) -> Self {
        TransitionView {
            trigger,
            source,
            target: source,
            pre_hook: no_effect(),
            guard: always_pass(),
            post_hook: no_effect(),
        }
    }

    /// The record with `target` as its target state.
    pub open spec fn with_target(self, target: State) -> Self {
        TransitionView { target, ..self }
    }

    /// The record with `pre_hook` as the relation of its pre-hook.
    pub open spec fn with_pre_hook(self, pre_hook: spec_fn(Store, Store) -> bool) -> Self {
        TransitionView { pre_hook, ..self }
    }

    /// The record with `guard` as the relation of its guard.
    pub open spec fn with_guard(self, guard: spec_fn(Store, bool) -> bool) -> Self {
        TransitionView { guard, ..self }
    }

    /// The record with `post_hook` as the relation of its post-hook.
    pub open spec fn with_post_hook(self, post_hook: spec_fn(Store, Store) -> bool) -> Self {
        TransitionView { post_hook, ..self }
    }

    /// Whether the record is a candidate when `event` arrives in `state`.
    pub open spec fn is_candidate(self, event: Event, state: State) -> bool {
        self.trigger.eq_spec(&event) && state.eq_spec(&self.source)
    }

    /// Whether two records declare the same edge: the same trigger between
    /// the same two states.
    pub open spec fn same_edge(self, other: Self) -> bool {
        &&& self.trigger.eq_spec(&other.trigger)
        &&& self.source.eq_spec(&other.source)
        &&& self.target.eq_spec(&other.target)
    }
}

/// Whether `==` on events and on states computes `eq_spec`, the equality in
/// which the contracts compare labels.
pub open spec fn labels_comparable<Event: PartialEq, State: PartialEq>() -> bool {
    Event::obeys_eq_spec() && State::obeys_eq_spec()
}

/// One edge: on `trigger` in state `source`, run the pre-hook, ask the guard,
/// and if it passes run the post-hook and enter `target`.
#[verifier::reject_recursive_types(Store)]
pub struct Transition<Event, State, Store> {
    pub(crate) trigger: Event,
    pub(crate) source: State,
    pub(crate) target: State,
    pub(crate) pre_hook: Hook<Store>,
    pub(crate) post_hook: Hook<Store>,
    pub(crate) guard: Guard<Store>,
}

impl<Event, State, Store> View for Transition<Event, State, Store> {
    type V = TransitionView<Event, State, Store>;

    open(crate) spec fn view(&self) -> TransitionView<Event, State, Store> {
        TransitionView {
            trigger: self.trigger,
            source: self.source,
            target: self.target,
            pre_hook: self.pre_hook.effect(),
            guard: self.guard.verdict(),
            post_hook: self.post_hook.effect(),
        }
    }
}

/// The models of a table's records, in the table's order.
pub open spec fn table_of<Event, State, Store>(
    records: Seq<Transition<Event, State, Store>>,
) -> Seq<TransitionView<Event, State, Store>> {
    records.map_values(|record: Transition<Event, State, Store>| record@)
}

impl<Event: PartialEq, State: Copy + PartialEq, Store> Transition<Event, State, Store> {
    /// A self-loop on `source` for `trigger`, with no guard and no hooks.
    pub(crate) fn new(trigger: Event, source: State) -> (record: Self)
        ensures
            record@ == TransitionView::<Event, State, Store>::fresh(trigger, source),
    {
        Transition {
            trigger,
            source,
            target: source,
            pre_hook: Hook::none(),
            post_hook: Hook::none(),
            guard: Guard::none(),
        }
    }

    /// Whether the record is a candidate when `event` arrives in `state`.
    pub(crate) fn is_candidate(&self, event: &Event, state: &State) -> (yes: bool)
        ensures
            labels_comparable::<Event, State>() ==> yes == self@.is_candidate(*event, *state),
    {
        !(self.trigger != *event || *state != self.source)
    }

    /// Whether the two records declare the same edge.
    pub(crate) fn same_edge(&self, other: &Self) -> (yes: bool)
        ensures
            labels_comparable::<Event, State>() ==> yes == self@.same_edge(other@),
    {
        self.trigger == other.trigger && self.source == other.source && self.target
            == other.target
    }
}

} // verus!
