//! The fluent builder: select a state, attach a trigger, refine the
//! transition, and so on until the machine is built.
//!
//! The builder's type records where in that grammar a declaration stands, so
//! that a trigger cannot be attached before a source state is selected, nor
//! a transition refined before a trigger is attached: such a declaration does
//! not compile.

use vstd::prelude::*;
use std::marker::PhantomData;
use crate::errors::StateMachineError;
use crate::hooks::{
    global_effect,
    guard_verdict,
    hook_effect,
    no_global_effect,
    GlobalHook,
    Guard,
    Hook,
};
use crate::machine::{MachineView, StateMachine};
use crate::transition::{labels_comparable, Transition, TransitionView};
use crate::validator::{duplicate_pairs, duplicate_report, has_duplicate, validate};
use crate::validator::lemma_duplicate_pairs_positive;

verus! {

/// The position of a builder on which nothing has been selected yet.
pub struct Initial;

/// The position of a builder on which a source state has been selected.
pub struct StateSelected;

/// The position of a builder on which a trigger has been attached: the
/// table's last record is open to refinement.
pub struct OnSelected;

/// A position in the declaration grammar.
pub trait BuilderState {
    /// Whether a builder in this position has a record open to refinement.
    spec fn has_open_record() -> bool;
}

impl BuilderState for Initial {
    open spec fn has_open_record() -> bool {
        false
    }
}

impl BuilderState for StateSelected {
    open spec fn has_open_record() -> bool {
        false
    }
}

impl BuilderState for OnSelected {
    open spec fn has_open_record() -> bool {
        true
    }
}

/// The model of a builder: the machine as declared so far, and the source
/// state to which the next trigger will be attached.
#[verifier::reject_recursive_types(Event)]
#[verifier::reject_recursive_types(State)]
#[verifier::reject_recursive_types(Store)]
pub struct BuilderView<Event, State, Store> {
    pub machine: MachineView<Event, State, Store>,
    pub current_state: State,
}

impl<Event: PartialEq, State: PartialEq, Store> BuilderView<Event, State, Store> {
    /// The builder after `current_state` has been selected as source state.
    pub open spec fn select(self, current_state: State) -> Self {
        BuilderView { current_state, ..self }
    }

    /// The builder after a fresh record for `trigger` has been appended,
    /// with the current source state as its source and its target.
    pub open spec fn attach(self, trigger: Event) -> Self {
        BuilderView {
            machine: MachineView {
                table: self.machine.table.push(TransitionView::fresh(trigger, self.current_state)),
                ..self.machine
            },
            ..self
        }
    }

    /// Whether there is an open record: whether the table holds a record.
    pub open spec fn has_open_record(self) -> bool {
        self.machine.table.len() > 0
    }

    /// The open record: the last of the table.
    pub open spec fn open_record(self) -> TransitionView<Event, State, Store> {
        self.machine.table.last()
    }

    /// The builder after the open record has been replaced by `record`.
    pub open spec fn refine(self, record: TransitionView<Event, State, Store>) -> Self {
        BuilderView {
            machine: MachineView {
                table: self.machine.table.update(self.machine.table.len() - 1, record),
                ..self.machine
            },
            ..self
        }
    }
}

/// A machine under construction, in position `BuilderStateType`.
#[must_use]
#[verifier::reject_recursive_types(Event)]
#[verifier::reject_recursive_types(State)]
#[verifier::reject_recursive_types(Store)]
pub struct StateMachineBuilder<Event, State, Store, BuilderStateType: BuilderState> {
    state_machine: StateMachine<Event, State, Store>,
    current_state: State,
    _builder_state: PhantomData<BuilderStateType>,
}

impl<Event, State, Store, BuilderStateType: BuilderState> View for StateMachineBuilder<
    Event,
    State,
    Store,
    BuilderStateType,
> {
    type V = BuilderView<Event, State, Store>;

    closed spec fn view(&self) -> BuilderView<Event, State, Store> {
        BuilderView { machine: self.state_machine@, current_state: self.current_state }
    }
}

impl<Event, State, Store, BuilderStateType: BuilderState> StateMachineBuilder<
    Event,
    State,
    Store,
    BuilderStateType,
> {
    #[verifier::type_invariant]
    spec fn open_record_exists(self) -> bool {
        BuilderStateType::has_open_record() ==> self.state_machine.transitions@.len() > 0
    }
}

impl<
    Event: PartialEq,
    State: Copy + PartialEq,
    Store,
    BuilderStateType: BuilderState,
> StateMachineBuilder<Event, State, Store, BuilderStateType> {
    fn select(self, state: State) -> (next: StateMachineBuilder<
        Event,
        State,
        Store,
        StateSelected,
    >)
        ensures
            next@ == self@.select(state),
    {
        StateMachineBuilder {
            state_machine: self.state_machine,
            current_state: state,
            _builder_state: PhantomData,
        }
    }

    fn attach(self, trigger: Event) -> (next: StateMachineBuilder<
        Event,
        State,
        Store,
        OnSelected,
    >)
        ensures
            next@ == self@.attach(trigger),
    {
        let StateMachineBuilder { state_machine, current_state, _builder_state } = self;
        let mut state_machine = state_machine;
        state_machine.transitions.push(Transition::new(trigger, current_state));
        assert(state_machine@.table =~= self@.machine.table.push(
            TransitionView::fresh(trigger, current_state),
        ));
        StateMachineBuilder { state_machine, current_state, _builder_state: PhantomData }
    }
}

impl<Event: PartialEq, State: Copy + PartialEq, Store> StateMachineBuilder<
    Event,
    State,
    Store,
    Initial,
> {
    /// A builder for a machine that starts in `initial_state` and owns
    /// `data_store`. The table is empty and there is no global hook.
    pub fn new(data_store: Store, initial_state: State) -> (builder: Self)
        ensures
            builder@.machine.table == Seq::<TransitionView<Event, State, Store>>::empty(),
            builder@.machine.global_hook == no_global_effect::<Event, State, Store>(),
            builder@.machine.state == initial_state,
            builder@.machine.store == data_store,
            builder@.current_state == initial_state,
    {
        let builder = StateMachineBuilder {
            state_machine: StateMachine {
                global_hook: GlobalHook::none(),
                transitions: Vec::new(),
                state: initial_state,
                store: data_store,
            },
            current_state: initial_state,
            _builder_state: PhantomData,
        };
        assert(builder@.machine.table =~= Seq::empty());
        builder
    }

    /// Sets the hook that runs after every committed transition, in place of
    /// the one set before, if any. It can be set only here, before the first
    /// state is selected.
    pub fn set_global_action<F: Fn(&mut Store, &State, &Event) + 'static>(
        self,
        global_action: F,
    ) -> (next: Self)
        requires
            forall|cell: &mut Store, state: &State, event: &Event|
                call_requires(global_action, (cell, state, event)),
        ensures
            next@.machine.global_hook == global_effect::<Event, State, Store, F>(global_action),
            next@.machine.table == self@.machine.table,
            next@.machine.state == self@.machine.state,
            next@.machine.store == self@.machine.store,
            next@.current_state == self@.current_state,
    {
        let StateMachineBuilder { state_machine, current_state, _builder_state } = self;
        let StateMachine { global_hook, transitions, state, store } = state_machine;
        StateMachineBuilder {
            state_machine: StateMachine {
                global_hook: GlobalHook::in_place(global_action),
                transitions,
                state,
                store,
            },
            current_state,
            _builder_state: PhantomData,
        }
    }

    /// Selects `state` as the source of the triggers that follow.
    pub fn state(self, state: State) -> (next: StateMachineBuilder<
        Event,
        State,
        Store,
        StateSelected,
    >)
        ensures
            next@ == self@.select(state),
    {
        self.select(state)
    }
}

impl<Event: PartialEq, State: Copy + PartialEq, Store> StateMachineBuilder<
    Event,
    State,
    Store,
    StateSelected,
> {
    /// Selects `state` as the source of the triggers that follow.
    pub fn state(self, state: State) -> (next: Self)
        ensures
            next@ == self@.select(state),
    {
        self.select(state)
    }

    /// Appends a transition for `event` from the current source state. Until
    /// refined it is a self-loop without guard or hooks.
    pub fn on(self, event: Event) -> (next: StateMachineBuilder<Event, State, Store, OnSelected>)
        ensures
            next@ == self@.attach(event),
    {
        self.attach(event)
    }

    /// Appends a transition for `event`, as `on` does.
    pub fn when(self, event: Event) -> (next: StateMachineBuilder<
        Event,
        State,
        Store,
        OnSelected,
    >)
        ensures
            next@ == self@.attach(event),
    {
        self.attach(event)
    }

    /// Appends a transition for `event` from the current source state to
    /// `target`.
    pub fn event(self, event: Event, target: State) -> (next: StateMachineBuilder<
        Event,
        State,
        Store,
        OnSelected,
    >)
        ensures
            next@ == self@.attach(event).refine(
                self@.attach(event).open_record().with_target(target),
            ),
    {
        self.attach(event).go_to(target)
    }
}

impl<Event: PartialEq, State: Copy + PartialEq, Store> StateMachineBuilder<
    Event,
    State,
    Store,
    OnSelected,
> {
    fn open(self) -> (parts: (
        StateMachine<Event, State, Store>,
        State,
        Transition<Event, State, Store>,
    ))
        ensures
            self@.has_open_record(),
            parts.0@.table == self@.machine.table.drop_last(),
            parts.0@.global_hook == self@.machine.global_hook,
            parts.0@.state == self@.machine.state,
            parts.0@.store == self@.machine.store,
            parts.1 == self@.current_state,
            parts.2@ == self@.open_record(),
    {
        proof {
            use_type_invariant(&self);
        }
        let StateMachineBuilder { state_machine, current_state, _builder_state } = self;
        let mut state_machine = state_machine;
        let record = state_machine.transitions.pop().unwrap();
        assert(state_machine@.table =~= self@.machine.table.drop_last());
        (state_machine, current_state, record)
    }

    fn close(
        state_machine: StateMachine<Event, State, Store>,
        current_state: State,
        record: Transition<Event, State, Store>,
    ) -> (next: Self)
        ensures
            next@.machine.table == state_machine@.table.push(record@),
            next@.machine.global_hook == state_machine@.global_hook,
            next@.machine.state == state_machine@.state,
            next@.machine.store == state_machine@.store,
            next@.current_state == current_state,
    {
        let mut state_machine = state_machine;
        let ghost before = state_machine@;
        state_machine.transitions.push(record);
        assert(state_machine@.table =~= before.table.push(record@));
        StateMachineBuilder { state_machine, current_state, _builder_state: PhantomData }
    }

    /// Selects `state` as the source of the triggers that follow. The open
    /// record is closed.
    pub fn state(self, state: State) -> (next: StateMachineBuilder<
        Event,
        State,
        Store,
        StateSelected,
    >)
        ensures
            next@ == self@.select(state),
    {
        self.select(state)
    }

    /// Appends a transition for `event` from the current source state. Until
    /// refined it is a self-loop without guard or hooks. The record that was
    /// open is closed.
    pub fn on(self, event: Event) -> (next: Self)
        ensures
            next@ == self@.attach(event),
    {
        self.attach(event)
    }

    /// Sets the target state of the open record.
    pub fn go_to(self, target: State) -> (next: Self)
        ensures
            self@.has_open_record(),
            next@ == self@.refine(self@.open_record().with_target(target)),
    {
        let (state_machine, current_state, mut record) = self.open();
        record.target = target;
        let next = Self::close(state_machine, current_state, record);
        assert(next@.machine.table =~= self@.refine(
            self@.open_record().with_target(target),
        ).machine.table);
        next
    }

    /// Sets the target state of the open record, as `go_to` does.
    pub fn to(self, target: State) -> (next: Self)
        ensures
            self@.has_open_record(),
            next@ == self@.refine(self@.open_record().with_target(target)),
    {
        self.go_to(target)
    }

    /// Appends a transition for `event`, as `on` does.
    pub fn when(self, event: Event) -> (next: Self)
        ensures
            next@ == self@.attach(event),
    {
        self.attach(event)
    }

    /// Appends a transition for `event` from the current source state to
    /// `target`. The record that was open is closed.
    pub fn event(self, event: Event, target: State) -> (next: Self)
        ensures
            next@ == self@.attach(event).refine(
                self@.attach(event).open_record().with_target(target),
            ),
    {
        self.attach(event).go_to(target)
    }

    /// Sets the pre-hook of the open record: it runs whenever the record is
    /// visited, before the guard is asked and whatever the guard answers.
    pub fn update<F: Fn(&mut Store) + 'static>(self, before_event: F) -> (next: Self)
        requires
            forall|cell: &mut Store| call_requires(before_event, (cell,)),
        ensures
            self@.has_open_record(),
            next@ == self@.refine(
                self@.open_record().with_pre_hook(hook_effect::<Store, F>(before_event)),
            ),
    {
        let (state_machine, current_state, mut record) = self.open();
        record.pre_hook = Hook::in_place(before_event);
        let next = Self::close(state_machine, current_state, record);
        assert(next@.machine.table =~= self@.refine(
            self@.open_record().with_pre_hook(hook_effect::<Store, F>(before_event)),
        ).machine.table);
        next
    }

    /// Sets the pre-hook of the open record, as `update` does.
    pub fn before_condition<F: Fn(&mut Store) + 'static>(self, before_event: F) -> (next: Self)
        requires
            forall|cell: &mut Store| call_requires(before_event, (cell,)),
        ensures
            self@.has_open_record(),
            next@ == self@.refine(
                self@.open_record().with_pre_hook(hook_effect::<Store, F>(before_event)),
            ),
    {
        self.update(before_event)
    }

    /// Sets the guard of the open record: the record commits only if the
    /// guard passes on the store that the pre-hook left.
    pub fn only_if<F: Fn(&Store) -> bool + 'static>(self, condition: F) -> (next: Self)
        requires
            forall|store: &Store| call_requires(condition, (store,)),
        ensures
            self@.has_open_record(),
            next@ == self@.refine(
                self@.open_record().with_guard(guard_verdict::<Store, F>(condition)),
            ),
    {
        let (state_machine, current_state, mut record) = self.open();
        record.guard = Guard::only_if(condition);
        let next = Self::close(state_machine, current_state, record);
        assert(next@.machine.table =~= self@.refine(
            self@.open_record().with_guard(guard_verdict::<Store, F>(condition)),
        ).machine.table);
        next
    }

    /// Sets the guard of the open record, as `only_if` does.
    pub fn condition<F: Fn(&Store) -> bool + 'static>(self, condition: F) -> (next: Self)
        requires
            forall|store: &Store| call_requires(condition, (store,)),
        ensures
            self@.has_open_record(),
            next@ == self@.refine(
                self@.open_record().with_guard(guard_verdict::<Store, F>(condition)),
            ),
    {
        self.only_if(condition)
    }

    /// Sets the post-hook of the open record: it runs when the record
    /// commits, after the guard has passed and before the state changes.
    pub fn after_condition<F: Fn(&mut Store) + 'static>(self, after_event: F) -> (next: Self)
        requires
            forall|cell: &mut Store| call_requires(after_event, (cell,)),
        ensures
            self@.has_open_record(),
            next@ == self@.refine(
                self@.open_record().with_post_hook(hook_effect::<Store, F>(after_event)),
            ),
    {
        let (state_machine, current_state, mut record) = self.open();
        record.post_hook = Hook::in_place(after_event);
        let next = Self::close(state_machine, current_state, record);
        assert(next@.machine.table =~= self@.refine(
            self@.open_record().with_post_hook(hook_effect::<Store, F>(after_event)),
        ).machine.table);
        next
    }

    /// Sets the post-hook of the open record, as `after_condition` does.
    pub fn then<F: Fn(&mut Store) + 'static>(self, after_event: F) -> (next: Self)
        requires
            forall|cell: &mut Store| call_requires(after_event, (cell,)),
        ensures
            self@.has_open_record(),
            next@ == self@.refine(
                self@.open_record().with_post_hook(hook_effect::<Store, F>(after_event)),
            ),
    {
        self.after_condition(after_event)
    }

    /// Validates the table and, if no edge is declared twice, hands out the
    /// machine as declared. Otherwise no machine is made, and the report
    /// holds one `DuplicateTransition` for each pair of records that declare
    /// the same edge.
    pub fn build(self) -> (result: Result<
        StateMachine<Event, State, Store>,
        Vec<StateMachineError>,
    >)
        ensures
            result matches Ok(machine) ==> machine@ == self@.machine,
            result matches Err(errors) ==> errors@.len() > 0 && errors@ == duplicate_report(
                errors@.len(),
            ),
            labels_comparable::<Event, State>() ==> (result is Err <==> has_duplicate(
                self@.machine.table,
            )),
            labels_comparable::<Event, State>() ==> (result matches Err(errors) ==> errors@.len()
                == duplicate_pairs(self@.machine.table, self@.machine.table.len() as int)),
    {
        let StateMachineBuilder { state_machine, current_state, _builder_state } = self;
        let errors = validate(&state_machine.transitions);
        proof {
            lemma_duplicate_pairs_positive(state_machine@.table);
        }
        if errors.len() == 0 {
            Ok(state_machine)
        } else {
            Err(errors)
        }
    }
}

} // verus!
