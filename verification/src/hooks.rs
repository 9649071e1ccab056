//! Caller-supplied hooks and guards, and what the engine knows of them.
//!
//! A hook is any `Fn(&mut Store)`, a guard any `Fn(&Store) -> bool`, a global
//! hook any `Fn(&mut Store, &State, &Event)`. The engine assumes nothing of
//! what they do. Each is modelled by a relation: the stores that a hook may
//! leave for the store it is handed, the answers that a guard may give.
//! A hook that computes a function of the store has a relation with one
//! outcome for each input.

use vstd::prelude::*;

verus! {

/// Runs an in-place hook on a store and hands the store back.
pub fn run_in_place<Store, F: Fn(&mut Store)>(hook: &F, store: Store) -> (out: Store)
    requires
        forall|cell: &mut Store| *cell == store ==> call_requires(*hook, (cell,)),
    ensures
        exists|cell: &mut Store|
            *cell == store && *final(cell) == out && call_ensures(*hook, (cell,), ()),
{
    let mut store = store;
    hook(&mut store);
    store
}

/// Runs an in-place global hook on a store, for the state that was entered
/// and the event that led there, and hands the store back.
pub fn run_global_in_place<Event, State, Store, F: Fn(&mut Store, &State, &Event)>(
    hook: &F,
    store: Store,
    state: &State,
    event: &Event,
) -> (out: Store)
    requires
        forall|cell: &mut Store| *cell == store ==> call_requires(*hook, (cell, state, event)),
    ensures
        exists|cell: &mut Store|
            *cell == store && *final(cell) == out && call_ensures(
                *hook,
                (cell, state, event),
                (),
            ),
{
    let mut store = store;
    hook(&mut store, state, event);
    store
}

/// The stores that `hook` may leave (`post`) when it is handed `pre`.
pub open spec fn hook_effect<Store, F: Fn(&mut Store)>(hook: F) -> spec_fn(Store, Store) -> bool {
    |pre: Store, post: Store| call_ensures(run_in_place::<Store, F>, (&hook, pre), post)
}

/// The answers that `guard` may give on a store.
pub open spec fn guard_verdict<Store, F: Fn(&Store) -> bool>(guard: F) -> spec_fn(
    Store,
    bool,
) -> bool {
    |store: Store, ok: bool| call_ensures(guard, (&store,), ok)
}

/// The stores that the global hook may leave when it is handed `pre`, the
/// state that was entered and the event that led there.
pub open spec fn global_effect<Event, State, Store, F: Fn(&mut Store, &State, &Event)>(
    hook: F,
) -> spec_fn(Store, State, Event, Store) -> bool {
    |pre: Store, state: State, event: Event, post: Store|
        call_ensures(
            run_global_in_place::<Event, State, Store, F>,
            (&hook, pre, &state, &event),
            post,
        )
}

/// The relation of a hook that leaves the store as it is.
pub open spec fn no_effect<Store>() -> spec_fn(Store, Store) -> bool {
    |pre: Store, post: Store| post == pre
}

/// The relation of a guard that lets every store pass.
pub open spec fn always_pass<Store>() -> spec_fn(Store, bool) -> bool {
    |store: Store, ok: bool| ok
}

/// The relation of a global hook that leaves the store as it is.
pub open spec fn no_global_effect<Event, State, Store>() -> spec_fn(
    Store,
    State,
    Event,
    Store,
) -> bool {
    |pre: Store, state: State, event: Event, post: Store| post == pre
}

/// Whether a hook's relation leaves one store at most for each store handed
/// in: whether the hook computes a function of the store.
pub open spec fn hook_is_function<Store>(effect: spec_fn(Store, Store) -> bool) -> bool {
    forall|pre: Store, one: Store, other: Store|
        #[trigger] effect(pre, one) && #[trigger] effect(pre, other) ==> one == other
}

/// Whether a guard's relation gives one answer at most on each store.
pub open spec fn guard_is_function<Store>(verdict: spec_fn(Store, bool) -> bool) -> bool {
    forall|store: Store| !(#[trigger] verdict(store, true) && verdict(store, false))
}

/// Whether a global hook's relation leaves one store at most for each store,
/// state and event handed in.
pub open spec fn global_is_function<Event, State, Store>(
    effect: spec_fn(Store, State, Event, Store) -> bool,
) -> bool {
    forall|pre: Store, state: State, event: Event, one: Store, other: Store|
        #[trigger] effect(pre, state, event, one) && #[trigger] effect(pre, state, event, other)
            ==> one == other
}

/// Whatever `hook_effect` relates, the hook's own contract relates: there is
/// a call of the hook that found `pre` in the store and left `post`.
pub proof fn lemma_hook_effect<Store, F: Fn(&mut Store)>(hook: F, pre: Store, post: Store)
    requires
        hook_effect(hook)(pre, post),
    ensures
        exists|cell: &mut Store|
            *cell == pre && *final(cell) == post && call_ensures(hook, (cell,), ()),
{
}

/// Whatever `global_effect` relates, the hook's own contract relates.
pub proof fn lemma_global_effect<Event, State, Store, F: Fn(&mut Store, &State, &Event)>(
    hook: F,
    pre: Store,
    state: State,
    event: Event,
    post: Store,
)
    requires
        global_effect(hook)(pre, state, event, post),
    ensures
        exists|cell: &mut Store|
            *cell == pre && *final(cell) == post && call_ensures(
                hook,
                (cell, &state, &event),
                (),
            ),
{
}

trait HookFn<Store> {
    spec fn total(&self) -> bool;

    spec fn effect(&self) -> spec_fn(Store, Store) -> bool;

    fn run(&self, store: Store) -> (out: Store)
        requires
            self.total(),
        ensures
            (self.effect())(store, out),
    ;
}

impl<Store, F: Fn(&mut Store)> HookFn<Store> for F {
    spec fn total(&self) -> bool {
        forall|cell: &mut Store| call_requires(*self, (cell,))
    }

    spec fn effect(&self) -> spec_fn(Store, Store) -> bool {
        hook_effect::<Store, F>(*self)
    }

    fn run(&self, store: Store) -> (out: Store) {
        let shim = run_in_place::<Store, F>;
        shim(self, store)
    }
}

/// A pre- or post-hook of a transition: nothing, or a caller's hook.
#[verifier::reject_recursive_types(Store)]
pub struct Hook<Store> {
    action: Option<Box<dyn HookFn<Store>>>,
}

impl<Store> Hook<Store> {
    #[verifier::type_invariant]
    spec fn runnable(self) -> bool {
        self.action matches Some(action) ==> action.total()
    }

    /// The stores that one run may leave for the store it is handed.
    pub closed spec fn effect(&self) -> spec_fn(Store, Store) -> bool {
        match self.action {
            Some(action) => action.effect(),
            None => no_effect(),
        }
    }

    /// The hook that does nothing.
    pub fn none() -> (hook: Self)
        ensures
            hook.effect() == no_effect::<Store>(),
    {
        Hook { action: None }
    }

    /// The hook that runs `action`.
    pub fn in_place<F: Fn(&mut Store) + 'static>(action: F) -> (hook: Self)
        requires
            forall|cell: &mut Store| call_requires(action, (cell,)),
        ensures
            hook.effect() == hook_effect::<Store, F>(action),
    {
        Hook { action: Some(Box::new(action)) }
    }

    /// Runs the hook on `store`.
    pub fn run(&self, store: Store) -> (out: Store)
        ensures
            (self.effect())(store, out),
    {
        proof {
            use_type_invariant(self);
        }
        match &self.action {
            Some(action) => action.run(store),
            None => store,
        }
    }
}

trait GuardFn<Store> {
    spec fn total(&self) -> bool;

    spec fn verdict(&self) -> spec_fn(Store, bool) -> bool;

    fn check(&self, store: &Store) -> (ok: bool)
        requires
            self.total(),
        ensures
            (self.verdict())(*store, ok),
    ;
}

impl<Store, F: Fn(&Store) -> bool> GuardFn<Store> for F {
    spec fn total(&self) -> bool {
        forall|store: &Store| call_requires(*self, (store,))
    }

    spec fn verdict(&self) -> spec_fn(Store, bool) -> bool {
        guard_verdict::<Store, F>(*self)
    }

    fn check(&self, store: &Store) -> (ok: bool) {
        self(store)
    }
}

/// The guard of a transition: none, or a caller's predicate on the store.
#[verifier::reject_recursive_types(Store)]
pub struct Guard<Store> {
    predicate: Option<Box<dyn GuardFn<Store>>>,
}

impl<Store> Guard<Store> {
    #[verifier::type_invariant]
    spec fn checkable(self) -> bool {
        self.predicate matches Some(predicate) ==> predicate.total()
    }

    /// The answers that one evaluation may give on a store.
    pub closed spec fn verdict(&self) -> spec_fn(Store, bool) -> bool {
        match self.predicate {
            Some(predicate) => predicate.verdict(),
            None => always_pass(),
        }
    }

    /// The guard that lets every store pass.
    pub fn none() -> (guard: Self)
        ensures
            guard.verdict() == always_pass::<Store>(),
    {
        Guard { predicate: None }
    }

    /// The guard that asks `predicate`.
    pub fn only_if<F: Fn(&Store) -> bool + 'static>(predicate: F) -> (guard: Self)
        requires
            forall|store: &Store| call_requires(predicate, (store,)),
        ensures
            guard.verdict() == guard_verdict::<Store, F>(predicate),
    {
        Guard { predicate: Some(Box::new(predicate)) }
    }

    /// Evaluates the guard on `store`.
    pub fn check(&self, store: &Store) -> (ok: bool)
        ensures
            (self.verdict())(*store, ok),
    {
        proof {
            use_type_invariant(self);
        }
        match &self.predicate {
            Some(predicate) => predicate.check(store),
            None => true,
        }
    }
}

trait GlobalHookFn<Event, State, Store> {
    spec fn total(&self) -> bool;

    spec fn effect(&self) -> spec_fn(Store, State, Event, Store) -> bool;

    fn run(&self, store: Store, state: &State, event: &Event) -> (out: Store)
        requires
            self.total(),
        ensures
            (self.effect())(store, *state, *event, out),
    ;
}

impl<Event, State, Store, F: Fn(&mut Store, &State, &Event)> GlobalHookFn<
    Event,
    State,
    Store,
> for F {
    spec fn total(&self) -> bool {
        forall|cell: &mut Store, state: &State, event: &Event|
            call_requires(*self, (cell, state, event))
    }

    spec fn effect(&self) -> spec_fn(Store, State, Event, Store) -> bool {
        global_effect::<Event, State, Store, F>(*self)
    }

    fn run(&self, store: Store, state: &State, event: &Event) -> (out: Store) {
        let shim = run_global_in_place::<Event, State, Store, F>;
        shim(self, store, state, event)
    }
}

/// The hook that runs after every committed transition: nothing, or a
/// caller's hook.
#[verifier::reject_recursive_types(Event)]
#[verifier::reject_recursive_types(State)]
#[verifier::reject_recursive_types(Store)]
pub struct GlobalHook<Event, State, Store> {
    action: Option<Box<dyn GlobalHookFn<Event, State, Store>>>,
}

impl<Event, State, Store> GlobalHook<Event, State, Store> {
    #[verifier::type_invariant]
    spec fn runnable(self) -> bool {
        self.action matches Some(action) ==> action.total()
    }

    /// The stores that one run may leave for the store it is handed, the
    /// state that was entered and the event that led there.
    pub closed spec fn effect(&self) -> spec_fn(Store, State, Event, Store) -> bool {
        match self.action {
            Some(action) => action.effect(),
            None => no_global_effect(),
        }
    }

    /// The global hook that does nothing.
    pub fn none() -> (hook: Self)
        ensures
            hook.effect() == no_global_effect::<Event, State, Store>(),
    {
        GlobalHook { action: None }
    }

    /// The global hook that runs `action`.
    pub fn in_place<F: Fn(&mut Store, &State, &Event) + 'static>(action: F) -> (hook: Self)
        requires
            forall|cell: &mut Store, state: &State, event: &Event|
                call_requires(action, (cell, state, event)),
        ensures
            hook.effect() == global_effect::<Event, State, Store, F>(action),
    {
        GlobalHook { action: Some(Box::new(action)) }
    }

    /// Runs the hook on `store`, for the state that was entered and the
    /// event that led there.
    pub fn run(&self, store: Store, state: &State, event: &Event) -> (out: Store)
        ensures
            (self.effect())(store, *state, *event, out),
    {
        proof {
            use_type_invariant(self);
        }
        match &self.action {
            Some(action) => action.run(store, state, event),
            None => store,
        }
    }
}

} // verus!
