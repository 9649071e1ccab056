//! A finite-state-machine engine with a fluent, typed construction API.
//!
//! A machine is declared with [`StateMachineBuilder`]: select a source state,
//! attach a trigger to it, refine the transition with a target, a guard and
//! hooks, and go on. `build` checks the table and hands out a
//! [`StateMachine`], which dispatches triggers against a store that it owns.
//!
//! Dispatch scans the table in declaration order. Every record for the
//! trigger and the current state is a candidate: its pre-hook runs, then its
//! guard is asked. The first candidate whose guard passes commits: its
//! post-hook runs, the state becomes its target, and the global hook runs.
//! An event that no candidate takes is not an error.
//!
//! `trigger` takes the machine and hands it back: `machine =
//! machine.trigger(event)`. Guards and hooks are ordinary closures on the
//! store; the contracts speak of them through the relation between the
//! store that one is handed and what it leaves or answers.
//!
//! Events and states are compared with `==`. The contracts say what a
//! machine does for types on which `==` is the equality that Verus knows of
//! them (`labels_comparable`).

pub mod builder;
pub mod errors;
pub mod hooks;
pub mod laws;
pub mod machine;
pub mod transition;
pub mod validator;

pub use builder::{BuilderState, Initial, OnSelected, StateMachineBuilder, StateSelected};
pub use errors::StateMachineError;
pub use machine::StateMachine;
pub use transition::Transition;
