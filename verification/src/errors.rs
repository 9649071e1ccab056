//! What can be wrong with a declared machine.

use vstd::prelude::*;

verus! {

/// A structural fault in a declaration. Faults are found when the machine is
/// built, never while it runs.
#[derive(Debug, Clone, Copy, PartialEq, Eq)]
pub enum StateMachineError {
    /// Two declarations share trigger, source state and target state.
    DuplicateTransition,
    /// A trigger was attached before any source state was selected.
    MissingState,
    /// A transition was refined before any trigger was attached.
    MissingTransition,
}

impl StateMachineError {
    /// The text that describes the fault.
    pub open spec fn message_text(self) -> Seq<char> {
        match self {
            StateMachineError::DuplicateTransition => "Duplicate transition found"@,
            StateMachineError::MissingState => "Missing state"@,
            StateMachineError::MissingTransition => "Missing transition"@,
        }
    }

    /// Describes the fault in words.
    pub fn message(&self) -> (text: String)
        ensures
            text@ == self.message_text(),
    {
        match self {
            StateMachineError::DuplicateTransition => "Duplicate transition found".to_owned(),
            StateMachineError::MissingState => "Missing state".to_owned(),
            StateMachineError::MissingTransition => "Missing transition".to_owned(),
        }
    }
}

} // verus!
