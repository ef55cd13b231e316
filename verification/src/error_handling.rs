//! The ways in which a translation can fail.

use vstd::prelude::*;
use vstd::string::*;

verus! {

/// Message for a program without an entry function.
pub const ERR_NO_MAIN_FUNCTION_FOUND: &'static str =
    "ERROR: No main function found in the given source code";

/// Why a translation stopped. Only [`TranslationError::NoEntryFunction`] is a fault
/// of the input that a user can mend. The others say that the program uses
/// something that the translation does not support: the net is given up.
#[derive(Clone, Copy, PartialEq, Eq, Structural, Debug)]
pub enum TranslationError {
    /// The program has no entry function.
    NoEntryFunction,
    /// The program names a function or a block that it does not have.
    MalformedProgram,
    /// A place or a transition would have received a label that is taken.
    DuplicateLabel,
    /// A location that should hold a synchronization handle holds none.
    UnlinkedLocation,
    /// A call has not the arguments that its callee needs.
    UnsupportedCall,
    /// The calls are nested deeper than the program has functions: it recurses.
    CallDepthExceeded,
    /// A thread receives fewer mutexes than its function expects.
    MissingCapture,
}

impl TranslationError {
    /// The sentence that describes the error.
    pub open spec fn message_spec(self) -> Seq<char> {
        match self {
            TranslationError::NoEntryFunction => ERR_NO_MAIN_FUNCTION_FOUND@,
            TranslationError::MalformedProgram => {
                "BUG: The program should name only functions and blocks that it has"@
            },
            TranslationError::DuplicateLabel => {
                "BUG: The label of a new place or transition should not be in use"@
            },
            TranslationError::UnlinkedLocation => {
                "BUG: The location should be linked to a synchronization handle"@
            },
            TranslationError::UnsupportedCall => {
                "BUG: The call should have the arguments that its callee needs"@
            },
            TranslationError::CallDepthExceeded => {
                "BUG: The functions of the program should not call themselves"@
            },
            TranslationError::MissingCapture => {
                "BUG: The thread function receives more mutexes than the ones detected"@
            },
        }
    }

    /// A sentence that describes the error.
    pub fn message(&self) -> (text: String)
        ensures
            text@ == self.message_spec(),
    {
        match self {
            TranslationError::NoEntryFunction => String::from_str(ERR_NO_MAIN_FUNCTION_FOUND),
            TranslationError::MalformedProgram => String::from_str(
                "BUG: The program should name only functions and blocks that it has",
            ),
            TranslationError::DuplicateLabel => String::from_str(
                "BUG: The label of a new place or transition should not be in use",
            ),
            TranslationError::UnlinkedLocation => String::from_str(
                "BUG: The location should be linked to a synchronization handle",
            ),
            TranslationError::UnsupportedCall => String::from_str(
                "BUG: The call should have the arguments that its callee needs",
            ),
            TranslationError::CallDepthExceeded => String::from_str(
                "BUG: The functions of the program should not call themselves",
            ),
            TranslationError::MissingCapture => String::from_str(
                "BUG: The thread function receives more mutexes than the ones detected",
            ),
        }
    }
}

} // verus!
