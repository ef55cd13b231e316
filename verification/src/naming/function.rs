//! Labels for the transitions that stand for function calls and returns.

use super::{sanitize_spec, suffixed};
use vstd::prelude::*;

verus! {

pub open spec fn return_transition_label_spec(function_name: Seq<char>) -> Seq<char> {
    sanitize_spec(function_name) + "_RETURN"@
}

pub open spec fn entry_transition_label_spec(function_name: Seq<char>) -> Seq<char> {
    sanitize_spec(function_name) + "_ENTRY"@
}

pub open spec fn foreign_call_transition_label_spec(function_name: Seq<char>) -> Seq<char> {
    sanitize_spec(function_name) + "_CALL"@
}

pub open spec fn foreign_call_unwind_transition_label_spec(function_name: Seq<char>) -> Seq<
    char,
> {
    sanitize_spec(function_name) + "_CALL_UNWIND"@
}

pub open spec fn diverging_call_transition_label_spec(function_name: Seq<char>) -> Seq<char> {
    sanitize_spec(function_name) + "_DIVERGING_CALL"@
}

pub open spec fn panic_transition_label_spec(function_name: Seq<char>) -> Seq<char> {
    sanitize_spec(function_name) + "_PANIC"@
}

/// Label of the transition for the return statement of a function.
pub fn return_transition_label(function_name: &str) -> (label: String)
    ensures
        label@ == return_transition_label_spec(function_name@),
{
    suffixed(function_name, "_RETURN")
}

/// Label of the transition that leads into the first block of a function.
pub fn entry_transition_label(function_name: &str) -> (label: String)
    ensures
        label@ == entry_transition_label_spec(function_name@),
{
    suffixed(function_name, "_ENTRY")
}

/// Label of the transition for a call to a foreign function.
pub fn foreign_call_transition_label(function_name: &str) -> (label: String)
    ensures
        label@ == foreign_call_transition_label_spec(function_name@),
{
    suffixed(function_name, "_CALL")
}

/// Label of the unwind transition for a call to a foreign function.
pub fn foreign_call_unwind_transition_label(function_name: &str) -> (label: String)
    ensures
        label@ == foreign_call_unwind_transition_label_spec(function_name@),
{
    suffixed(function_name, "_CALL_UNWIND")
}

/// Label of the transition that represents a diverging function call (a function that does not return).
pub fn diverging_call_transition_label(function_name: &str) -> (label: String)
    ensures
        label@ == diverging_call_transition_label_spec(function_name@),
{
    suffixed(function_name, "_DIVERGING_CALL")
}

/// Label of the transition that represents a call to a function that always panics.
pub fn panic_transition_label(function_name: &str) -> (label: String)
    ensures
        label@ == panic_transition_label_spec(function_name@),
{
    suffixed(function_name, "_PANIC")
}

} // verus!
