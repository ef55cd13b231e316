//! Labels for the places and transitions that model threads.

use super::{decimal_spec, indexed, indexed_spec, lemma_indexed_injective, sanitize, sanitize_spec};
use vstd::prelude::*;
use vstd::string::*;

verus! {

pub open spec fn function_transition_label_spec(function_name: Seq<char>, index: nat) -> Seq<
    char,
> {
    sanitize_spec(function_name) + "_"@ + decimal_spec(index)
}

pub open spec fn start_place_label_spec(index: nat) -> Seq<char> {
    "THREAD_START_"@ + decimal_spec(index)
}

pub open spec fn end_place_label_spec(index: nat) -> Seq<char> {
    "THREAD_END_"@ + decimal_spec(index)
}

/// Label of the transition that represents a call to a function of `std::thread`.
pub fn function_transition_label(function_name: &str, index: usize) -> (label: String)
    ensures
        label@ == function_transition_label_spec(function_name@, index as nat),
{
    let mut label = sanitize(function_name);
    label.append(indexed("_", index).as_str());
    assert(label@ =~= function_transition_label_spec(function_name@, index as nat));
    label
}

/// Label of the place that models the thread start state.
pub fn start_place_label(index: usize) -> (label: String)
    ensures
        label@ == start_place_label_spec(index as nat),
{
    indexed("THREAD_START_", index)
}

/// Label of the place that models the thread end state.
pub fn end_place_label(index: usize) -> (label: String)
    ensures
        label@ == end_place_label_spec(index as nat),
{
    indexed("THREAD_END_", index)
}

/// Two threads share the label of their start place, or of their end place, only
/// if they have the same index.
pub proof fn lemma_thread_place_labels_injective(index: nat, other: nat)
    ensures
        start_place_label_spec(index) == start_place_label_spec(other) ==> index == other,
        end_place_label_spec(index) == end_place_label_spec(other) ==> index == other,
{
    if start_place_label_spec(index) == start_place_label_spec(other) {
        assert(start_place_label_spec(index) == indexed_spec("THREAD_START_"@, index));
        assert(start_place_label_spec(other) == indexed_spec("THREAD_START_"@, other));
        lemma_indexed_injective("THREAD_START_"@, index, other);
    }
    if end_place_label_spec(index) == end_place_label_spec(other) {
        assert(end_place_label_spec(index) == indexed_spec("THREAD_END_"@, index));
        assert(end_place_label_spec(other) == indexed_spec("THREAD_END_"@, other));
        lemma_indexed_injective("THREAD_END_"@, index, other);
    }
}

} // verus!
