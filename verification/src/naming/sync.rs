//! Labels for the places and transitions that model mutexes, condition variables
//! and shared-handle wrappers.

use super::thread::{function_transition_label, function_transition_label_spec};
use super::{decimal_spec, indexed};
use vstd::prelude::*;
use vstd::string::*;

verus! {

pub open spec fn mutex_unlocked_place_label_spec(index: nat) -> Seq<char> {
    "MUTEX_"@ + decimal_spec(index) + "_UNLOCKED"@
}

pub open spec fn mutex_locked_place_label_spec(index: nat) -> Seq<char> {
    "MUTEX_"@ + decimal_spec(index) + "_LOCKED"@
}

pub open spec fn condvar_wait_place_label_spec(index: nat) -> Seq<char> {
    "CONDVAR_"@ + decimal_spec(index) + "_WAIT"@
}

pub open spec fn condvar_notify_place_label_spec(index: nat) -> Seq<char> {
    "CONDVAR_"@ + decimal_spec(index) + "_NOTIFY"@
}

/// The label of a call transition, and that of the transition for its unwinding.
pub open spec fn call_transition_labels_spec(function_name: Seq<char>, index: nat) -> (
    Seq<char>,
    Seq<char>,
) {
    (
        function_transition_label_spec(function_name, index),
        function_transition_label_spec(function_name, index) + "_UNWIND"@,
    )
}

/// The labels of the transitions of a call of `wait`: the one that parks the
/// thread, the one that resumes it, and the one for the unwinding of the call.
pub open spec fn wait_transition_labels_spec(function_name: Seq<char>, index: nat) -> (
    Seq<char>,
    Seq<char>,
    Seq<char>,
) {
    (
        function_transition_label_spec(function_name, index),
        function_transition_label_spec(function_name, index) + "_RESUME"@,
        function_transition_label_spec(function_name, index) + "_UNWIND"@,
    )
}

/// Label of the place that holds a token while the mutex is free.
pub fn mutex_unlocked_place_label(index: usize) -> (label: String)
    ensures
        label@ == mutex_unlocked_place_label_spec(index as nat),
{
    let mut label = indexed("MUTEX_", index);
    label.append("_UNLOCKED");
    label
}

/// Label of the place that holds a token while the mutex is held.
pub fn mutex_locked_place_label(index: usize) -> (label: String)
    ensures
        label@ == mutex_locked_place_label_spec(index as nat),
{
    let mut label = indexed("MUTEX_", index);
    label.append("_LOCKED");
    label
}

/// Label of the place that holds a token for every thread that waits on the
/// condition variable.
pub fn condvar_wait_place_label(index: usize) -> (label: String)
    ensures
        label@ == condvar_wait_place_label_spec(index as nat),
{
    let mut label = indexed("CONDVAR_", index);
    label.append("_WAIT");
    label
}

/// Label of the place that holds a token for every notification of the condition
/// variable that no thread has taken yet.
pub fn condvar_notify_place_label(index: usize) -> (label: String)
    ensures
        label@ == condvar_notify_place_label_spec(index as nat),
{
    let mut label = indexed("CONDVAR_", index);
    label.append("_NOTIFY");
    label
}

/// Labels of the transition for the call of a function that is counted by an
/// index, and of the transition for its unwinding.
pub fn call_transition_labels(function_name: &str, index: usize) -> (labels: (String, String))
    ensures
        labels.0@ == call_transition_labels_spec(function_name@, index as nat).0,
        labels.1@ == call_transition_labels_spec(function_name@, index as nat).1,
{
    let label = function_transition_label(function_name, index);
    let mut unwind = label.clone();
    unwind.append("_UNWIND");
    (label, unwind)
}

/// Labels of the transitions of a call of `wait` that is counted by an index: the
/// one that parks the thread, the one that resumes it, and the one for the
/// unwinding of the call.
pub fn wait_transition_labels(function_name: &str, index: usize) -> (labels: (
    String,
    String,
    String,
))
    ensures
        labels.0@ == wait_transition_labels_spec(function_name@, index as nat).0,
        labels.1@ == wait_transition_labels_spec(function_name@, index as nat).1,
        labels.2@ == wait_transition_labels_spec(function_name@, index as nat).2,
{
    let label = function_transition_label(function_name, index);
    let mut resume = label.clone();
    resume.append("_RESUME");
    let mut unwind = label.clone();
    unwind.append("_UNWIND");
    (label, resume, unwind)
}

} // verus!
