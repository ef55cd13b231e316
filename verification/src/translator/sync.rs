//! The synchronization primitives that the translation knows: mutexes, threads,
//! condition variables and shared-handle wrappers.

pub mod arc_manager;
pub mod condvar;
pub mod condvar_manager;
pub mod mutex;
pub mod mutex_manager;
pub mod thread;
pub mod thread_manager;

use crate::translator::special_function::same_text;
use vstd::prelude::*;

verus! {

pub const MUTEX_NEW: &'static str = "std::sync::Mutex::<T>::new";

pub const MUTEX_LOCK: &'static str = "std::sync::Mutex::<T>::lock";

pub const THREAD_SPAWN: &'static str = "std::thread::spawn";

pub const THREAD_JOIN: &'static str = "std::thread::JoinHandle::<T>::join";

pub const CONDVAR_NEW: &'static str = "std::sync::Condvar::new";

pub const CONDVAR_WAIT: &'static str = "std::sync::Condvar::wait";

pub const CONDVAR_NOTIFY: &'static str = "std::sync::Condvar::notify_one";

pub const ARC_NEW: &'static str = "std::sync::Arc::<T>::new";

pub const ARC_CLONE: &'static str = "std::clone::Clone::clone";

pub const ARC_DEREF: &'static str = "std::ops::Deref::deref";

pub const DROP: &'static str = "std::mem::drop";

/// Checks whether the function name corresponds to `std::sync::Mutex::<T>::new`.
pub fn is_mutex_new(function_name: &str) -> (is: bool)
    ensures
        is == (function_name@ == MUTEX_NEW@),
{
    same_text(function_name, MUTEX_NEW)
}

/// Checks whether the function name corresponds to `std::sync::Mutex::<T>::lock`.
pub fn is_mutex_lock(function_name: &str) -> (is: bool)
    ensures
        is == (function_name@ == MUTEX_LOCK@),
{
    same_text(function_name, MUTEX_LOCK)
}

/// Checks whether the function name corresponds to `std::thread::spawn`.
pub fn is_thread_spawn(function_name: &str) -> (is: bool)
    ensures
        is == (function_name@ == THREAD_SPAWN@),
{
    same_text(function_name, THREAD_SPAWN)
}

/// Checks whether the function name corresponds to `std::thread::JoinHandle::<T>::join`.
pub fn is_thread_join(function_name: &str) -> (is: bool)
    ensures
        is == (function_name@ == THREAD_JOIN@),
{
    same_text(function_name, THREAD_JOIN)
}

/// Checks whether the function name corresponds to `std::sync::Condvar::new`.
pub fn is_condvar_new(function_name: &str) -> (is: bool)
    ensures
        is == (function_name@ == CONDVAR_NEW@),
{
    same_text(function_name, CONDVAR_NEW)
}

/// Checks whether the function name corresponds to `std::sync::Condvar::wait`.
pub fn is_condvar_wait(function_name: &str) -> (is: bool)
    ensures
        is == (function_name@ == CONDVAR_WAIT@),
{
    same_text(function_name, CONDVAR_WAIT)
}

/// Checks whether the function name corresponds to `std::sync::Condvar::notify_one`.
pub fn is_condvar_notify(function_name: &str) -> (is: bool)
    ensures
        is == (function_name@ == CONDVAR_NOTIFY@),
{
    same_text(function_name, CONDVAR_NOTIFY)
}

/// Checks whether the function name corresponds to `std::sync::Arc::<T>::new`.
pub fn is_arc_new(function_name: &str) -> (is: bool)
    ensures
        is == (function_name@ == ARC_NEW@),
{
    same_text(function_name, ARC_NEW)
}

/// Checks whether the function name corresponds to `std::clone::Clone::clone`.
pub fn is_arc_clone(function_name: &str) -> (is: bool)
    ensures
        is == (function_name@ == ARC_CLONE@),
{
    same_text(function_name, ARC_CLONE)
}

/// Checks whether the function name corresponds to `std::ops::Deref::deref`.
pub fn is_arc_deref(function_name: &str) -> (is: bool)
    ensures
        is == (function_name@ == ARC_DEREF@),
{
    same_text(function_name, ARC_DEREF)
}

/// Checks whether the function name corresponds to `std::mem::drop`.
pub fn is_drop(function_name: &str) -> (is: bool)
    ensures
        is == (function_name@ == DROP@),
{
    same_text(function_name, DROP)
}

/// The functions of the synchronization primitives, which are translated without
/// a walk through their blocks.
pub open spec fn is_primitive_spec(function_name: Seq<char>) -> bool {
    ||| function_name == MUTEX_NEW@
    ||| function_name == MUTEX_LOCK@
    ||| function_name == DROP@
    ||| function_name == THREAD_SPAWN@
    ||| function_name == THREAD_JOIN@
    ||| function_name == CONDVAR_NEW@
    ||| function_name == CONDVAR_WAIT@
    ||| function_name == CONDVAR_NOTIFY@
    ||| function_name == ARC_NEW@
    ||| function_name == ARC_CLONE@
    ||| function_name == ARC_DEREF@
}

/// Checks whether the function name is that of a function of a synchronization
/// primitive.
pub fn is_primitive(function_name: &str) -> (is: bool)
    ensures
        is == is_primitive_spec(function_name@),
{
    is_mutex_new(function_name) || is_mutex_lock(function_name) || is_drop(function_name)
        || is_thread_spawn(function_name) || is_thread_join(function_name) || is_condvar_new(
        function_name,
    ) || is_condvar_wait(function_name) || is_condvar_notify(function_name) || is_arc_new(
        function_name,
    ) || is_arc_clone(function_name) || is_arc_deref(function_name)
}

} // verus!
