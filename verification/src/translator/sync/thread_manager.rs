//! Central structure to keep track of the threads in the code.
//!
//! The `ThreadManager` stores the threads discovered so far in the code.
//! It also performs the translation for each thread function.
//!
//! Once the translation of the main thread is over, each thread stored
//! here will be translated in the order in which the threads were spawned.

use crate::control_flow::{Location, Operand};
use crate::error_handling::TranslationError;
use crate::naming::sync::{call_transition_labels, call_transition_labels_spec};
use crate::naming::{count_up, next_index};
use crate::petri_net_interface::{agrees, Net, NetView, TransitionId};
use crate::translator::function_call::{argument_location, extract_nth_argument, FunctionPlaces};
use crate::translator::mir_function::memory::{
    handles_by_root,
    lookup,
    Memory,
    MemoryView,
    MutexEntries,
};
use crate::translator::special_function::{call_foreign_function, foreign_call_spec};
use crate::translator::sync::mutex_manager::MutexRef;
use crate::translator::sync::thread::{copy_mutex_entries, Thread, ThreadView};
use crate::translator::sync::{THREAD_JOIN, THREAD_SPAWN};
use crate::translator::thread::thread_span::ThreadSpan;
use std::collections::VecDeque;
use vstd::prelude::*;

verus! {

/// The threads of the program, in the order in which they were spawned. The first
/// of them have been handed out for translation, the others wait for it.
///
/// A thread that has been handed out stays in the queue, behind the mark of the
/// threads that have been handed out: the references to the threads are positions
/// in the queue, and they stay good only if no thread leaves it.
pub struct ThreadManager {
    threads: VecDeque<Thread>,
    translated: usize,
    join_counter: usize,
}

/// A wrapper type around the indexes to the elements in `VecDeque<Thread>`.
#[derive(Clone, Copy, PartialEq, Eq, Structural, Debug)]
pub struct ThreadRef(pub usize);

/// The mathematical model of a [`ThreadManager`].
pub struct ThreadManagerView {
    /// The threads in the order in which they were spawned.
    pub threads: Seq<ThreadView>,
    /// The number of threads that have been handed out for translation.
    pub translated: usize,
    /// The number of calls to `join` that have been translated.
    pub join_counter: usize,
}

/// The function that a call of `spawn` hands to the new thread, if its first
/// argument is a function.
pub open spec fn spawned_function(args: Seq<Operand>) -> Option<usize> {
    if args.len() > 0 {
        args[0].function
    } else {
        None
    }
}

impl ThreadManagerView {
    /// The manager without threads.
    pub open spec fn empty() -> ThreadManagerView {
        ThreadManagerView { threads: Seq::empty(), translated: 0, join_counter: 0 }
    }

    /// The threads stand in the order in which they were spawned, each under its
    /// number, and those that have been handed out are the first of them.
    pub open spec fn ordered(self) -> bool {
        &&& self.translated <= self.threads.len()
        &&& forall|i: int|
            0 <= i < self.threads.len() ==> (#[trigger] self.threads[i]).span.index == i
    }

    /// The transitions of every thread belong to the net, and the threads are
    /// numbered in the order in which they were spawned.
    pub open spec fn wf(self, net: NetView) -> bool {
        &&& self.translated <= self.threads.len()
        &&& forall|i: int|
            0 <= i < self.threads.len() ==> (#[trigger] self.threads[i]).span.wf(net)
                && self.threads[i].span.index == i
    }

    /// The net after a call of `spawn`, and the transition of the call.
    pub open spec fn translate_call_spawn(self, places: FunctionPlaces, net: NetView) -> Result<
        (NetView, TransitionId),
        TranslationError,
    > {
        foreign_call_spec(
            net,
            places,
            call_transition_labels_spec(THREAD_SPAWN@, self.threads.len()),
        )
    }

    /// The net after a call of `join`, and the transition of the call.
    pub open spec fn translate_call_join(self, places: FunctionPlaces, net: NetView) -> Result<
        (NetView, TransitionId),
        TranslationError,
    > {
        foreign_call_spec(
            net,
            places,
            call_transition_labels_spec(THREAD_JOIN@, self.join_counter as nat),
        )
    }

    /// The manager with one more thread, and the reference to it.
    pub open spec fn add_thread(
        self,
        spawn_transition: TransitionId,
        thread_function_def_id: usize,
        mutexes: Seq<MutexRef>,
    ) -> (ThreadManagerView, ThreadRef) {
        (
            ThreadManagerView {
                threads: self.threads.push(
                    ThreadView {
                        span: ThreadSpan {
                            spawn_transition,
                            thread_function_def_id,
                            join_transition: None,
                            index: self.threads.len() as usize,
                        },
                        mutexes,
                    },
                ),
                ..self
            },
            ThreadRef(self.threads.len() as usize),
        )
    }

    /// The manager after the thread has received its join transition.
    pub open spec fn set_join_transition(
        self,
        thread_ref: ThreadRef,
        join_transition: TransitionId,
    ) -> ThreadManagerView {
        ThreadManagerView {
            threads: self.threads.update(
                thread_ref.0 as int,
                ThreadView {
                    span: ThreadSpan {
                        join_transition: Some(join_transition),
                        ..self.threads[thread_ref.0 as int].span
                    },
                    mutexes: self.threads[thread_ref.0 as int].mutexes,
                },
            ),
            ..self
        }
    }

    /// What a call of `spawn` does beyond its transition: the mutexes in the local
    /// variable of the first argument leave the memory and go to a new thread,
    /// which runs the function that the first argument stands for, and the place of
    /// the return value is linked to the join handle of the thread.
    pub open spec fn translate_side_effects_spawn(
        self,
        args: Seq<Operand>,
        return_value: Location,
        transition_function_call: TransitionId,
        memory: MemoryView,
    ) -> Result<((ThreadManagerView, MemoryView), ()), TranslationError> {
        match spawned_function(args) {
            None => Err(TranslationError::UnsupportedCall),
            Some(thread_function_def_id) => {
                let (mutexes, left) = match argument_location(args, 0) {
                    Some(closure_for_spawn) => (
                        handles_by_root(memory.mutexes, closure_for_spawn.local),
                        memory.unlink_mutexes(closure_for_spawn),
                    ),
                    None => (Seq::empty(), memory),
                };
                let (manager, thread_ref) = self.add_thread(
                    transition_function_call,
                    thread_function_def_id,
                    mutexes,
                );
                Ok(((manager, left.link_join_handle(return_value, thread_ref)), ()))
            },
        }
    }

    /// What a call of `join` does beyond its transition: the thread whose join
    /// handle lies in the place of the first argument receives the transition as
    /// its join transition. The thread has not been handed out for translation
    /// yet: a thread that has been translated is not joined any more.
    pub open spec fn translate_side_effects_join(
        self,
        args: Seq<Operand>,
        transition_function_call: TransitionId,
        memory: MemoryView,
    ) -> Result<(ThreadManagerView, ()), TranslationError> {
        match argument_location(args, 0) {
            None => Err(TranslationError::UnsupportedCall),
            Some(self_ref) => match lookup(memory.join_handles, self_ref) {
                None => Err(TranslationError::UnlinkedLocation),
                Some(thread_ref) => if thread_ref.0 >= self.threads.len() || thread_ref.0
                    < self.translated {
                    Err(TranslationError::UnlinkedLocation)
                } else {
                    Ok(
                        (
                            ThreadManagerView {
                                join_counter: next_index(self.join_counter),
                                ..self.set_join_transition(thread_ref, transition_function_call)
                            },
                            (),
                        ),
                    )
                },
            },
        }
    }

    /// The manager after the next thread has been handed out, and that thread, if
    /// one is left.
    pub open spec fn pop_thread(self) -> (ThreadManagerView, Option<ThreadView>) {
        if self.translated < self.threads.len() {
            (
                ThreadManagerView { translated: (self.translated + 1) as usize, ..self },
                Some(self.threads[self.translated as int]),
            )
        } else {
            (self, None)
        }
    }
}

impl View for ThreadManager {
    type V = ThreadManagerView;

    closed spec fn view(&self) -> ThreadManagerView {
        ThreadManagerView {
            threads: Seq::new(self.threads@.len(), |i: int| self.threads@[i]@),
            translated: self.translated,
            join_counter: self.join_counter,
        }
    }
}

impl ThreadManager {
    /// Returns a new empty `ThreadManager`.
    pub fn new() -> (manager: Self)
        ensures
            manager@ == ThreadManagerView::empty(),
            manager@.ordered(),
    {
        let manager = ThreadManager { threads: VecDeque::new(), translated: 0, join_counter: 0 };
        assert(manager@.threads =~= Seq::empty());
        manager
    }

    /// Translates a call to `std::thread::spawn` like the call of a foreign
    /// function. Returns the transition that represents the function call.
    pub fn translate_call_spawn(&self, places: &FunctionPlaces, net: &mut Net) -> (result: Result<
        TransitionId,
        TranslationError,
    >)
        requires
            old(net).wf(),
            places.wf(old(net)@),
        ensures
            final(net).wf(),
            final(net)@.extends(old(net)@),
            agrees(self@.translate_call_spawn(*places, old(net)@), result, final(net)@),
            result matches Ok(transition) ==> final(net)@.has_transition(transition),
    {
        let labels = call_transition_labels(THREAD_SPAWN, self.threads.len());
        call_foreign_function(places, &labels, net)
    }

    /// Translates a call to `std::thread::JoinHandle::<T>::join` like the call of
    /// a foreign function. Returns the transition that represents the function call.
    pub fn translate_call_join(&self, places: &FunctionPlaces, net: &mut Net) -> (result: Result<
        TransitionId,
        TranslationError,
    >)
        requires
            old(net).wf(),
            places.wf(old(net)@),
        ensures
            final(net).wf(),
            final(net)@.extends(old(net)@),
            agrees(self@.translate_call_join(*places, old(net)@), result, final(net)@),
            result matches Ok(transition) ==> final(net)@.has_transition(transition),
    {
        let labels = call_transition_labels(THREAD_JOIN, self.join_counter);
        call_foreign_function(places, &labels, net)
    }

    /// Translates the side effects for `std::thread::spawn` i.e.,
    /// the specific logic of spawning a new thread.
    /// Receives a reference to the memory of the caller function to
    /// link the return local variable to the new join handle.
    pub fn translate_side_effects_spawn(
        &mut self,
        args: &Vec<Operand>,
        return_value: Location,
        transition_function_call: TransitionId,
        memory: &mut Memory,
    ) -> (result: Result<(), TranslationError>)
        ensures
            agrees(
                old(self)@.translate_side_effects_spawn(
                    args@,
                    return_value,
                    transition_function_call,
                    old(memory)@,
                ),
                result,
                (final(self)@, final(memory)@),
            ),
            result.is_ok() ==> final(self)@.threads.len() <= usize::MAX,
            old(self)@.ordered() ==> final(self)@.ordered(),
    {
        if args.len() == 0 {
            return Err(TranslationError::UnsupportedCall);
        }
        let Some(thread_function_def_id) = args[0].function else {
            return Err(TranslationError::UnsupportedCall);
        };
        let mutexes = match extract_nth_argument(args, 0) {
            Some(closure_for_spawn) => {
                let mutexes = memory.find_mutexes_linked_to_place(closure_for_spawn);
                memory.unlink_mutexes_linked_to_place(closure_for_spawn);
                mutexes
            },
            None => Vec::new(),
        };
        let thread_ref = self.add_thread(transition_function_call, thread_function_def_id, mutexes);
        // The return value contains a new join handle. Link the local variable to it.
        memory.link_place_to_join_handle(return_value, thread_ref);
        Ok(())
    }

    /// Translates the side effects for `std::thread::JoinHandle::<T>::join` i.e.,
    /// the specific logic of joining an existing thread.
    /// Receives a reference to the memory of the caller function to retrieve
    /// the join handle linked to the local variable.
    pub fn translate_side_effects_join(
        &mut self,
        args: &Vec<Operand>,
        transition_function_call: TransitionId,
        memory: &Memory,
    ) -> (result: Result<(), TranslationError>)
        ensures
            agrees(
                old(self)@.translate_side_effects_join(args@, transition_function_call, memory@),
                result,
                final(self)@,
            ),
            old(self)@.ordered() ==> final(self)@.ordered(),
    {
        // Retrieve the join handle from the local variable passed to the function as an argument.
        let Some(self_ref) = extract_nth_argument(args, 0) else {
            return Err(TranslationError::UnsupportedCall);
        };
        if !memory.is_linked_to_join_handle(self_ref) {
            return Err(TranslationError::UnlinkedLocation);
        }
        let thread_ref = memory.get_linked_join_handle(&self_ref);
        if thread_ref.0 >= self.threads.len() || thread_ref.0 < self.translated {
            return Err(TranslationError::UnlinkedLocation);
        }
        self.set_join_transition(&thread_ref, transition_function_call);
        self.join_counter = count_up(self.join_counter);
        Ok(())
    }

    /// Adds a new thread and returns a reference to it.
    pub fn add_thread(
        &mut self,
        spawn_transition: TransitionId,
        thread_function_def_id: usize,
        mutexes: MutexEntries,
    ) -> (thread_ref: ThreadRef)
        ensures
            (final(self)@, thread_ref) == old(self)@.add_thread(
                spawn_transition,
                thread_function_def_id,
                mutexes@,
            ),
            final(self)@.threads.len() <= usize::MAX,
            old(self)@.ordered() ==> final(self)@.ordered(),
    {
        let index = self.threads.len();
        self.threads.push_back(
            Thread::new(spawn_transition, thread_function_def_id, mutexes, index),
        );
        // The number of threads fits in a `usize`.
        let _ = self.threads.len();
        assert(self@.threads =~= old(self)@.add_thread(
            spawn_transition,
            thread_function_def_id,
            mutexes@,
        ).0.threads);
        ThreadRef(index)
    }

    /// Sets the join transition for a thread of the manager.
    pub fn set_join_transition(&mut self, thread_ref: &ThreadRef, join_transition: TransitionId)
        requires
            thread_ref.0 < old(self)@.threads.len(),
        ensures
            final(self)@ == old(self)@.set_join_transition(*thread_ref, join_transition),
            old(self)@.ordered() ==> final(self)@.ordered(),
    {
        if let Some(thread) = self.threads.remove(thread_ref.0) {
            let mut thread = thread;
            thread.set_join_transition(join_transition);
            self.threads.insert(thread_ref.0, thread);
        }
        assert(self@.threads =~= old(self)@.set_join_transition(
            *thread_ref,
            join_transition,
        ).threads);
    }

    /// Hands out the next thread that has not been handed out yet, or `None` if no
    /// thread is left.
    pub fn pop_thread(&mut self) -> (thread: Option<Thread>)
        ensures
            final(self)@ == old(self)@.pop_thread().0,
            old(self)@.threads.len() <= usize::MAX,
            match thread {
                Some(thread) => old(self)@.pop_thread().1 == Some(thread@),
                None => old(self)@.pop_thread().1.is_none(),
            },
            old(self)@.ordered() ==> final(self)@.ordered(),
    {
        if self.translated < self.threads.len() {
            let thread = Thread {
                span: self.threads[self.translated].span,
                mutexes: copy_mutex_entries(&self.threads[self.translated].mutexes),
            };
            self.translated += 1;
            Some(thread)
        } else {
            None
        }
    }
}

} // verus!
