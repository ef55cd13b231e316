//! Central structure to keep track of the condition variables in the code.
//!
//! The `CondvarManager` stores the condition variables discovered so far in the code.
//! It also performs the translation for each function of a condition variable.

use crate::control_flow::{Location, Operand};
use crate::error_handling::TranslationError;
use crate::naming::{count_up, next_index};
use crate::naming::sync::{
    call_transition_labels,
    call_transition_labels_spec,
    wait_transition_labels,
    wait_transition_labels_spec,
};
use crate::petri_net_interface::{agrees, Net, NetView, TransitionId};
use crate::translator::function_call::{argument_location, extract_nth_argument, FunctionPlaces};
use crate::translator::mir_function::memory::{lookup, Memory, MemoryView};
use crate::translator::special_function::{call_foreign_function, foreign_call_spec};
use crate::translator::sync::condvar::Condvar;
use crate::translator::sync::mutex_manager::{MutexManager, MutexManagerView};
use crate::translator::sync::{CONDVAR_NEW, CONDVAR_NOTIFY, CONDVAR_WAIT};
use vstd::prelude::*;

verus! {

/// The condition variables of the program, in the order of their creation, and the
/// numbers of calls of `wait` and of `notify_one` that have been translated.
pub struct CondvarManager {
    condvars: Vec<Condvar>,
    wait_counter: usize,
    notify_counter: usize,
}

/// A wrapper type around the indexes to the elements in `Vec<Condvar>`.
#[derive(Clone, Copy, PartialEq, Eq, Structural, Debug)]
pub struct CondvarRef(pub usize);

/// The mathematical model of a [`CondvarManager`].
pub struct CondvarManagerView {
    /// The condition variables in the order of their creation.
    pub condvars: Seq<Condvar>,
    /// The number of calls to `wait` that have been translated.
    pub wait_counter: usize,
    /// The number of calls to `notify_one` that have been translated.
    pub notify_counter: usize,
}

impl CondvarManagerView {
    /// The manager without condition variables.
    pub open spec fn empty() -> CondvarManagerView {
        CondvarManagerView { condvars: Seq::empty(), wait_counter: 0, notify_counter: 0 }
    }

    /// The places of every condition variable belong to the net.
    pub open spec fn wf(self, net: NetView) -> bool {
        forall|i: int| 0 <= i < self.condvars.len() ==> (#[trigger] self.condvars[i]).wf(net)
    }

    /// The net after a call of `new`, and the transition of the call.
    pub open spec fn translate_call_new(self, places: FunctionPlaces, net: NetView) -> Result<
        (NetView, TransitionId),
        TranslationError,
    > {
        foreign_call_spec(net, places, call_transition_labels_spec(CONDVAR_NEW@, self.condvars.len()))
    }

    /// What a call of `new` does beyond its transition: it creates a condition
    /// variable and links it to the place of the return value.
    pub open spec fn translate_side_effects_new(
        self,
        return_value: Location,
        net: NetView,
        memory: MemoryView,
    ) -> Result<((CondvarManagerView, NetView, MemoryView), ()), TranslationError> {
        match Condvar::new_spec(self.condvars.len() as usize, net) {
            Err(error) => Err(error),
            Ok((added, condvar)) => Ok(
                (
                    (
                        CondvarManagerView { condvars: self.condvars.push(condvar), ..self },
                        added,
                        memory.link_condvar(return_value, CondvarRef(self.condvars.len() as usize)),
                    ),
                    (),
                ),
            ),
        }
    }

    /// The net after a call of `wait`, and its two transitions: the one that leaves
    /// the start place of the call and the one that reaches its end place. Where
    /// the call can unwind, a third transition leads from the start place to the
    /// cleanup place.
    pub open spec fn translate_call_wait(self, places: FunctionPlaces, net: NetView) -> Result<
        (NetView, (TransitionId, TransitionId)),
        TranslationError,
    > {
        let labels = wait_transition_labels_spec(CONDVAR_WAIT@, self.wait_counter as nat);
        match net.try_add_transition(labels.0) {
            Err(error) => Err(error),
            Ok((first, park)) => match first.add_arc_in(
                places.start_place,
                park,
            ).try_add_transition(labels.1) {
                Err(error) => Err(error),
                Ok((second, resume)) => {
                    let resumed = second.add_arc_out(resume, places.end_place);
                    match places.cleanup_place {
                        None => Ok((resumed, (park, resume))),
                        Some(cleanup) => match resumed.connect(
                            places.start_place,
                            cleanup,
                            labels.2,
                        ) {
                            Err(error) => Err(error),
                            Ok((unwound, _)) => Ok((unwound, (park, resume))),
                        },
                    }
                },
            },
        }
    }

    /// What a call of `wait` does beyond its transitions: the condition variable
    /// lies in the place of the first argument and the guard of the mutex in the
    /// place of the second. The transitions park and resume a thread, and the place
    /// of the return value is linked to the guard.
    pub open spec fn translate_side_effects_wait(
        self,
        args: Seq<Operand>,
        return_value: Location,
        park: TransitionId,
        resume: TransitionId,
        mutexes: MutexManagerView,
        net: NetView,
        memory: MemoryView,
    ) -> Result<((CondvarManagerView, NetView, MemoryView), ()), TranslationError> {
        match (argument_location(args, 0), argument_location(args, 1)) {
            (Some(condvar_place), Some(guard_place)) => match (
                lookup(memory.condvars, condvar_place),
                lookup(memory.lock_guards, guard_place),
            ) {
                (Some(condvar_ref), Some(mutex_ref)) => if condvar_ref.0 >= self.condvars.len() {
                    Err(TranslationError::UnlinkedLocation)
                } else {
                    match mutexes.get_mutex(mutex_ref) {
                        None => Err(TranslationError::UnlinkedLocation),
                        Some(mutex) => Ok(
                            (
                                (
                                    CondvarManagerView {
                                        wait_counter: next_index(self.wait_counter),
                                        ..self
                                    },
                                    self.condvars[condvar_ref.0 as int].waited_by(
                                        park,
                                        resume,
                                        mutex,
                                        net,
                                    ),
                                    memory.link_lock_guard(return_value, mutex_ref),
                                ),
                                (),
                            ),
                        ),
                    }
                },
                _ => Err(TranslationError::UnlinkedLocation),
            },
            _ => Err(TranslationError::UnsupportedCall),
        }
    }

    /// The net after a call of `notify_one`, and the transition of the call.
    pub open spec fn translate_call_notify(self, places: FunctionPlaces, net: NetView) -> Result<
        (NetView, TransitionId),
        TranslationError,
    > {
        foreign_call_spec(
            net,
            places,
            call_transition_labels_spec(CONDVAR_NOTIFY@, self.notify_counter as nat),
        )
    }

    /// What a call of `notify_one` does beyond its transition: the transition
    /// notifies the condition variable in the place of the first argument.
    pub open spec fn translate_side_effects_notify(
        self,
        args: Seq<Operand>,
        transition_function_call: TransitionId,
        net: NetView,
        memory: MemoryView,
    ) -> Result<((CondvarManagerView, NetView), ()), TranslationError> {
        match argument_location(args, 0) {
            None => Err(TranslationError::UnsupportedCall),
            Some(condvar_place) => match lookup(memory.condvars, condvar_place) {
                None => Err(TranslationError::UnlinkedLocation),
                Some(condvar_ref) => if condvar_ref.0 >= self.condvars.len() {
                    Err(TranslationError::UnlinkedLocation)
                } else {
                    Ok(
                        (
                            (
                                CondvarManagerView {
                                    notify_counter: next_index(self.notify_counter),
                                    ..self
                                },
                                self.condvars[condvar_ref.0 as int].notified_by(
                                    transition_function_call,
                                    net,
                                ),
                            ),
                            (),
                        ),
                    )
                },
            },
        }
    }
}

impl View for CondvarManager {
    type V = CondvarManagerView;

    closed spec fn view(&self) -> CondvarManagerView {
        CondvarManagerView {
            condvars: self.condvars@,
            wait_counter: self.wait_counter,
            notify_counter: self.notify_counter,
        }
    }
}

impl CondvarManager {
    /// Returns a new empty `CondvarManager`.
    pub fn new() -> (manager: Self)
        ensures
            manager@ == CondvarManagerView::empty(),
    {
        CondvarManager { condvars: Vec::new(), wait_counter: 0, notify_counter: 0 }
    }

    /// Translates a call to `std::sync::Condvar::new` like the call of a foreign
    /// function. Returns the transition that represents the function call.
    pub fn translate_call_new(&self, places: &FunctionPlaces, net: &mut Net) -> (result: Result<
        TransitionId,
        TranslationError,
    >)
        requires
            old(net).wf(),
            places.wf(old(net)@),
        ensures
            final(net).wf(),
            final(net)@.extends(old(net)@),
            agrees(self@.translate_call_new(*places, old(net)@), result, final(net)@),
    {
        let labels = call_transition_labels(CONDVAR_NEW, self.condvars.len());
        call_foreign_function(places, &labels, net)
    }

    /// Translates the side effects for `std::sync::Condvar::new` i.e.,
    /// the specific logic of creating a new condition variable.
    pub fn translate_side_effects_new(
        &mut self,
        return_value: Location,
        net: &mut Net,
        memory: &mut Memory,
    ) -> (result: Result<(), TranslationError>)
        requires
            old(net).wf(),
            old(self)@.wf(old(net)@),
        ensures
            final(net).wf(),
            final(net)@.extends(old(net)@),
            final(self)@.wf(final(net)@),
            agrees(
                old(self)@.translate_side_effects_new(return_value, old(net)@, old(memory)@),
                result,
                (final(self)@, final(net)@, final(memory)@),
            ),
    {
        let index = self.condvars.len();
        let condvar = match Condvar::new(index, net) {
            Ok(condvar) => condvar,
            Err(error) => {
                return Err(error);
            },
        };
        self.condvars.push(condvar);
        memory.link_place_to_condvar(return_value, CondvarRef(index));
        Ok(())
    }

    /// Translates a call to `std::sync::Condvar::wait`. Returns the transition that
    /// leaves the start place of the call and the one that reaches its end place.
    pub fn translate_call_wait(&self, places: &FunctionPlaces, net: &mut Net) -> (result: Result<
        (TransitionId, TransitionId),
        TranslationError,
    >)
        requires
            old(net).wf(),
            places.wf(old(net)@),
        ensures
            final(net).wf(),
            final(net)@.extends(old(net)@),
            agrees(self@.translate_call_wait(*places, old(net)@), result, final(net)@),
    {
        let labels = wait_transition_labels(CONDVAR_WAIT, self.wait_counter);
        let park = match net.try_add_transition(labels.0.as_str()) {
            Ok(transition) => transition,
            Err(error) => {
                return Err(error);
            },
        };
        net.add_arc_place_transition(&places.start_place, &park);
        let resume = match net.try_add_transition(labels.1.as_str()) {
            Ok(transition) => transition,
            Err(error) => {
                return Err(error);
            },
        };
        net.add_arc_transition_place(&resume, &places.end_place);
        if let Some(cleanup) = places.cleanup_place {
            if let Err(error) = net.connect_places(&places.start_place, &cleanup, labels.2.as_str()) {
                return Err(error);
            }
        }
        Ok((park, resume))
    }

    /// Translates the side effects for `std::sync::Condvar::wait` i.e.,
    /// the specific logic of waiting on a condition variable.
    pub fn translate_side_effects_wait(
        &mut self,
        args: &Vec<Operand>,
        return_value: Location,
        park: &TransitionId,
        resume: &TransitionId,
        mutexes: &MutexManager,
        net: &mut Net,
        memory: &mut Memory,
    ) -> (result: Result<(), TranslationError>)
        requires
            old(net).wf(),
            old(self)@.wf(old(net)@),
            mutexes@.wf(old(net)@),
            old(net)@.has_transition(*park),
            old(net)@.has_transition(*resume),
        ensures
            final(net).wf(),
            final(net)@.extends(old(net)@),
            final(self)@.wf(final(net)@),
            agrees(
                old(self)@.translate_side_effects_wait(
                    args@,
                    return_value,
                    *park,
                    *resume,
                    mutexes@,
                    old(net)@,
                    old(memory)@,
                ),
                result,
                (final(self)@, final(net)@, final(memory)@),
            ),
    {
        let (Some(condvar_place), Some(guard_place)) = (
            extract_nth_argument(args, 0),
            extract_nth_argument(args, 1),
        ) else {
            return Err(TranslationError::UnsupportedCall);
        };
        if !memory.is_linked_to_condvar(condvar_place) || !memory.is_linked_to_lock_guard(
            guard_place,
        ) {
            return Err(TranslationError::UnlinkedLocation);
        }
        let condvar_ref = memory.get_linked_condvar(&condvar_place);
        let mutex_ref = memory.get_linked_lock_guard(&guard_place);
        if condvar_ref.0 >= self.condvars.len() {
            return Err(TranslationError::UnlinkedLocation);
        }
        let Some(mutex) = mutexes.get_mutex(&mutex_ref) else {
            return Err(TranslationError::UnlinkedLocation);
        };
        self.condvars[condvar_ref.0].add_wait(park, resume, &mutex, net);
        self.wait_counter = count_up(self.wait_counter);
        memory.link_place_to_lock_guard(return_value, mutex_ref);
        Ok(())
    }

    /// Translates a call to `std::sync::Condvar::notify_one` like the call of a
    /// foreign function. Returns the transition that represents the function call.
    pub fn translate_call_notify(&self, places: &FunctionPlaces, net: &mut Net) -> (result: Result<
        TransitionId,
        TranslationError,
    >)
        requires
            old(net).wf(),
            places.wf(old(net)@),
        ensures
            final(net).wf(),
            final(net)@.extends(old(net)@),
            agrees(self@.translate_call_notify(*places, old(net)@), result, final(net)@),
    {
        let labels = call_transition_labels(CONDVAR_NOTIFY, self.notify_counter);
        call_foreign_function(places, &labels, net)
    }

    /// Translates the side effects for `std::sync::Condvar::notify_one` i.e.,
    /// the specific logic of notifying a condition variable.
    pub fn translate_side_effects_notify(
        &mut self,
        args: &Vec<Operand>,
        transition_function_call: &TransitionId,
        net: &mut Net,
        memory: &Memory,
    ) -> (result: Result<(), TranslationError>)
        requires
            old(net).wf(),
            old(self)@.wf(old(net)@),
            old(net)@.has_transition(*transition_function_call),
        ensures
            final(net).wf(),
            final(net)@.extends(old(net)@),
            final(self)@.wf(final(net)@),
            agrees(
                old(self)@.translate_side_effects_notify(
                    args@,
                    *transition_function_call,
                    old(net)@,
                    memory@,
                ),
                result,
                (final(self)@, final(net)@),
            ),
    {
        let Some(condvar_place) = extract_nth_argument(args, 0) else {
            return Err(TranslationError::UnsupportedCall);
        };
        if !memory.is_linked_to_condvar(condvar_place) {
            return Err(TranslationError::UnlinkedLocation);
        }
        let condvar_ref = memory.get_linked_condvar(&condvar_place);
        if condvar_ref.0 >= self.condvars.len() {
            return Err(TranslationError::UnlinkedLocation);
        }
        self.condvars[condvar_ref.0].add_notify(transition_function_call, net);
        self.notify_counter = count_up(self.notify_counter);
        Ok(())
    }
}

} // verus!
