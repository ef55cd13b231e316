//! Central structure to keep track of the mutexes in the code.
//!
//! The `MutexManager` stores the mutexes discovered so far in the code.
//! It also performs the translation for each mutex function.

use crate::control_flow::{Location, Operand};
use crate::error_handling::TranslationError;
use crate::naming::sync::{call_transition_labels, call_transition_labels_spec};
use crate::naming::{count_up, next_index};
use crate::petri_net_interface::{agrees, Net, NetView, PlaceId, TransitionId};
use crate::token_game::{
    enabled,
    fire,
    fire_in_turn,
    lemma_second_taker_is_blocked,
    may_fire_in_turn,
};
use crate::translator::function_call::{argument_location, extract_nth_argument, FunctionPlaces};
use crate::translator::mir_function::memory::{
    lemma_link_then_lookup,
    lookup,
    Memory,
    MemoryView,
};
use crate::translator::special_function::{call_foreign_function, foreign_call_spec};
use crate::translator::sync::mutex::Mutex;
use crate::translator::sync::{is_mutex_lock, is_mutex_new, MUTEX_LOCK, MUTEX_NEW};
use vstd::prelude::*;

verus! {

/// The mutexes of the program, in the order of their creation, and the number of
/// calls of `lock` that have been translated.
pub struct MutexManager {
    mutexes: Vec<Mutex>,
    lock_counter: usize,
}

/// A wrapper type around the indexes to the elements in `Vec<Mutex>`.
#[derive(Clone, Copy, PartialEq, Eq, Structural, Debug)]
pub struct MutexRef(pub usize);

/// The mathematical model of a [`MutexManager`].
pub struct MutexManagerView {
    /// The mutexes in the order of their creation.
    pub mutexes: Seq<Mutex>,
    /// The number of calls to `lock` that have been translated.
    pub lock_counter: usize,
}

impl MutexManagerView {
    /// The places of every mutex belong to the net.
    pub open spec fn wf(self, net: NetView) -> bool {
        forall|i: int| 0 <= i < self.mutexes.len() ==> (#[trigger] self.mutexes[i]).wf(net)
    }

    /// The mutex that the reference stands for, if it is one of the manager.
    pub open spec fn get_mutex(self, mutex_ref: MutexRef) -> Option<Mutex> {
        if mutex_ref.0 < self.mutexes.len() {
            Some(self.mutexes[mutex_ref.0 as int])
        } else {
            None
        }
    }

    /// The number that the next call of the function receives in its label.
    pub open spec fn call_index(self, function_name: Seq<char>) -> usize {
        if function_name == MUTEX_NEW@ {
            self.mutexes.len() as usize
        } else {
            self.lock_counter
        }
    }

    /// The net after the call of a mutex function, and the transition of the call.
    pub open spec fn translate_function_call(
        self,
        function_name: Seq<char>,
        places: FunctionPlaces,
        net: NetView,
    ) -> Result<(NetView, TransitionId), TranslationError> {
        foreign_call_spec(
            net,
            places,
            call_transition_labels_spec(function_name, self.call_index(function_name) as nat),
        )
    }

    /// The manager and the net with one more mutex, and the reference to it.
    pub open spec fn add_mutex(self, net: NetView) -> Result<
        ((MutexManagerView, NetView), MutexRef),
        TranslationError,
    > {
        match Mutex::new_spec(self.mutexes.len() as usize, net) {
            Err(error) => Err(error),
            Ok((added, mutex)) => Ok(
                (
                    (MutexManagerView { mutexes: self.mutexes.push(mutex), ..self }, added),
                    MutexRef(self.mutexes.len() as usize),
                ),
            ),
        }
    }

    /// The manager and the net after the transition has become a lock of the mutex.
    pub open spec fn add_lock_guard(
        self,
        mutex_ref: MutexRef,
        transition_lock: TransitionId,
        net: NetView,
    ) -> (MutexManagerView, NetView) {
        (
            MutexManagerView { lock_counter: next_index(self.lock_counter), ..self },
            self.mutexes[mutex_ref.0 as int].locked_by(transition_lock, net),
        )
    }

    /// What the call of a mutex function does beyond its transition.
    ///
    /// `new` creates a mutex, lets the transition free it and links the mutex to
    /// the place of the return value. `lock` finds the mutex in the place of the
    /// first argument, lets the transition lock it and links the place of the
    /// return value to the guard of the mutex. Other functions do nothing.
    pub open spec fn translate_function_side_effects(
        self,
        function_name: Seq<char>,
        args: Seq<Operand>,
        return_value: Location,
        transition_function_call: TransitionId,
        net: NetView,
        memory: MemoryView,
    ) -> Result<((MutexManagerView, NetView, MemoryView), ()), TranslationError> {
        if function_name == MUTEX_NEW@ {
            match self.add_mutex(net) {
                Err(error) => Err(error),
                Ok(((manager, added), mutex_ref)) => Ok(
                    (
                        (
                            manager,
                            manager.mutexes[mutex_ref.0 as int].created_by(
                                transition_function_call,
                                added,
                            ),
                            memory.link_mutex(return_value, mutex_ref),
                        ),
                        (),
                    ),
                ),
            }
        } else if function_name == MUTEX_LOCK@ {
            match argument_location(args, 0) {
                None => Err(TranslationError::UnsupportedCall),
                Some(self_ref) => match lookup(memory.mutexes, self_ref) {
                    None => Err(TranslationError::UnlinkedLocation),
                    Some(mutex_ref) => if mutex_ref.0 >= self.mutexes.len() {
                        Err(TranslationError::UnlinkedLocation)
                    } else {
                        let (manager, locked) = self.add_lock_guard(
                            mutex_ref,
                            transition_function_call,
                            net,
                        );
                        Ok(((manager, locked, memory.link_lock_guard(return_value, mutex_ref)), ()))
                    },
                },
            }
        } else {
            Ok(((self, net, memory), ()))
        }
    }

    /// The net after the transition has ended the value in the place of the first
    /// argument: where that is the guard of a mutex, the transition unlocks it.
    pub open spec fn translate_drop_side_effects(
        self,
        args: Seq<Operand>,
        transition_function_call: TransitionId,
        net: NetView,
        memory: MemoryView,
    ) -> Result<(NetView, ()), TranslationError> {
        match argument_location(args, 0) {
            None => Ok((net, ())),
            Some(dropped) => match lookup(memory.lock_guards, dropped) {
                None => Ok((net, ())),
                Some(mutex_ref) => if mutex_ref.0 >= self.mutexes.len() {
                    Err(TranslationError::UnlinkedLocation)
                } else {
                    Ok(
                        (
                            self.mutexes[mutex_ref.0 as int].unlocked_by(
                                transition_function_call,
                                net,
                            ),
                            (),
                        ),
                    )
                },
            },
        }
    }
}

/// Where a call of `new` has put a mutex in a place and a call of `lock` takes its
/// mutex from this place, the transition of the lock takes a token from the place
/// that holds one while the new mutex is free, and puts one on the place that holds
/// one while it is held.
pub proof fn lemma_lock_takes_the_new_mutex(
    manager: MutexManagerView,
    net: NetView,
    memory: MemoryView,
    mutex_place: Location,
    transition_new: TransitionId,
    args: Seq<Operand>,
    guard_place: Location,
    transition_lock: TransitionId,
)
    requires
        manager.mutexes.len() < usize::MAX,
        manager.translate_function_side_effects(
            MUTEX_NEW@,
            Seq::empty(),
            mutex_place,
            transition_new,
            net,
            memory,
        ).is_ok(),
        argument_location(args, 0) == Some(mutex_place),
    ensures
        ({
            let (created, with_mutex, linked) = manager.translate_function_side_effects(
                MUTEX_NEW@,
                Seq::empty(),
                mutex_place,
                transition_new,
                net,
                memory,
            ).unwrap().0;
            let locking = created.translate_function_side_effects(
                MUTEX_LOCK@,
                args,
                guard_place,
                transition_lock,
                with_mutex,
                linked,
            );
            let mutex = created.mutexes.last();
            &&& created.mutexes == manager.mutexes.push(mutex)
            &&& with_mutex.has_arc_out(transition_new, mutex.unlocked)
            &&& locking.is_ok()
            &&& locking.unwrap().0.1.has_arc_in(mutex.unlocked, transition_lock)
            &&& locking.unwrap().0.1.has_arc_out(transition_lock, mutex.locked)
            &&& lookup(locking.unwrap().0.2.lock_guards, guard_place) == Some(
                MutexRef(manager.mutexes.len() as usize),
            )
        }),
{
    reveal_strlit("std::sync::Mutex::<T>::new");
    reveal_strlit("std::sync::Mutex::<T>::lock");
    assert(MUTEX_NEW@.len() != MUTEX_LOCK@.len());
    let mutex_ref = MutexRef(manager.mutexes.len() as usize);
    lemma_link_then_lookup(memory.mutexes, mutex_place, mutex_ref, mutex_place);
    lemma_link_then_lookup(memory.lock_guards, guard_place, mutex_ref, guard_place);
}

/// The state after a call of `lock`: its transition and its side effects.
pub open spec fn lock_call_spec(
    manager: MutexManagerView,
    net: NetView,
    memory: MemoryView,
    places: FunctionPlaces,
    args: Seq<Operand>,
    guard_place: Location,
) -> Result<((MutexManagerView, NetView, MemoryView), TransitionId), TranslationError> {
    match manager.translate_function_call(MUTEX_LOCK@, places, net) {
        Err(error) => Err(error),
        Ok((called, transition)) => match manager.translate_function_side_effects(
            MUTEX_LOCK@,
            args,
            guard_place,
            transition,
            called,
            memory,
        ) {
            Err(error) => Err(error),
            Ok((state, _)) => Ok((state, transition)),
        },
    }
}

/// The transition of a call of `lock` takes a token from the place of the free
/// mutex and puts none back on it, provided that the call does not end in this
/// place. The arcs that the net had before are still there, and no arc of an
/// earlier transition has been added. Where the call can unwind, the transition of
/// the unwinding, which is the next after that of the call, leads from the start
/// place of the call to the cleanup place and has no other arc: a panic while the
/// lock is taken does not release the mutex.
pub proof fn lemma_lock_call_takes_the_token(
    manager: MutexManagerView,
    net: NetView,
    memory: MemoryView,
    places: FunctionPlaces,
    args: Seq<Operand>,
    guard_place: Location,
)
    requires
        net.wf(),
        net.transitions.len() + 2 <= usize::MAX,
        manager.wf(net),
        places.wf(net),
        lock_call_spec(manager, net, memory, places, args, guard_place).is_ok(),
    ensures
        argument_location(args, 0) matches Some(mutex_place) && (lookup(
            memory.mutexes,
            mutex_place,
        ) matches Some(mutex_ref) && (lock_call_spec(
            manager,
            net,
            memory,
            places,
            args,
            guard_place,
        ) matches Ok(((locked_manager, locked, linked), transition)) && {
            &&& mutex_ref.0 < manager.mutexes.len()
            &&& ({
                let mutex = manager.mutexes[mutex_ref.0 as int];
                let unwinding = TransitionId { index: (transition.index + 1) as usize };
                &&& locked.wf()
                &&& locked.extends(net)
                &&& locked_manager.mutexes == manager.mutexes
                &&& locked_manager.wf(locked)
                &&& linked.mutexes == memory.mutexes
                &&& transition == net.next_transition()
                &&& locked.has_transition(transition)
                &&& locked.has_arc_in(mutex.unlocked, transition)
                &&& places.end_place != mutex.unlocked ==> !locked.has_arc_out(
                    transition,
                    mutex.unlocked,
                )
                &&& forall|place: PlaceId|
                    places.cleanup_place.is_some() ==> (#[trigger] locked.has_arc_in(
                        place,
                        unwinding,
                    ) <==> place == places.start_place)
                &&& forall|place: PlaceId|
                    places.cleanup_place.is_some() ==> (#[trigger] locked.has_arc_out(
                        unwinding,
                        place,
                    ) <==> Some(place) == places.cleanup_place)
                &&& forall|earlier: TransitionId, place: PlaceId|
                    net.has_transition(earlier) ==> locked.has_arc_out(earlier, place)
                        == net.has_arc_out(earlier, place)
            })
        })),
{
    reveal_strlit("std::sync::Mutex::<T>::new");
    reveal_strlit("std::sync::Mutex::<T>::lock");
    assert(MUTEX_NEW@.len() != MUTEX_LOCK@.len());
    let ((locked_manager, locked, linked), transition) = lock_call_spec(
        manager,
        net,
        memory,
        places,
        args,
        guard_place,
    ).unwrap();
    let mutex_ref = lookup(memory.mutexes, argument_location(args, 0).unwrap()).unwrap();
    let mutex = manager.mutexes[mutex_ref.0 as int];
    assert(mutex.wf(net));
    let t = transition.index as int;
    assert(!net.arcs_out.contains((t, mutex.unlocked.index as int)));
    assert forall|earlier: TransitionId, place: PlaceId|
        net.has_transition(earlier) implies locked.has_arc_out(earlier, place)
        == net.has_arc_out(earlier, place) by {}
    assert forall|i: int| 0 <= i < locked_manager.mutexes.len() implies (
    #[trigger] locked_manager.mutexes[i]).wf(locked) by {
        assert(manager.mutexes[i].wf(net));
    }
}

/// Two calls of `lock` on the same mutex, the second right after the first: once
/// the transition of the first call has taken the only token of the free mutex,
/// the transition of the second call cannot fire, neither at once nor after other
/// transitions, unless one of them puts a token back on the place of the free
/// mutex. The first call does not end in the place of the free mutex.
pub proof fn lemma_second_lock_is_blocked(
    manager: MutexManagerView,
    net: NetView,
    memory: MemoryView,
    mutex_ref: MutexRef,
    first_places: FunctionPlaces,
    first_args: Seq<Operand>,
    first_guard: Location,
    second_places: FunctionPlaces,
    second_args: Seq<Operand>,
    second_guard: Location,
    marking: Seq<nat>,
    between: Seq<TransitionId>,
)
    requires
        net.wf(),
        net.transitions.len() + 4 <= usize::MAX,
        manager.wf(net),
        first_places.wf(net),
        second_places.wf(net),
        mutex_ref.0 < manager.mutexes.len(),
        argument_location(first_args, 0) matches Some(place) && lookup(memory.mutexes, place)
            == Some(mutex_ref),
        argument_location(second_args, 0) matches Some(place) && lookup(memory.mutexes, place)
            == Some(mutex_ref),
        first_places.end_place != manager.mutexes[mutex_ref.0 as int].unlocked,
        manager.mutexes[mutex_ref.0 as int].unlocked.index < marking.len(),
        marking[manager.mutexes[mutex_ref.0 as int].unlocked.index as int] == 1,
        lock_call_spec(manager, net, memory, first_places, first_args, first_guard) matches Ok(
            ((manager_between, net_between, memory_between), first),
        ) && lock_call_spec(
            manager_between,
            net_between,
            memory_between,
            second_places,
            second_args,
            second_guard,
        ) matches Ok(((_, locked_twice, _), _)) && may_fire_in_turn(
            locked_twice,
            fire(locked_twice, marking, first),
            between,
        ) && forall|i: int|
            0 <= i < between.len() ==> !locked_twice.has_arc_out(
                #[trigger] between[i],
                manager.mutexes[mutex_ref.0 as int].unlocked,
            ),
    ensures
        lock_call_spec(manager, net, memory, first_places, first_args, first_guard) matches Ok(
            ((manager_between, net_between, memory_between), first),
        ) && lock_call_spec(
            manager_between,
            net_between,
            memory_between,
            second_places,
            second_args,
            second_guard,
        ) matches Ok(((_, locked_twice, _), second)) && first != second && !between.contains(
            second,
        ) && !enabled(
            locked_twice,
            fire_in_turn(locked_twice, fire(locked_twice, marking, first), between),
            second,
        ),
{
    lemma_lock_call_takes_the_token(manager, net, memory, first_places, first_args, first_guard);
    let ((manager1, net1, memory1), first) = lock_call_spec(
        manager,
        net,
        memory,
        first_places,
        first_args,
        first_guard,
    ).unwrap();
    lemma_lock_call_takes_the_token(
        manager1,
        net1,
        memory1,
        second_places,
        second_args,
        second_guard,
    );
    let ((_, net2, _), second) = lock_call_spec(
        manager1,
        net1,
        memory1,
        second_places,
        second_args,
        second_guard,
    ).unwrap();
    let unlocked = manager.mutexes[mutex_ref.0 as int].unlocked;
    assert(net2.has_arc_in(unlocked, first));
    assert(net2.has_arc_out(first, unlocked) == net1.has_arc_out(first, unlocked));
    lemma_second_taker_is_blocked(net2, marking, unlocked, first, second, between);
}

impl View for MutexManager {
    type V = MutexManagerView;

    closed spec fn view(&self) -> MutexManagerView {
        MutexManagerView { mutexes: self.mutexes@, lock_counter: self.lock_counter }
    }
}

impl MutexManager {
    /// Returns a new empty `MutexManager`
    pub fn new() -> (manager: Self)
        ensures
            manager@ == (MutexManagerView { mutexes: Seq::empty(), lock_counter: 0 }),
    {
        MutexManager { mutexes: Vec::new(), lock_counter: 0 }
    }

    /// Translates a mutex function call using the same logic as for a foreign
    /// function. Returns the transition that represents the function call.
    ///
    /// The naming depends:
    /// - For `std::sync::Mutex::<T>::new` the numbering follows the numbering of the
    ///   labels of the mutexes.
    /// - For `std::sync::Mutex::<T>::lock` a separate counter is incremented every time
    ///   that the function is called.
    pub fn translate_function_call(
        &self,
        function_name: &str,
        places: &FunctionPlaces,
        net: &mut Net,
    ) -> (result: Result<TransitionId, TranslationError>)
        requires
            old(net).wf(),
            places.wf(old(net)@),
        ensures
            final(net).wf(),
            final(net)@.extends(old(net)@),
            agrees(
                self@.translate_function_call(function_name@, *places, old(net)@),
                result,
                final(net)@,
            ),
    {
        let index = if is_mutex_new(function_name) {
            self.mutexes.len()
        } else {
            self.lock_counter
        };
        let labels = call_transition_labels(function_name, index);
        call_foreign_function(places, &labels, net)
    }

    /// Translates the side effects for the methods of `std::sync::Mutex`, i.e.,
    /// the specific logic of creating a new mutex and locking it.
    /// Receives a reference to the memory of the caller function to update
    /// and retrieve the mapping between local variables and mutex references.
    pub fn translate_function_side_effects(
        &mut self,
        function_name: &str,
        args: &Vec<Operand>,
        return_value: Location,
        transition_function_call: &TransitionId,
        net: &mut Net,
        memory: &mut Memory,
    ) -> (result: Result<(), TranslationError>)
        requires
            old(net).wf(),
            old(self)@.wf(old(net)@),
            old(net)@.has_transition(*transition_function_call),
        ensures
            final(net).wf(),
            final(net)@.extends(old(net)@),
            final(self)@.wf(final(net)@),
            agrees(
                old(self)@.translate_function_side_effects(
                    function_name@,
                    args@,
                    return_value,
                    *transition_function_call,
                    old(net)@,
                    old(memory)@,
                ),
                result,
                (final(self)@, final(net)@, final(memory)@),
            ),
    {
        if is_mutex_new(function_name) {
            let mutex_ref = match self.add_mutex(net) {
                Ok(mutex_ref) => mutex_ref,
                Err(error) => {
                    return Err(error);
                },
            };
            self.mutexes[mutex_ref.0].add_creation(transition_function_call, net);
            memory.link_place_to_mutex(return_value, mutex_ref);
        } else if is_mutex_lock(function_name) {
            let Some(self_ref) = extract_nth_argument(args, 0) else {
                return Err(TranslationError::UnsupportedCall);
            };
            if !memory.is_linked_to_mutex(self_ref) {
                return Err(TranslationError::UnlinkedLocation);
            }
            let mutex_ref = memory.get_linked_mutex(&self_ref);
            if mutex_ref.0 >= self.mutexes.len() {
                return Err(TranslationError::UnlinkedLocation);
            }
            self.add_lock_guard(&mutex_ref, transition_function_call, net);
            memory.link_place_to_lock_guard(return_value, mutex_ref);
        }
        Ok(())
    }

    /// Translates the side effects of the end of a value: where the place of the
    /// first argument holds the guard of a mutex, the transition unlocks the mutex.
    pub fn translate_drop_side_effects(
        &self,
        args: &Vec<Operand>,
        transition_function_call: &TransitionId,
        net: &mut Net,
        memory: &Memory,
    ) -> (result: Result<(), TranslationError>)
        requires
            old(net).wf(),
            self@.wf(old(net)@),
            old(net)@.has_transition(*transition_function_call),
        ensures
            final(net).wf(),
            final(net)@.extends(old(net)@),
            agrees(
                self@.translate_drop_side_effects(
                    args@,
                    *transition_function_call,
                    old(net)@,
                    memory@,
                ),
                result,
                final(net)@,
            ),
    {
        let Some(dropped) = extract_nth_argument(args, 0) else {
            return Ok(());
        };
        if !memory.is_linked_to_lock_guard(dropped) {
            return Ok(());
        }
        let mutex_ref = memory.get_linked_lock_guard(&dropped);
        if mutex_ref.0 >= self.mutexes.len() {
            return Err(TranslationError::UnlinkedLocation);
        }
        self.mutexes[mutex_ref.0].add_unlock_guard(transition_function_call, net);
        Ok(())
    }

    /// Returns the mutex that the reference stands for, if it is one of the manager.
    pub fn get_mutex(&self, mutex_ref: &MutexRef) -> (mutex: Option<Mutex>)
        ensures
            mutex == self@.get_mutex(*mutex_ref),
    {
        if mutex_ref.0 < self.mutexes.len() {
            Some(self.mutexes[mutex_ref.0])
        } else {
            None
        }
    }

    /// Adds a new mutex and creates its corresponding representation in the Petri net.
    /// Returns a reference to the new mutex.
    pub fn add_mutex(&mut self, net: &mut Net) -> (result: Result<MutexRef, TranslationError>)
        requires
            old(net).wf(),
            old(self)@.wf(old(net)@),
        ensures
            final(net).wf(),
            final(net)@.extends(old(net)@),
            final(self)@.wf(final(net)@),
            agrees(old(self)@.add_mutex(old(net)@), result, (final(self)@, final(net)@)),
    {
        let index = self.mutexes.len();
        let mutex = match Mutex::new(index, net) {
            Ok(mutex) => mutex,
            Err(error) => {
                return Err(error);
            },
        };
        self.mutexes.push(mutex);
        Ok(MutexRef(index))
    }

    /// Adds a lock guard to the mutex.
    /// Connects the mutex's place to the transition, then the transition will only
    /// fire if the mutex is unlocked.
    pub fn add_lock_guard(
        &mut self,
        mutex_ref: &MutexRef,
        transition_lock: &TransitionId,
        net: &mut Net,
    )
        requires
            old(net).wf(),
            old(self)@.wf(old(net)@),
            mutex_ref.0 < old(self)@.mutexes.len(),
            old(net)@.has_transition(*transition_lock),
        ensures
            final(net).wf(),
            final(net)@.extends(old(net)@),
            final(self)@.wf(final(net)@),
            (final(self)@, final(net)@) == old(self)@.add_lock_guard(
                *mutex_ref,
                *transition_lock,
                old(net)@,
            ),
    {
        self.mutexes[mutex_ref.0].add_lock_guard(transition_lock, net);
        self.lock_counter = count_up(self.lock_counter);
    }
}

} // verus!
