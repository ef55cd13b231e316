//! Representation of a mutex and its places in the Petri net.
//!
//! A mutex has two places. The first holds a token while the mutex is free, the
//! second while it is held. No place starts with a token: the transition that
//! creates the mutex puts the token on the first place.

use crate::error_handling::TranslationError;
use crate::naming::sync::{
    mutex_locked_place_label,
    mutex_locked_place_label_spec,
    mutex_unlocked_place_label,
    mutex_unlocked_place_label_spec,
};
use crate::petri_net_interface::{agrees, Net, NetView, PlaceId, TransitionId};
use vstd::prelude::*;

verus! {

#[derive(Clone, Copy, PartialEq, Eq, Structural, Debug)]
pub struct Mutex {
    /// The number of the mutex.
    pub index: usize,
    /// The place that holds a token while the mutex is free.
    pub unlocked: PlaceId,
    /// The place that holds a token while the mutex is held.
    pub locked: PlaceId,
}

impl Mutex {
    /// The two places of the mutex belong to the net and are not the same.
    pub open spec fn wf(self, net: NetView) -> bool {
        net.has_place(self.unlocked) && net.has_place(self.locked) && self.unlocked != self.locked
    }

    /// The new mutex with the given number, and the net with its two places.
    pub open spec fn new_spec(index: usize, net: NetView) -> Result<
        (NetView, Mutex),
        TranslationError,
    > {
        match net.try_add_place(mutex_unlocked_place_label_spec(index as nat)) {
            Err(error) => Err(error),
            Ok((first, unlocked)) => match first.try_add_place(
                mutex_locked_place_label_spec(index as nat),
            ) {
                Err(error) => Err(error),
                Ok((second, locked)) => Ok((second, Mutex { index, unlocked, locked })),
            },
        }
    }

    /// The net in which the transition creates the mutex: it frees it.
    pub open spec fn created_by(self, transition: TransitionId, net: NetView) -> NetView {
        net.add_arc_out(transition, self.unlocked)
    }

    /// The net in which the transition locks the mutex.
    pub open spec fn locked_by(self, transition: TransitionId, net: NetView) -> NetView {
        net.add_arc_in(self.unlocked, transition).add_arc_out(transition, self.locked)
    }

    /// The net in which the transition unlocks the mutex.
    pub open spec fn unlocked_by(self, transition: TransitionId, net: NetView) -> NetView {
        net.add_arc_in(self.locked, transition).add_arc_out(transition, self.unlocked)
    }

    /// Creates a new mutex and adds its places to the net.
    pub fn new(index: usize, net: &mut Net) -> (result: Result<Mutex, TranslationError>)
        requires
            old(net).wf(),
        ensures
            final(net).wf(),
            final(net)@.extends(old(net)@),
            agrees(Mutex::new_spec(index, old(net)@), result, final(net)@),
            result matches Ok(mutex) ==> mutex.wf(final(net)@),
    {
        let unlocked = match net.try_add_place(mutex_unlocked_place_label(index).as_str()) {
            Ok(place) => place,
            Err(error) => {
                return Err(error);
            },
        };
        let locked = match net.try_add_place(mutex_locked_place_label(index).as_str()) {
            Ok(place) => place,
            Err(error) => {
                return Err(error);
            },
        };
        // The number of places fits in a `usize`, so the two places differ.
        let _ = net.place_count();
        Ok(Mutex { index, unlocked, locked })
    }

    /// Lets the transition create the mutex: the transition puts a token on the
    /// place of the free mutex.
    pub fn add_creation(&self, transition_new: &TransitionId, net: &mut Net)
        requires
            old(net).wf(),
            self.wf(old(net)@),
            old(net)@.has_transition(*transition_new),
        ensures
            final(net).wf(),
            final(net)@.extends(old(net)@),
            final(net)@ == self.created_by(*transition_new, old(net)@),
    {
        net.add_arc_transition_place(transition_new, &self.unlocked);
    }

    /// Adds a lock guard to the mutex.
    /// Connects the mutex's places to the transition, then the transition will only
    /// fire if the mutex is unlocked, and it leaves the mutex locked.
    pub fn add_lock_guard(&self, transition_lock: &TransitionId, net: &mut Net)
        requires
            old(net).wf(),
            self.wf(old(net)@),
            old(net)@.has_transition(*transition_lock),
        ensures
            final(net).wf(),
            final(net)@.extends(old(net)@),
            final(net)@ == self.locked_by(*transition_lock, old(net)@),
    {
        net.add_arc_place_transition(&self.unlocked, transition_lock);
        net.add_arc_transition_place(transition_lock, &self.locked);
    }

    /// Lets the transition unlock the mutex: it fires only if the mutex is locked,
    /// and it leaves the mutex unlocked.
    pub fn add_unlock_guard(&self, transition_unlock: &TransitionId, net: &mut Net)
        requires
            old(net).wf(),
            self.wf(old(net)@),
            old(net)@.has_transition(*transition_unlock),
        ensures
            final(net).wf(),
            final(net)@.extends(old(net)@),
            final(net)@ == self.unlocked_by(*transition_unlock, old(net)@),
    {
        net.add_arc_place_transition(&self.locked, transition_unlock);
        net.add_arc_transition_place(transition_unlock, &self.unlocked);
    }
}

} // verus!
