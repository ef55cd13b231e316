//! Representation of a condition variable and its places in the Petri net.
//!
//! A condition variable has two places. The first holds a token for every thread
//! that waits on it, the second a token for every notification that no thread has
//! taken yet.
//!
//! A call of `wait` is two transitions. The first parks the thread: it takes the
//! token from the start of the call and from the held mutex, and puts one on the
//! place of the waiting threads and one on the free mutex. The second resumes the
//! thread: it takes a waiting thread, a notification and the free mutex, and puts
//! a token on the end of the call and on the held mutex.

use crate::error_handling::TranslationError;
use crate::naming::sync::{
    condvar_notify_place_label,
    condvar_notify_place_label_spec,
    condvar_wait_place_label,
    condvar_wait_place_label_spec,
};
use crate::petri_net_interface::{agrees, Net, NetView, PlaceId, TransitionId};
use crate::translator::sync::mutex::Mutex;
use vstd::prelude::*;

verus! {

#[derive(Clone, Copy, PartialEq, Eq, Structural, Debug)]
pub struct Condvar {
    /// The number of the condition variable.
    pub index: usize,
    /// The place that holds a token for every thread that waits.
    pub wait: PlaceId,
    /// The place that holds a token for every notification not taken yet.
    pub notify: PlaceId,
}

impl Condvar {
    /// The places of the condition variable belong to the net.
    pub open spec fn wf(self, net: NetView) -> bool {
        net.has_place(self.wait) && net.has_place(self.notify)
    }

    /// The new condition variable with the given number, and the net with its two
    /// places.
    pub open spec fn new_spec(index: usize, net: NetView) -> Result<
        (NetView, Condvar),
        TranslationError,
    > {
        match net.try_add_place(condvar_wait_place_label_spec(index as nat)) {
            Err(error) => Err(error),
            Ok((first, wait)) => match first.try_add_place(
                condvar_notify_place_label_spec(index as nat),
            ) {
                Err(error) => Err(error),
                Ok((second, notify)) => Ok((second, Condvar { index, wait, notify })),
            },
        }
    }

    /// The net in which the first transition parks a thread that holds the mutex,
    /// and the second resumes it.
    pub open spec fn waited_by(
        self,
        park: TransitionId,
        resume: TransitionId,
        mutex: Mutex,
        net: NetView,
    ) -> NetView {
        net.add_arc_in(mutex.locked, park).add_arc_out(park, mutex.unlocked).add_arc_out(
            park,
            self.wait,
        ).add_arc_in(self.wait, resume).add_arc_in(self.notify, resume).add_arc_in(
            mutex.unlocked,
            resume,
        ).add_arc_out(resume, mutex.locked)
    }

    /// The net in which the transition notifies the condition variable.
    pub open spec fn notified_by(self, transition: TransitionId, net: NetView) -> NetView {
        net.add_arc_out(transition, self.notify)
    }

    /// Creates a new condition variable and adds its places to the net.
    pub fn new(index: usize, net: &mut Net) -> (result: Result<Condvar, TranslationError>)
        requires
            old(net).wf(),
        ensures
            final(net).wf(),
            final(net)@.extends(old(net)@),
            agrees(Condvar::new_spec(index, old(net)@), result, final(net)@),
            result matches Ok(condvar) ==> condvar.wf(final(net)@),
    {
        let wait = match net.try_add_place(condvar_wait_place_label(index).as_str()) {
            Ok(place) => place,
            Err(error) => {
                return Err(error);
            },
        };
        let notify = match net.try_add_place(condvar_notify_place_label(index).as_str()) {
            Ok(place) => place,
            Err(error) => {
                return Err(error);
            },
        };
        Ok(Condvar { index, wait, notify })
    }

    /// Lets the two transitions of a call of `wait` park and resume a thread that
    /// holds the mutex.
    pub fn add_wait(&self, park: &TransitionId, resume: &TransitionId, mutex: &Mutex, net: &mut Net)
        requires
            old(net).wf(),
            self.wf(old(net)@),
            mutex.wf(old(net)@),
            old(net)@.has_transition(*park),
            old(net)@.has_transition(*resume),
        ensures
            final(net).wf(),
            final(net)@.extends(old(net)@),
            final(net)@ == self.waited_by(*park, *resume, *mutex, old(net)@),
    {
        net.add_arc_place_transition(&mutex.locked, park);
        net.add_arc_transition_place(park, &mutex.unlocked);
        net.add_arc_transition_place(park, &self.wait);
        net.add_arc_place_transition(&self.wait, resume);
        net.add_arc_place_transition(&self.notify, resume);
        net.add_arc_place_transition(&mutex.unlocked, resume);
        net.add_arc_transition_place(resume, &mutex.locked);
    }

    /// Lets the transition notify the condition variable.
    pub fn add_notify(&self, transition_notify: &TransitionId, net: &mut Net)
        requires
            old(net).wf(),
            self.wf(old(net)@),
            old(net)@.has_transition(*transition_notify),
        ensures
            final(net).wf(),
            final(net)@.extends(old(net)@),
            final(net)@ == self.notified_by(*transition_notify, old(net)@),
    {
        net.add_arc_transition_place(transition_notify, &self.notify);
    }
}

} // verus!
