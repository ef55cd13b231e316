//! Representation of a thread to be translated later.
//!
//! The thread involves a translation subprocess that connects
//! to the main Petri net in two places:
//! - The start place i.e, when `std::thread::spawn` is called.
//! - The end place i.e, when `std::thread::JoinHandle::<T>::join` is called.
//!
//! The thread starts after the call to `std::thread::spawn`.
//! The transition that represents this function call produces a second token
//! and places it in the new thread's start place.
//! This token models the execution flow of the new thread.
//!
//! The thread end place is connected to the transition that models
//! the call to `std::thread::JoinHandle::<T>::join`.
//!
//! The Petri net for the new thread "spans" between the two transitions.
//! We cannot connect this net to the net of the spawning thread until the
//! call to `std::thread::JoinHandle::<T>::join` is translated.
//! Therefore we store the basic information we need
//! to translate the thread function and defer the translation.
//! The function executed by the thread is translated to a Petri net just as any other.

use crate::error_handling::TranslationError;
use crate::naming::thread::{
    end_place_label,
    end_place_label_spec,
    start_place_label,
    start_place_label_spec,
};
use crate::petri_net_interface::{agrees, Net, NetView, PlaceId, TransitionId};
use vstd::prelude::*;

verus! {

#[derive(Clone, Copy, PartialEq, Eq, Structural, Debug)]
pub struct ThreadSpan {
    /// The transition from which the thread branches off at the start.
    pub spawn_transition: TransitionId,
    /// The function run by the thread.
    pub thread_function_def_id: usize,
    /// The transition to which the thread joins in at the end.
    pub join_transition: Option<TransitionId>,
    /// An index to identify the thread span.
    pub index: usize,
}

impl ThreadSpan {
    /// The transitions of the thread span belong to the net.
    pub open spec fn wf(self, net: NetView) -> bool {
        &&& net.has_transition(self.spawn_transition)
        &&& self.join_transition matches Some(join_transition) ==> net.has_transition(
            join_transition,
        )
    }

    /// The net with the start place and the end place of the thread: the spawn
    /// transition puts a token on the start place, and the join transition, if the
    /// thread has one, takes a token from the end place. With it come the function
    /// of the thread, the start place and the end place.
    pub open spec fn prepare_for_translation_spec(self, net: NetView) -> Result<
        (NetView, (usize, PlaceId, PlaceId)),
        TranslationError,
    > {
        match net.try_add_place(start_place_label_spec(self.index as nat)) {
            Err(error) => Err(error),
            Ok((first, start)) => match first.try_add_place(
                end_place_label_spec(self.index as nat),
            ) {
                Err(error) => Err(error),
                Ok((second, end)) => {
                    let spawned = second.add_arc_out(self.spawn_transition, start);
                    let joined = match self.join_transition {
                        Some(join_transition) => spawned.add_arc_in(end, join_transition),
                        None => spawned,
                    };
                    Ok((joined, (self.thread_function_def_id, start, end)))
                },
            },
        }
    }

    /// Creates a new thread span without a join transition.
    /// The join transition must be set later.
    pub fn new(spawn_transition: TransitionId, thread_function_def_id: usize, index: usize) -> (span:
        Self)
        ensures
            span == (ThreadSpan {
                spawn_transition,
                thread_function_def_id,
                join_transition: None,
                index,
            }),
    {
        Self { spawn_transition, thread_function_def_id, join_transition: None, index }
    }

    /// Sets the transition that models joining this thread.
    pub fn set_join_transition(&mut self, join_transition: TransitionId)
        ensures
            *final(self) == (ThreadSpan { join_transition: Some(join_transition), ..*old(self) }),
    {
        self.join_transition = Some(join_transition);
    }

    /// Prepares the thread span for translation.
    /// Adds a start and end place for the thread to the Petri net.
    /// Connects the spawn transition to the start place and the end place to the
    /// join transition (if available).
    /// Returns a 3-tuple containing the function of the thread, the start place and the end place.
    pub fn prepare_for_translation(&self, net: &mut Net) -> (result: Result<
        (usize, PlaceId, PlaceId),
        TranslationError,
    >)
        requires
            old(net).wf(),
            self.wf(old(net)@),
        ensures
            final(net).wf(),
            final(net)@.extends(old(net)@),
            agrees(self.prepare_for_translation_spec(old(net)@), result, final(net)@),
            result matches Ok((_, start, end)) ==> final(net)@.has_place(start)
                && final(net)@.has_place(end),
    {
        let thread_start_place = match net.try_add_place(start_place_label(self.index).as_str()) {
            Ok(place) => place,
            Err(error) => {
                return Err(error);
            },
        };
        let thread_end_place = match net.try_add_place(end_place_label(self.index).as_str()) {
            Ok(place) => place,
            Err(error) => {
                return Err(error);
            },
        };
        net.add_arc_transition_place(&self.spawn_transition, &thread_start_place);
        if let Some(join_transition) = &self.join_transition {
            net.add_arc_place_transition(&thread_end_place, join_transition);
        }
        Ok((self.thread_function_def_id, thread_start_place, thread_end_place))
    }

    /// When a thread span is prepared for translation in a well-formed net, the end
    /// place of the thread has exactly one outgoing arc, which leads to the join
    /// transition, if the thread is joined, and no outgoing arc, if it is not. The
    /// start place has exactly one incoming arc, which comes from the spawn
    /// transition.
    ///
    /// The net gains the two places of the thread and nothing else but these arcs:
    /// the spawn transition now puts a token on the start place of the thread
    /// besides what it did before, and the join transition now takes a token from
    /// the end place of the thread besides what it did before.
    pub proof fn lemma_thread_boundary(self, net: NetView)
        requires
            net.wf(),
            self.wf(net),
            net.places.len() + 2 <= usize::MAX,
            self.prepare_for_translation_spec(net).is_ok(),
        ensures
            ({
                let (prepared, (_, start, end)) = self.prepare_for_translation_spec(net).unwrap();
                &&& prepared.wf()
                &&& forall|transition: TransitionId|
                    prepared.has_arc_in(end, transition) <==> self.join_transition == Some(
                        transition,
                    )
                &&& forall|transition: TransitionId|
                    prepared.has_arc_out(transition, start) <==> self.spawn_transition
                        == transition
                &&& forall|transition: TransitionId| !prepared.has_arc_in(start, transition)
                &&& forall|transition: TransitionId| !prepared.has_arc_out(transition, end)
                &&& prepared.places == net.places.push(
                    start_place_label_spec(self.index as nat),
                ).push(end_place_label_spec(self.index as nat))
                &&& prepared.transitions == net.transitions
                &&& forall|transition: TransitionId, place: PlaceId| #[trigger]
                    prepared.has_arc_out(transition, place) <==> net.has_arc_out(transition, place)
                        || (transition == self.spawn_transition && place == start)
                &&& forall|place: PlaceId, transition: TransitionId| #[trigger]
                    prepared.has_arc_in(place, transition) <==> net.has_arc_in(place, transition)
                        || (self.join_transition == Some(transition) && place == end)
            }),
    {
        let (prepared, (_, start, end)) = self.prepare_for_translation_spec(net).unwrap();
        assert forall|transition: TransitionId|
            prepared.has_arc_in(end, transition) <==> self.join_transition == Some(
                transition,
            ) by {
            assert(!net.arcs_in.contains((end.index as int, transition.index as int)));
        }
        assert forall|transition: TransitionId|
            prepared.has_arc_out(transition, start) <==> self.spawn_transition == transition by {
            assert(!net.arcs_out.contains((transition.index as int, start.index as int)));
        }
        assert forall|transition: TransitionId| !prepared.has_arc_in(start, transition) by {
            assert(!net.arcs_in.contains((start.index as int, transition.index as int)));
        }
        assert forall|transition: TransitionId| !prepared.has_arc_out(transition, end) by {
            assert(!net.arcs_out.contains((transition.index as int, end.index as int)));
        }
    }
}

} // verus!
