//! Central structure to keep track of the `std::sync::Arc` in the code.
//!
//! It is mainly used in conjunction with the `MutexManager` and the `CondvarManager`
//! to keep track of the mutexes and condvars when they are wrapped around a `std::sync::Arc`.

use crate::error_handling::TranslationError;
use crate::naming::sync::{call_transition_labels, call_transition_labels_spec};
use crate::naming::{count_up, next_index};
use crate::petri_net_interface::{agrees, Net, NetView, TransitionId};
use crate::translator::function_call::FunctionPlaces;
use crate::translator::special_function::{call_foreign_function, foreign_call_spec};
use crate::translator::sync::{ARC_CLONE, ARC_DEREF, ARC_NEW};
use vstd::prelude::*;

verus! {

/// The counters of the calls of `new`, `deref` and `clone` of a shared-handle wrapper.
pub struct ArcManager {
    arc_counter: usize,
    deref_counter: usize,
    clone_counter: usize,
}

/// The mathematical model of an [`ArcManager`]: how many calls of each function
/// have been translated.
pub struct ArcManagerView {
    pub arc_counter: usize,
    pub deref_counter: usize,
    pub clone_counter: usize,
}

/// The net after a call that is counted, and the transition of the call: the call
/// is translated like that of a foreign function, with the count in its labels.
pub open spec fn counted_call_spec(
    function_name: Seq<char>,
    counter: usize,
    places: FunctionPlaces,
    net: NetView,
) -> Result<(NetView, TransitionId), TranslationError> {
    foreign_call_spec(net, places, call_transition_labels_spec(function_name, counter as nat))
}

impl ArcManagerView {
    /// The manager before any call.
    pub open spec fn empty() -> ArcManagerView {
        ArcManagerView { arc_counter: 0, deref_counter: 0, clone_counter: 0 }
    }

    /// The manager and the net after a call of `new`, and the transition of the call.
    pub open spec fn translate_call_new(self, places: FunctionPlaces, net: NetView) -> Result<
        ((ArcManagerView, NetView), TransitionId),
        TranslationError,
    > {
        match counted_call_spec(ARC_NEW@, self.arc_counter, places, net) {
            Err(error) => Err(error),
            Ok((called, transition)) => Ok(
                (
                    (
                        ArcManagerView { arc_counter: next_index(self.arc_counter), ..self },
                        called,
                    ),
                    transition,
                ),
            ),
        }
    }

    /// The manager and the net after a call of `deref`, and the transition of the call.
    pub open spec fn translate_call_deref(self, places: FunctionPlaces, net: NetView) -> Result<
        ((ArcManagerView, NetView), TransitionId),
        TranslationError,
    > {
        match counted_call_spec(ARC_DEREF@, self.deref_counter, places, net) {
            Err(error) => Err(error),
            Ok((called, transition)) => Ok(
                (
                    (
                        ArcManagerView { deref_counter: next_index(self.deref_counter), ..self },
                        called,
                    ),
                    transition,
                ),
            ),
        }
    }

    /// The manager and the net after a call of `clone`, and the transition of the call.
    pub open spec fn translate_call_clone(self, places: FunctionPlaces, net: NetView) -> Result<
        ((ArcManagerView, NetView), TransitionId),
        TranslationError,
    > {
        match counted_call_spec(ARC_CLONE@, self.clone_counter, places, net) {
            Err(error) => Err(error),
            Ok((called, transition)) => Ok(
                (
                    (
                        ArcManagerView { clone_counter: next_index(self.clone_counter), ..self },
                        called,
                    ),
                    transition,
                ),
            ),
        }
    }
}

impl View for ArcManager {
    type V = ArcManagerView;

    closed spec fn view(&self) -> ArcManagerView {
        ArcManagerView {
            arc_counter: self.arc_counter,
            deref_counter: self.deref_counter,
            clone_counter: self.clone_counter,
        }
    }
}

impl ArcManager {
    /// Returns a new empty `ArcManager`.
    pub fn new() -> (manager: Self)
        ensures
            manager@ == ArcManagerView::empty(),
    {
        ArcManager { arc_counter: 0, deref_counter: 0, clone_counter: 0 }
    }

    /// Translates a call to `std::sync::Arc::<T>::new` using
    /// the same representation as for the call of a foreign function.
    /// A separate counter is incremented every time that
    /// the function is called to generate a unique label.
    pub fn translate_call_new(
        &mut self,
        function_call_places: &FunctionPlaces,
        net: &mut Net,
    ) -> (result: Result<TransitionId, TranslationError>)
        requires
            old(net).wf(),
            function_call_places.wf(old(net)@),
        ensures
            final(net).wf(),
            final(net)@.extends(old(net)@),
            agrees(
                old(self)@.translate_call_new(*function_call_places, old(net)@),
                result,
                (final(self)@, final(net)@),
            ),
    {
        let index = self.arc_counter;
        self.arc_counter = count_up(index);
        call_foreign_function(function_call_places, &call_transition_labels(ARC_NEW, index), net)
    }

    /// Translates a call to `std::ops::Deref::deref` using
    /// the same representation as for the call of a foreign function.
    /// A separate counter is incremented every time that
    /// the function is called to generate a unique label.
    pub fn translate_call_deref(
        &mut self,
        function_call_places: &FunctionPlaces,
        net: &mut Net,
    ) -> (result: Result<TransitionId, TranslationError>)
        requires
            old(net).wf(),
            function_call_places.wf(old(net)@),
        ensures
            final(net).wf(),
            final(net)@.extends(old(net)@),
            agrees(
                old(self)@.translate_call_deref(*function_call_places, old(net)@),
                result,
                (final(self)@, final(net)@),
            ),
    {
        let index = self.deref_counter;
        self.deref_counter = count_up(index);
        call_foreign_function(function_call_places, &call_transition_labels(ARC_DEREF, index), net)
    }

    /// Translates a call to `std::clone::Clone::clone` using
    /// the same representation as for the call of a foreign function.
    /// A separate counter is incremented every time that
    /// the function is called to generate a unique label.
    pub fn translate_call_clone(
        &mut self,
        function_call_places: &FunctionPlaces,
        net: &mut Net,
    ) -> (result: Result<TransitionId, TranslationError>)
        requires
            old(net).wf(),
            function_call_places.wf(old(net)@),
        ensures
            final(net).wf(),
            final(net)@.extends(old(net)@),
            agrees(
                old(self)@.translate_call_clone(*function_call_places, old(net)@),
                result,
                (final(self)@, final(net)@),
            ),
    {
        let index = self.clone_counter;
        self.clone_counter = count_up(index);
        call_foreign_function(function_call_places, &call_transition_labels(ARC_CLONE, index), net)
    }
}

} // verus!
