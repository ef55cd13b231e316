//! The calls that are translated without walking the callee: calls to foreign
//! functions, to functions that do not return and to functions that panic.

use crate::error_handling::TranslationError;
use crate::naming::function::{
    diverging_call_transition_label,
    diverging_call_transition_label_spec,
    panic_transition_label,
    panic_transition_label_spec,
};
use crate::petri_net_interface::{agrees, Net, NetView, PlaceId, TransitionId};
use crate::translator::function_call::FunctionPlaces;
use vstd::prelude::*;
use vstd::string::*;

verus! {

/// Tells whether two texts are the same.
pub fn same_text(a: &str, b: &str) -> (same: bool)
    ensures
        same == (a@ == b@),
{
    String::from_str(a) == String::from_str(b)
}

/// The functions that start a panic.
pub open spec fn is_panic_function_spec(function_name: Seq<char>) -> bool {
    ||| function_name == "core::panicking::assert_failed"@
    ||| function_name == "core::panicking::panic"@
    ||| function_name == "core::panicking::panic_fmt"@
    ||| function_name == "std::rt::begin_panic"@
    ||| function_name == "std::rt::begin_panic_fmt"@
}

/// Checks whether the function with the given name starts a panic.
pub fn is_panic_function(function_name: &str) -> (panics: bool)
    ensures
        panics == is_panic_function_spec(function_name@),
{
    same_text(function_name, "core::panicking::assert_failed") || same_text(
        function_name,
        "core::panicking::panic",
    ) || same_text(function_name, "core::panicking::panic_fmt") || same_text(
        function_name,
        "std::rt::begin_panic",
    ) || same_text(function_name, "std::rt::begin_panic_fmt")
}

/// The net after the call of a foreign function: one transition from the start
/// place to the end place and, where the call can unwind, a second transition from
/// the start place to the cleanup place. The first transition is handed out.
pub open spec fn foreign_call_spec(
    net: NetView,
    places: FunctionPlaces,
    labels: (Seq<char>, Seq<char>),
) -> Result<(NetView, TransitionId), TranslationError> {
    match net.connect(places.start_place, places.end_place, labels.0) {
        Err(error) => Err(error),
        Ok((called, transition)) => match places.cleanup_place {
            None => Ok((called, transition)),
            Some(cleanup) => match called.connect(places.start_place, cleanup, labels.1) {
                Err(error) => Err(error),
                Ok((unwound, _)) => Ok((unwound, transition)),
            },
        },
    }
}

/// The net after the call of a function that does not return: one transition that
/// takes the token from the start place and puts it nowhere.
pub open spec fn diverging_call_spec(net: NetView, start_place: PlaceId, label: Seq<char>) -> Result<
    (NetView, TransitionId),
    TranslationError,
> {
    match net.try_add_transition(label) {
        Err(error) => Err(error),
        Ok((added, transition)) => Ok((added.add_arc_in(start_place, transition), transition)),
    }
}

/// Translates the call of a foreign function. The first label is for the
/// transition of the call, the second for the transition of its unwinding.
pub fn call_foreign_function(
    places: &FunctionPlaces,
    labels: &(String, String),
    net: &mut Net,
) -> (result: Result<TransitionId, TranslationError>)
    requires
        old(net).wf(),
        places.wf(old(net)@),
    ensures
        final(net).wf(),
        final(net)@.extends(old(net)@),
        agrees(foreign_call_spec(old(net)@, *places, (labels.0@, labels.1@)), result, final(net)@),
{
    let transition = match net.connect_places(
        &places.start_place,
        &places.end_place,
        labels.0.as_str(),
    ) {
        Ok(transition) => transition,
        Err(error) => {
            return Err(error);
        },
    };
    if let Some(cleanup) = places.cleanup_place {
        if let Err(error) = net.connect_places(&places.start_place, &cleanup, labels.1.as_str()) {
            return Err(error);
        }
    }
    Ok(transition)
}

/// Translates the call of a function that does not return.
pub fn call_diverging_function(start_place: &PlaceId, function_name: &str, net: &mut Net) -> (result:
    Result<TransitionId, TranslationError>)
    requires
        old(net).wf(),
        old(net)@.has_place(*start_place),
    ensures
        final(net).wf(),
        final(net)@.extends(old(net)@),
        agrees(
            diverging_call_spec(
                old(net)@,
                *start_place,
                diverging_call_transition_label_spec(function_name@),
            ),
            result,
            final(net)@,
        ),
{
    let label = diverging_call_transition_label(function_name);
    let transition = match net.try_add_transition(label.as_str()) {
        Ok(transition) => transition,
        Err(error) => {
            return Err(error);
        },
    };
    net.add_arc_place_transition(start_place, &transition);
    Ok(transition)
}

/// Translates the call of a function that panics: one transition from the start
/// place to the place where unwinding goes on.
pub fn call_panic_function(
    start_place: &PlaceId,
    unwind_place: &PlaceId,
    function_name: &str,
    net: &mut Net,
) -> (result: Result<TransitionId, TranslationError>)
    requires
        old(net).wf(),
        old(net)@.has_place(*start_place),
        old(net)@.has_place(*unwind_place),
    ensures
        final(net).wf(),
        final(net)@.extends(old(net)@),
        agrees(
            old(net)@.connect(
                *start_place,
                *unwind_place,
                panic_transition_label_spec(function_name@),
            ),
            result,
            final(net)@,
        ),
{
    let label = panic_transition_label(function_name);
    net.connect_places(start_place, unwind_place, label.as_str())
}

/// The transition of the call of a foreign function that cannot unwind takes a
/// token from the start place of the call and from no other place, and puts a
/// token on the end place of the call and on no other place. The arcs of the
/// transitions that the net had before are as they were.
pub proof fn lemma_foreign_call_arcs(
    net: NetView,
    places: FunctionPlaces,
    labels: (Seq<char>, Seq<char>),
)
    requires
        net.wf(),
        net.transitions.len() < usize::MAX,
        places.cleanup_place.is_none(),
        foreign_call_spec(net, places, labels).is_ok(),
    ensures
        ({
            let (called, transition) = foreign_call_spec(net, places, labels).unwrap();
            &&& transition == net.next_transition()
            &&& called.has_transition(transition)
            &&& !net.has_transition(transition)
            &&& called.places == net.places
            &&& forall|place: PlaceId| #[trigger]
                called.has_arc_in(place, transition) <==> place == places.start_place
            &&& forall|place: PlaceId| #[trigger]
                called.has_arc_out(transition, place) <==> place == places.end_place
            &&& forall|place: PlaceId, earlier: TransitionId|
                net.has_transition(earlier) ==> (#[trigger] called.has_arc_in(place, earlier)
                    <==> net.has_arc_in(place, earlier))
            &&& forall|place: PlaceId, earlier: TransitionId|
                net.has_transition(earlier) ==> (#[trigger] called.has_arc_out(earlier, place)
                    <==> net.has_arc_out(earlier, place))
        }),
{
    let (called, transition) = foreign_call_spec(net, places, labels).unwrap();
    assert forall|place: PlaceId| #[trigger]
        called.has_arc_in(place, transition) <==> place == places.start_place by {
        assert(!net.arcs_in.contains((place.index as int, transition.index as int)));
    }
    assert forall|place: PlaceId| #[trigger]
        called.has_arc_out(transition, place) <==> place == places.end_place by {
        assert(!net.arcs_out.contains((transition.index as int, place.index as int)));
    }
}

/// The call of a foreign function that cannot unwind adds exactly one transition
/// to the net. An arc of weight one leads from the start place of the call to the
/// transition, and one from the transition to the end place. The net gains no
/// place, and no other arc.
pub proof fn lemma_foreign_call_without_cleanup(
    net: NetView,
    places: FunctionPlaces,
    labels: (Seq<char>, Seq<char>),
)
    requires
        places.cleanup_place.is_none(),
        !net.transitions.contains(labels.0),
    ensures
        foreign_call_spec(net, places, labels).is_ok(),
        ({
            let (called, transition) = foreign_call_spec(net, places, labels).unwrap();
            &&& transition == net.next_transition()
            &&& called.places == net.places
            &&& called.tokens == net.tokens
            &&& called.transitions == net.transitions.push(labels.0)
            &&& called.arcs_in == net.arcs_in.insert(
                (places.start_place.index as int, transition.index as int),
            )
            &&& called.arcs_out == net.arcs_out.insert(
                (transition.index as int, places.end_place.index as int),
            )
        }),
{
}

} // verus!
