//! The token game: how the marking of a net changes when its transitions fire.
//!
//! A marking gives every place of a net a number of tokens. A transition may fire
//! when each place from which an arc leads to it holds a token. When it fires, it
//! takes a token from each of these places and puts a token on each place to which
//! an arc leads from it.

use crate::petri_net_interface::{NetView, PlaceId, TransitionId};
use vstd::prelude::*;

verus! {

/// Whether the transition may fire in the marking.
pub open spec fn enabled(net: NetView, marking: Seq<nat>, transition: TransitionId) -> bool {
    forall|place: PlaceId|
        place.index < marking.len() && #[trigger] net.has_arc_in(place, transition)
            ==> marking[place.index as int] >= 1
}

/// The marking after the transition has fired.
pub open spec fn fire(net: NetView, marking: Seq<nat>, transition: TransitionId) -> Seq<nat> {
    Seq::new(
        marking.len(),
        |place: int|
            {
                let taken: int = if net.arcs_in.contains((place, transition.index as int)) {
                    1
                } else {
                    0
                };
                let given: int = if net.arcs_out.contains((transition.index as int, place)) {
                    1
                } else {
                    0
                };
                (marking[place] - taken + given) as nat
            },
    )
}

/// Whether the transitions may fire one after the other, starting in the marking.
pub open spec fn may_fire_in_turn(
    net: NetView,
    marking: Seq<nat>,
    transitions: Seq<TransitionId>,
) -> bool
    decreases transitions.len(),
{
    transitions.len() == 0 || (enabled(net, marking, transitions[0]) && may_fire_in_turn(
        net,
        fire(net, marking, transitions[0]),
        transitions.drop_first(),
    ))
}

/// The marking after the transitions have fired one after the other.
pub open spec fn fire_in_turn(
    net: NetView,
    marking: Seq<nat>,
    transitions: Seq<TransitionId>,
) -> Seq<nat>
    decreases transitions.len(),
{
    if transitions.len() == 0 {
        marking
    } else {
        fire_in_turn(net, fire(net, marking, transitions[0]), transitions.drop_first())
    }
}

/// A place without tokens stays without tokens as long as no transition that puts
/// a token on it fires, and no transition that takes a token from it can fire
/// meanwhile.
pub proof fn lemma_starved_place_stays_empty(
    net: NetView,
    marking: Seq<nat>,
    place: PlaceId,
    transitions: Seq<TransitionId>,
)
    requires
        place.index < marking.len(),
        marking[place.index as int] == 0,
        may_fire_in_turn(net, marking, transitions),
        forall|i: int|
            0 <= i < transitions.len() ==> !net.has_arc_out(#[trigger] transitions[i], place),
    ensures
        fire_in_turn(net, marking, transitions).len() == marking.len(),
        fire_in_turn(net, marking, transitions)[place.index as int] == 0,
        forall|i: int|
            0 <= i < transitions.len() ==> !net.has_arc_in(place, #[trigger] transitions[i]),
    decreases transitions.len(),
{
    if transitions.len() > 0 {
        let first = transitions[0];
        let rest = transitions.drop_first();
        assert(!net.has_arc_out(first, place));
        if net.has_arc_in(place, first) {
            assert(marking[place.index as int] >= 1);
        }
        let next = fire(net, marking, first);
        assert(next[place.index as int] == 0);
        assert forall|i: int| 0 <= i < rest.len() implies !net.has_arc_out(
            #[trigger] rest[i],
            place,
        ) by {
            assert(rest[i] == transitions[i + 1]);
        }
        lemma_starved_place_stays_empty(net, next, place, rest);
        assert forall|i: int| 0 <= i < transitions.len() implies !net.has_arc_in(
            place,
            #[trigger] transitions[i],
        ) by {
            if i > 0 {
                assert(transitions[i] == rest[i - 1]);
            }
        }
    }
}

/// Two transitions that both take the only token of a place cannot both fire,
/// unless a transition that puts a token on the place fires between them: once the
/// first has fired, the second cannot fire, neither at once nor after other
/// transitions that put no token on the place. This is what two locks of one mutex
/// without an unlock between them come to.
pub proof fn lemma_second_taker_is_blocked(
    net: NetView,
    marking: Seq<nat>,
    place: PlaceId,
    first: TransitionId,
    second: TransitionId,
    between: Seq<TransitionId>,
)
    requires
        place.index < marking.len(),
        marking[place.index as int] == 1,
        net.has_arc_in(place, first),
        net.has_arc_in(place, second),
        !net.has_arc_out(first, place),
        may_fire_in_turn(net, fire(net, marking, first), between),
        forall|i: int| 0 <= i < between.len() ==> !net.has_arc_out(#[trigger] between[i], place),
    ensures
        !between.contains(second),
        !enabled(net, fire_in_turn(net, fire(net, marking, first), between), second),
{
    let after_first = fire(net, marking, first);
    assert(after_first[place.index as int] == 0);
    lemma_starved_place_stays_empty(net, after_first, place, between);
    if between.contains(second) {
        let i = choose|i: int| 0 <= i < between.len() && between[i] == second;
        assert(!net.has_arc_in(place, between[i]));
    }
}

} // verus!
