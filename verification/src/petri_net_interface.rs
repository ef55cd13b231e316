//! The Petri net under construction.
//!
//! The net itself is a `netcrab::petri_net::PetriNet`. This module wraps it in [`Net`],
//! which hands out index-based references to places and transitions and keeps the
//! labels of the places pairwise distinct, and likewise those of the transitions.
//!
//! The model of a [`Net`] is a [`NetView`]: the labels in creation order, the marking,
//! and the arcs as pairs of indices.

use crate::error_handling::TranslationError;
use vstd::prelude::*;

verus! {

#[verifier::external_type_specification]
#[verifier::external_body]
pub struct ExPetriNet(netcrab::petri_net::PetriNet);

#[verifier::external_type_specification]
#[verifier::external_body]
pub struct ExNetPlaceRef(netcrab::petri_net::PlaceRef);

#[verifier::external_type_specification]
#[verifier::external_body]
pub struct ExNetTransitionRef(netcrab::petri_net::TransitionRef);

/// The identity of a place reference of `netcrab`: its label and its unique number.
/// Two references are equal exactly if their identities are.
pub uninterp spec fn place_key(r: netcrab::petri_net::PlaceRef) -> (Seq<char>, int);

/// The identity of a transition reference of `netcrab`: its label and its unique number.
pub uninterp spec fn transition_key(r: netcrab::petri_net::TransitionRef) -> (Seq<char>, int);

/// The places that a `PetriNet` holds, by identity, each with its number of tokens.
pub uninterp spec fn net_places(net: netcrab::petri_net::PetriNet) -> Map<(Seq<char>, int), nat>;

/// The transitions that a `PetriNet` holds, by identity.
pub uninterp spec fn net_transitions(net: netcrab::petri_net::PetriNet) -> Set<(Seq<char>, int)>;

/// The arcs of a `PetriNet` that lead from a place (first) to a transition (second).
pub uninterp spec fn net_arcs_in(net: netcrab::petri_net::PetriNet) -> Set<
    ((Seq<char>, int), (Seq<char>, int)),
>;

/// The arcs of a `PetriNet` that lead from a transition (first) to a place (second).
pub uninterp spec fn net_arcs_out(net: netcrab::petri_net::PetriNet) -> Set<
    ((Seq<char>, int), (Seq<char>, int)),
>;

/// Calls `PetriNet::new`: the new net holds no place, no transition and no arc.
#[verifier::external_body]
fn petri_net_new() -> (net: netcrab::petri_net::PetriNet)
    ensures
        net_places(net) == (Map::<(Seq<char>, int), nat>::empty()),
        net_transitions(net) == Set::<(Seq<char>, int)>::empty(),
        net_arcs_in(net) == Set::<((Seq<char>, int), (Seq<char>, int))>::empty(),
        net_arcs_out(net) == Set::<((Seq<char>, int), (Seq<char>, int))>::empty(),
{
    netcrab::petri_net::PetriNet::new()
}

/// Calls `PetriNet::add_place` with a label that no place of the net carries yet.
/// The net gains one place without tokens and without arcs, whose reference is
/// returned and carries the label; everything else stays as it was. The number of
/// the new reference is drawn at random and nothing is said of it. As no place of
/// the net carries the label, the new reference differs from all that the net holds.
#[verifier::external_body]
fn petri_net_add_place(net: &mut netcrab::petri_net::PetriNet, label: &str) -> (r:
    netcrab::petri_net::PlaceRef)
    requires
        forall|k: (Seq<char>, int)| #[trigger]
            net_places(*old(net)).contains_key(k) ==> k.0 != label@,
    ensures
        place_key(r).0 == label@,
        net_places(*final(net)) == net_places(*old(net)).insert(place_key(r), 0nat),
        net_transitions(*final(net)) == net_transitions(*old(net)),
        net_arcs_in(*final(net)) == net_arcs_in(*old(net)),
        net_arcs_out(*final(net)) == net_arcs_out(*old(net)),
{
    net.add_place(label)
}

/// Calls `PetriNet::add_transition` with a label that no transition of the net carries
/// yet. The net gains one transition without arcs, whose reference is returned and
/// carries the label; everything else stays as it was. The number of the new
/// reference is drawn at random and nothing is said of it.
#[verifier::external_body]
fn petri_net_add_transition(net: &mut netcrab::petri_net::PetriNet, label: &str) -> (r:
    netcrab::petri_net::TransitionRef)
    requires
        forall|k: (Seq<char>, int)| #[trigger]
            net_transitions(*old(net)).contains(k) ==> k.0 != label@,
    ensures
        transition_key(r).0 == label@,
        net_transitions(*final(net)) == net_transitions(*old(net)).insert(transition_key(r)),
        net_places(*final(net)) == net_places(*old(net)),
        net_arcs_in(*final(net)) == net_arcs_in(*old(net)),
        net_arcs_out(*final(net)) == net_arcs_out(*old(net)),
{
    net.add_transition(label)
}

/// Calls `PetriNet::add_arc_place_transition` and reports whether it returned `Ok`.
/// It does so exactly if the net holds both ends and not yet this arc; the arc is
/// then added. Otherwise the net stays as it was. This holds of every net that was
/// built through the methods of `PetriNet`, which record each arc at both its ends.
#[verifier::external_body]
fn petri_net_add_arc_place_transition(
    net: &mut netcrab::petri_net::PetriNet,
    place: &netcrab::petri_net::PlaceRef,
    transition: &netcrab::petri_net::TransitionRef,
) -> (added: bool)
    ensures
        added <==> net_places(*old(net)).contains_key(place_key(*place)) && net_transitions(
            *old(net),
        ).contains(transition_key(*transition)) && !net_arcs_in(*old(net)).contains(
            (place_key(*place), transition_key(*transition)),
        ),
        net_arcs_in(*final(net)) == if added {
            net_arcs_in(*old(net)).insert((place_key(*place), transition_key(*transition)))
        } else {
            net_arcs_in(*old(net))
        },
        net_places(*final(net)) == net_places(*old(net)),
        net_transitions(*final(net)) == net_transitions(*old(net)),
        net_arcs_out(*final(net)) == net_arcs_out(*old(net)),
{
    net.add_arc_place_transition(place, transition).is_ok()
}

/// Calls `PetriNet::add_arc_transition_place` and reports whether it returned `Ok`.
/// It does so exactly if the net holds both ends and not yet this arc; the arc is
/// then added. Otherwise the net stays as it was. This holds of every net that was
/// built through the methods of `PetriNet`, which record each arc at both its ends.
#[verifier::external_body]
fn petri_net_add_arc_transition_place(
    net: &mut netcrab::petri_net::PetriNet,
    transition: &netcrab::petri_net::TransitionRef,
    place: &netcrab::petri_net::PlaceRef,
) -> (added: bool)
    ensures
        added <==> net_places(*old(net)).contains_key(place_key(*place)) && net_transitions(
            *old(net),
        ).contains(transition_key(*transition)) && !net_arcs_out(*old(net)).contains(
            (transition_key(*transition), place_key(*place)),
        ),
        net_arcs_out(*final(net)) == if added {
            net_arcs_out(*old(net)).insert((transition_key(*transition), place_key(*place)))
        } else {
            net_arcs_out(*old(net))
        },
        net_places(*final(net)) == net_places(*old(net)),
        net_transitions(*final(net)) == net_transitions(*old(net)),
        net_arcs_in(*final(net)) == net_arcs_in(*old(net)),
{
    net.add_arc_transition_place(transition, place).is_ok()
}

/// Calls `PetriNet::add_token` and reports whether it returned `Ok`. It does so
/// exactly if the net holds the place and the new count fits in a `usize`; the
/// tokens are then added to the place. Otherwise the net stays as it was.
#[verifier::external_body]
fn petri_net_add_token(
    net: &mut netcrab::petri_net::PetriNet,
    place: &netcrab::petri_net::PlaceRef,
    tokens: usize,
) -> (added: bool)
    ensures
        added <==> net_places(*old(net)).contains_key(place_key(*place)) && net_places(
            *old(net),
        )[place_key(*place)] + tokens <= usize::MAX,
        net_places(*final(net)) == if added {
            net_places(*old(net)).insert(
                place_key(*place),
                net_places(*old(net))[place_key(*place)] + tokens as nat,
            )
        } else {
            net_places(*old(net))
        },
        net_transitions(*final(net)) == net_transitions(*old(net)),
        net_arcs_in(*final(net)) == net_arcs_in(*old(net)),
        net_arcs_out(*final(net)) == net_arcs_out(*old(net)),
{
    net.add_token(place, tokens).is_ok()
}

/// Calls `PlaceRef::label`, which hands out the label of the reference.
#[verifier::external_body]
fn place_ref_label(r: &netcrab::petri_net::PlaceRef) -> (label: &String)
    ensures
        label@ == place_key(*r).0,
{
    r.label()
}

/// Calls `TransitionRef::label`, which hands out the label of the reference.
#[verifier::external_body]
fn transition_ref_label(r: &netcrab::petri_net::TransitionRef) -> (label: &String)
    ensures
        label@ == transition_key(*r).0,
{
    r.label()
}

/// A reference to a place of a [`Net`]: its position in the order of creation.
#[derive(Clone, Copy, PartialEq, Eq, Structural, Debug)]
pub struct PlaceId {
    pub index: usize,
}

/// A reference to a transition of a [`Net`]: its position in the order of creation.
#[derive(Clone, Copy, PartialEq, Eq, Structural, Debug)]
pub struct TransitionId {
    pub index: usize,
}

/// The mathematical model of a [`Net`].
pub struct NetView {
    /// The labels of the places, in the order of creation.
    pub places: Seq<Seq<char>>,
    /// The number of tokens on each place.
    pub tokens: Seq<nat>,
    /// The labels of the transitions, in the order of creation.
    pub transitions: Seq<Seq<char>>,
    /// The arcs from a place (first) to a transition (second), each with weight one.
    pub arcs_in: Set<(int, int)>,
    /// The arcs from a transition (first) to a place (second), each with weight one.
    pub arcs_out: Set<(int, int)>,
}

impl NetView {
    /// The net without places, transitions and arcs.
    pub open spec fn empty() -> NetView {
        NetView {
            places: Seq::empty(),
            tokens: Seq::empty(),
            transitions: Seq::empty(),
            arcs_in: Set::empty(),
            arcs_out: Set::empty(),
        }
    }

    /// Place labels are pairwise distinct, transition labels are pairwise distinct,
    /// every place has a marking and every arc joins a place and a transition of the net.
    pub open spec fn wf(self) -> bool {
        &&& self.tokens.len() == self.places.len()
        &&& forall|i: int, j: int|
            0 <= i < j < self.places.len() ==> self.places[i] != self.places[j]
        &&& forall|i: int, j: int|
            0 <= i < j < self.transitions.len() ==> self.transitions[i] != self.transitions[j]
        &&& forall|a: (int, int)| #[trigger]
            self.arcs_in.contains(a) ==> 0 <= a.0 < self.places.len() && 0 <= a.1
                < self.transitions.len()
        &&& forall|a: (int, int)| #[trigger]
            self.arcs_out.contains(a) ==> 0 <= a.0 < self.transitions.len() && 0 <= a.1
                < self.places.len()
    }

    pub open spec fn has_place(self, place: PlaceId) -> bool {
        place.index < self.places.len()
    }

    pub open spec fn has_transition(self, transition: TransitionId) -> bool {
        transition.index < self.transitions.len()
    }

    /// The reference that the next new place receives.
    pub open spec fn next_place(self) -> PlaceId {
        PlaceId { index: self.places.len() as usize }
    }

    /// The reference that the next new transition receives.
    pub open spec fn next_transition(self) -> TransitionId {
        TransitionId { index: self.transitions.len() as usize }
    }

    pub open spec fn has_arc_in(self, place: PlaceId, transition: TransitionId) -> bool {
        self.arcs_in.contains((place.index as int, transition.index as int))
    }

    pub open spec fn has_arc_out(self, transition: TransitionId, place: PlaceId) -> bool {
        self.arcs_out.contains((transition.index as int, place.index as int))
    }

    /// The net with one more place, unmarked and unconnected.
    pub open spec fn add_place(self, label: Seq<char>) -> NetView {
        NetView { places: self.places.push(label), tokens: self.tokens.push(0), ..self }
    }

    /// The net with one more transition, unconnected.
    pub open spec fn add_transition(self, label: Seq<char>) -> NetView {
        NetView { transitions: self.transitions.push(label), ..self }
    }

    /// The net with one more arc, from a place to a transition.
    pub open spec fn add_arc_in(self, place: PlaceId, transition: TransitionId) -> NetView {
        NetView {
            arcs_in: self.arcs_in.insert((place.index as int, transition.index as int)),
            ..self
        }
    }

    /// The net with one more arc, from a transition to a place.
    pub open spec fn add_arc_out(self, transition: TransitionId, place: PlaceId) -> NetView {
        NetView {
            arcs_out: self.arcs_out.insert((transition.index as int, place.index as int)),
            ..self
        }
    }

    /// Whether this net has grown out of an earlier one by new places, transitions
    /// and arcs alone: every place, transition and arc of the earlier net is still
    /// there, under the same reference, the places of the earlier net hold as many
    /// tokens as before, and the new places hold none.
    pub open spec fn extends(self, earlier: NetView) -> bool {
        &&& earlier.places.len() <= self.places.len()
        &&& earlier.tokens.len() <= self.tokens.len()
        &&& earlier.transitions.len() <= self.transitions.len()
        &&& forall|i: int| 0 <= i < earlier.places.len() ==> self.places[i] == earlier.places[i]
        &&& forall|i: int| 0 <= i < earlier.tokens.len() ==> self.tokens[i] == earlier.tokens[i]
        &&& forall|i: int| earlier.tokens.len() <= i < self.tokens.len() ==> self.tokens[i] == 0
        &&& forall|j: int|
            0 <= j < earlier.transitions.len() ==> self.transitions[j] == earlier.transitions[j]
        &&& earlier.arcs_in.subset_of(self.arcs_in)
        &&& earlier.arcs_out.subset_of(self.arcs_out)
    }

    /// Adding a place, unless its label is taken.
    pub open spec fn try_add_place(self, label: Seq<char>) -> Result<
        (NetView, PlaceId),
        TranslationError,
    > {
        if self.places.contains(label) {
            Err(TranslationError::DuplicateLabel)
        } else {
            Ok((self.add_place(label), self.next_place()))
        }
    }

    /// Adding a transition, unless its label is taken.
    pub open spec fn try_add_transition(self, label: Seq<char>) -> Result<
        (NetView, TransitionId),
        TranslationError,
    > {
        if self.transitions.contains(label) {
            Err(TranslationError::DuplicateLabel)
        } else {
            Ok((self.add_transition(label), self.next_transition()))
        }
    }

    /// Adding a transition that takes a token from one place and puts one on another,
    /// unless its label is taken.
    pub open spec fn connect(self, start: PlaceId, end: PlaceId, label: Seq<char>) -> Result<
        (NetView, TransitionId),
        TranslationError,
    > {
        if self.transitions.contains(label) {
            Err(TranslationError::DuplicateLabel)
        } else {
            let transition = self.next_transition();
            Ok(
                (
                    self.add_transition(label).add_arc_in(start, transition).add_arc_out(
                        transition,
                        end,
                    ),
                    transition,
                ),
            )
        }
    }

    /// The net with more tokens on one place.
    pub open spec fn add_tokens(self, place: PlaceId, tokens: nat) -> NetView {
        NetView {
            tokens: self.tokens.update(
                place.index as int,
                self.tokens[place.index as int] + tokens,
            ),
            ..self
        }
    }
}

/// A net that has grown out of a net that has grown out of a third has grown out
/// of the third.
pub broadcast proof fn lemma_extends_transitive(later: NetView, middle: NetView, earlier: NetView)
    requires
        #[trigger] later.extends(middle),
        #[trigger] middle.extends(earlier),
    ensures
        later.extends(earlier),
{
}

/// Whether a step went as its description says: it gave the value and left the
/// state that the description gives, or failed with the error that it gives.
pub open spec fn agrees<S, T>(
    described: Result<(S, T), TranslationError>,
    result: Result<T, TranslationError>,
    state: S,
) -> bool {
    match described {
        Ok((view, value)) => result == Ok::<T, TranslationError>(value) && state == view,
        Err(error) => result == Err::<T, TranslationError>(error),
    }
}

/// A Petri net that grows by places, transitions, arcs and tokens and never shrinks.
pub struct Net {
    inner: netcrab::petri_net::PetriNet,
    places: Vec<netcrab::petri_net::PlaceRef>,
    transitions: Vec<netcrab::petri_net::TransitionRef>,
}

impl View for Net {
    type V = NetView;

    closed spec fn view(&self) -> NetView {
        NetView {
            places: Seq::new(self.places@.len(), |i: int| self.pkey(i).0),
            tokens: Seq::new(self.places@.len(), |i: int| net_places(self.inner)[self.pkey(i)]),
            transitions: Seq::new(self.transitions@.len(), |j: int| self.tkey(j).0),
            arcs_in: Set::new(
                |a: (int, int)|
                    0 <= a.0 < self.places@.len() && 0 <= a.1 < self.transitions@.len()
                        && net_arcs_in(self.inner).contains((self.pkey(a.0), self.tkey(a.1))),
            ),
            arcs_out: Set::new(
                |a: (int, int)|
                    0 <= a.0 < self.transitions@.len() && 0 <= a.1 < self.places@.len()
                        && net_arcs_out(self.inner).contains((self.tkey(a.0), self.pkey(a.1))),
            ),
        }
    }
}

impl Net {
    spec fn pkey(&self, i: int) -> (Seq<char>, int) {
        place_key(self.places@[i])
    }

    spec fn tkey(&self, j: int) -> (Seq<char>, int) {
        transition_key(self.transitions@[j])
    }

    /// The references held are exactly the places and transitions of the inner net,
    /// and no label occurs twice among the places nor among the transitions.
    spec fn elements_wf(&self) -> bool {
        &&& forall|i: int, j: int|
            0 <= i < j < self.places@.len() ==> self.pkey(i).0 != self.pkey(j).0
        &&& forall|i: int, j: int|
            0 <= i < j < self.transitions@.len() ==> self.tkey(i).0 != self.tkey(j).0
        &&& forall|i: int|
            0 <= i < self.places@.len() ==> net_places(self.inner).contains_key(
                #[trigger] self.pkey(i),
            )
        &&& forall|j: int|
            0 <= j < self.transitions@.len() ==> net_transitions(self.inner).contains(
                #[trigger] self.tkey(j),
            )
        &&& forall|k: (Seq<char>, int)| #[trigger]
            net_places(self.inner).contains_key(k) ==> exists|i: int|
                0 <= i < self.places@.len() && self.pkey(i) == k
        &&& forall|k: (Seq<char>, int)| #[trigger]
            net_transitions(self.inner).contains(k) ==> exists|j: int|
                0 <= j < self.transitions@.len() && self.tkey(j) == k
    }

    /// The arcs of the inner net join places and transitions that it holds.
    spec fn arcs_wf(&self) -> bool {
        &&& forall|a: ((Seq<char>, int), (Seq<char>, int))| #[trigger]
            net_arcs_in(self.inner).contains(a) ==> net_places(self.inner).contains_key(a.0)
                && net_transitions(self.inner).contains(a.1)
        &&& forall|a: ((Seq<char>, int), (Seq<char>, int))| #[trigger]
            net_arcs_out(self.inner).contains(a) ==> net_transitions(self.inner).contains(a.0)
                && net_places(self.inner).contains_key(a.1)
    }

    /// The references held are exactly the places and transitions of the inner net,
    /// no label occurs twice among the places nor among the transitions, and the
    /// arcs of the inner net join places and transitions that it holds.
    pub closed spec fn wf(&self) -> bool {
        self.elements_wf() && self.arcs_wf()
    }

    /// In a well-formed net the labels of the places are pairwise distinct, and
    /// likewise the labels of the transitions.
    pub proof fn lemma_labels_distinct(&self)
        requires
            self.wf(),
        ensures
            self@.wf(),
    {
    }

    /// Creates a net without places, transitions and arcs.
    pub fn new() -> (net: Net)
        ensures
            net.wf(),
            net@ == NetView::empty(),
    {
        let net = Net { inner: petri_net_new(), places: Vec::new(), transitions: Vec::new() };
        assert(net@.places =~= Seq::empty());
        assert(net@.tokens =~= Seq::empty());
        assert(net@.transitions =~= Seq::empty());
        assert(net@.arcs_in =~= Set::empty());
        assert(net@.arcs_out =~= Set::empty());
        net
    }

    /// The number of places.
    pub fn place_count(&self) -> (count: usize)
        ensures
            count == self@.places.len(),
    {
        self.places.len()
    }

    /// The number of transitions.
    pub fn transition_count(&self) -> (count: usize)
        ensures
            count == self@.transitions.len(),
    {
        self.transitions.len()
    }

    /// Finds the place that carries the label.
    pub fn find_place(&self, label: &str) -> (found: Option<PlaceId>)
        requires
            self.wf(),
        ensures
            match found {
                Some(place) => self@.has_place(place) && self@.places[place.index as int]
                    == label@,
                None => !self@.places.contains(label@),
            },
    {
        let wanted = label.to_owned();
        let mut i: usize = 0;
        while i < self.places.len()
            invariant
                i <= self.places@.len(),
                wanted@ == label@,
                forall|k: int| 0 <= k < i ==> self@.places[k] != label@,
            decreases self.places@.len() - i,
        {
            if *place_ref_label(&self.places[i]) == wanted {
                return Some(PlaceId { index: i });
            }
            i += 1;
        }
        None
    }

    /// Finds the transition that carries the label.
    pub fn find_transition(&self, label: &str) -> (found: Option<TransitionId>)
        requires
            self.wf(),
        ensures
            match found {
                Some(transition) => self@.has_transition(transition)
                    && self@.transitions[transition.index as int] == label@,
                None => !self@.transitions.contains(label@),
            },
    {
        let wanted = label.to_owned();
        let mut j: usize = 0;
        while j < self.transitions.len()
            invariant
                j <= self.transitions@.len(),
                wanted@ == label@,
                forall|k: int| 0 <= k < j ==> self@.transitions[k] != label@,
            decreases self.transitions@.len() - j,
        {
            if *transition_ref_label(&self.transitions[j]) == wanted {
                return Some(TransitionId { index: j });
            }
            j += 1;
        }
        None
    }

    /// Adds a place with a label that no place of the net carries yet.
    pub fn add_place(&mut self, label: &str) -> (place: PlaceId)
        requires
            old(self).wf(),
            !old(self)@.places.contains(label@),
        ensures
            final(self).wf(),
            final(self)@ == old(self)@.add_place(label@),
            place == old(self)@.next_place(),
    {
        proof {
            assert forall|k: (Seq<char>, int)| #[trigger]
                net_places(self.inner).contains_key(k) implies k.0 != label@ by {
                let i = choose|i: int| 0 <= i < self.places@.len() && self.pkey(i) == k;
                assert(self@.places[i] == k.0);
            }
        }
        let ghost before = *self;
        let index = self.places.len();
        let r = petri_net_add_place(&mut self.inner, label);
        self.places.push(r);
        proof {
            let n = before.places@.len() as int;
            assert(self.pkey(n) == place_key(r));
            assert forall|i: int| 0 <= i < n implies self.pkey(i) == before.pkey(i) by {}
            assert forall|i: int| 0 <= i < n implies self.pkey(i).0 != label@ by {
                assert(before@.places[i] == before.pkey(i).0);
            }
            assert forall|k: (Seq<char>, int)| #[trigger]
                net_places(self.inner).contains_key(k) implies exists|i: int|
                0 <= i < self.places@.len() && self.pkey(i) == k by {
                if k == place_key(r) {
                    assert(self.pkey(n) == k);
                } else {
                    let i = choose|i: int| 0 <= i < n && before.pkey(i) == k;
                    assert(self.pkey(i) == k);
                }
            }
            assert forall|j: int| 0 <= j < self.transitions@.len() implies self.tkey(j)
                == before.tkey(j) by {}
            assert forall|k: (Seq<char>, int)| #[trigger]
                net_transitions(self.inner).contains(k) implies exists|j: int|
                0 <= j < self.transitions@.len() && self.tkey(j) == k by {
                let j = choose|j: int| 0 <= j < before.transitions@.len() && before.tkey(j) == k;
                assert(self.tkey(j) == k);
            }
            assert(before.wf());
            assert forall|i: int, j: int| 0 <= i < j < self.places@.len() implies self.pkey(i).0
                != self.pkey(j).0 by {
                if j < n {
                    assert(before.pkey(i).0 != before.pkey(j).0);
                }
            }
            assert forall|i: int, j: int|
                0 <= i < j < self.transitions@.len() implies self.tkey(i).0 != self.tkey(j).0 by {
                assert(before.tkey(i).0 != before.tkey(j).0);
            }
            assert forall|i: int| 0 <= i < self.places@.len() implies net_places(
                self.inner,
            ).contains_key(#[trigger] self.pkey(i)) by {
                if i < n {
                    assert(net_places(before.inner).contains_key(before.pkey(i)));
                }
            }
            assert forall|j: int| 0 <= j < self.transitions@.len() implies net_transitions(
                self.inner,
            ).contains(#[trigger] self.tkey(j)) by {
                assert(net_transitions(before.inner).contains(before.tkey(j)));
            }
            assert(self.wf());
            assert(self@.places =~= before@.places.push(label@));
            assert(self@.tokens =~= before@.tokens.push(0));
            assert(self@.transitions =~= before@.transitions);
            assert(!net_places(before.inner).contains_key(place_key(r)));
            assert(self@.arcs_in =~= before@.arcs_in);
            assert(self@.arcs_out =~= before@.arcs_out);
        }
        PlaceId { index }
    }

    /// Adds a transition with a label that no transition of the net carries yet.
    pub fn add_transition(&mut self, label: &str) -> (transition: TransitionId)
        requires
            old(self).wf(),
            !old(self)@.transitions.contains(label@),
        ensures
            final(self).wf(),
            final(self)@ == old(self)@.add_transition(label@),
            transition == old(self)@.next_transition(),
    {
        proof {
            assert forall|k: (Seq<char>, int)| #[trigger]
                net_transitions(self.inner).contains(k) implies k.0 != label@ by {
                let j = choose|j: int| 0 <= j < self.transitions@.len() && self.tkey(j) == k;
                assert(self@.transitions[j] == k.0);
            }
        }
        let ghost before = *self;
        let index = self.transitions.len();
        let r = petri_net_add_transition(&mut self.inner, label);
        self.transitions.push(r);
        proof {
            let n = before.transitions@.len() as int;
            assert(before.wf());
            assert(self.tkey(n) == transition_key(r));
            assert forall|j: int| 0 <= j < n implies self.tkey(j) == before.tkey(j) by {}
            assert forall|j: int| 0 <= j < n implies self.tkey(j).0 != label@ by {
                assert(before@.transitions[j] == before.tkey(j).0);
            }
            assert forall|i: int| 0 <= i < self.places@.len() implies self.pkey(i)
                == before.pkey(i) by {}
            assert forall|k: (Seq<char>, int)| #[trigger]
                net_transitions(self.inner).contains(k) implies exists|j: int|
                0 <= j < self.transitions@.len() && self.tkey(j) == k by {
                if k == transition_key(r) {
                    assert(self.tkey(n) == k);
                } else {
                    let j = choose|j: int| 0 <= j < n && before.tkey(j) == k;
                    assert(self.tkey(j) == k);
                }
            }
            assert forall|k: (Seq<char>, int)| #[trigger]
                net_places(self.inner).contains_key(k) implies exists|i: int|
                0 <= i < self.places@.len() && self.pkey(i) == k by {
                let i = choose|i: int| 0 <= i < before.places@.len() && before.pkey(i) == k;
                assert(self.pkey(i) == k);
            }
            assert forall|i: int, j: int|
                0 <= i < j < self.transitions@.len() implies self.tkey(i).0 != self.tkey(j).0 by {
                if j < n {
                    assert(before.tkey(i).0 != before.tkey(j).0);
                }
            }
            assert forall|i: int, j: int| 0 <= i < j < self.places@.len() implies self.pkey(i).0
                != self.pkey(j).0 by {
                assert(before.pkey(i).0 != before.pkey(j).0);
            }
            assert forall|j: int| 0 <= j < self.transitions@.len() implies net_transitions(
                self.inner,
            ).contains(#[trigger] self.tkey(j)) by {
                if j < n {
                    assert(net_transitions(before.inner).contains(before.tkey(j)));
                }
            }
            assert forall|i: int| 0 <= i < self.places@.len() implies net_places(
                self.inner,
            ).contains_key(#[trigger] self.pkey(i)) by {
                assert(net_places(before.inner).contains_key(before.pkey(i)));
            }
            assert(self.wf());
            assert(self@.places =~= before@.places);
            assert(self@.tokens =~= before@.tokens);
            assert(self@.transitions =~= before@.transitions.push(label@));
            assert(!net_transitions(before.inner).contains(transition_key(r)));
            assert(self@.arcs_in =~= before@.arcs_in);
            assert(self@.arcs_out =~= before@.arcs_out);
        }
        TransitionId { index }
    }

    /// What a change of the inner net leaves as it was, where the references held and
    /// the places and transitions of the inner net stay the same.
    proof fn lemma_same_elements(&self, before: Net)
        requires
            before.wf(),
            self.places == before.places,
            self.transitions == before.transitions,
            net_places(self.inner).dom() == net_places(before.inner).dom(),
            net_transitions(self.inner) == net_transitions(before.inner),
        ensures
            self.elements_wf(),
            self@.places == before@.places,
            self@.transitions == before@.transitions,
            forall|i: int| self.pkey(i) == before.pkey(i),
            forall|j: int| self.tkey(j) == before.tkey(j),
            forall|i: int, j: int|
                0 <= i < self.places@.len() && 0 <= j < self.places@.len() && self.pkey(i)
                    == self.pkey(j) ==> i == j,
            forall|i: int, j: int|
                0 <= i < self.transitions@.len() && 0 <= j < self.transitions@.len() && self.tkey(
                    i,
                ) == self.tkey(j) ==> i == j,
            forall|i: int|
                0 <= i < self.places@.len() ==> net_places(self.inner).contains_key(
                    #[trigger] self.pkey(i),
                ),
            forall|j: int|
                0 <= j < self.transitions@.len() ==> net_transitions(self.inner).contains(
                    #[trigger] self.tkey(j),
                ),
    {
        assert forall|i: int, j: int|
            0 <= i < self.places@.len() && 0 <= j < self.places@.len() && self.pkey(i)
                == self.pkey(j) implies i == j by {
            if i < j {
                assert(before.pkey(i).0 != before.pkey(j).0);
            }
            if j < i {
                assert(before.pkey(j).0 != before.pkey(i).0);
            }
        }
        assert forall|i: int, j: int|
            0 <= i < self.transitions@.len() && 0 <= j < self.transitions@.len() && self.tkey(i)
                == self.tkey(j) implies i == j by {
            if i < j {
                assert(before.tkey(i).0 != before.tkey(j).0);
            }
            if j < i {
                assert(before.tkey(j).0 != before.tkey(i).0);
            }
        }
        assert forall|i: int| 0 <= i < self.places@.len() implies net_places(
            self.inner,
        ).contains_key(#[trigger] self.pkey(i)) by {
            assert(net_places(before.inner).contains_key(before.pkey(i)));
        }
        assert forall|j: int| 0 <= j < self.transitions@.len() implies net_transitions(
            self.inner,
        ).contains(#[trigger] self.tkey(j)) by {
            assert(net_transitions(before.inner).contains(before.tkey(j)));
        }
        assert forall|k: (Seq<char>, int)| #[trigger]
            net_places(self.inner).contains_key(k) implies exists|i: int|
            0 <= i < self.places@.len() && self.pkey(i) == k by {
            assert(net_places(before.inner).contains_key(k));
            let i = choose|i: int| 0 <= i < before.places@.len() && before.pkey(i) == k;
            assert(self.pkey(i) == k);
        }
        assert forall|k: (Seq<char>, int)| #[trigger]
            net_transitions(self.inner).contains(k) implies exists|j: int|
            0 <= j < self.transitions@.len() && self.tkey(j) == k by {
            let j = choose|j: int| 0 <= j < before.transitions@.len() && before.tkey(j) == k;
            assert(self.tkey(j) == k);
        }
        assert forall|i: int, j: int| 0 <= i < j < self.places@.len() implies self.pkey(i).0
            != self.pkey(j).0 by {
            assert(before.pkey(i).0 != before.pkey(j).0);
        }
        assert forall|i: int, j: int|
            0 <= i < j < self.transitions@.len() implies self.tkey(i).0 != self.tkey(j).0 by {
            assert(before.tkey(i).0 != before.tkey(j).0);
        }
        assert(self@.places =~= before@.places);
        assert(self@.transitions =~= before@.transitions);
    }

    /// Adds an arc of weight one from a place to a transition of the net, unless the
    /// net holds this arc already, and tells whether the arc is new.
    pub fn add_arc_place_transition(&mut self, place: &PlaceId, transition: &TransitionId) -> (added:
        bool)
        requires
            old(self).wf(),
            old(self)@.has_place(*place),
            old(self)@.has_transition(*transition),
        ensures
            final(self).wf(),
            final(self)@ == old(self)@.add_arc_in(*place, *transition),
            added == !old(self)@.has_arc_in(*place, *transition),
    {
        let ghost before = *self;
        let ghost p = place.index as int;
        let ghost t = transition.index as int;
        proof {
            assert(net_places(self.inner).contains_key(self.pkey(p)));
            assert(net_transitions(self.inner).contains(self.tkey(t)));
            assert(before@.arcs_in.contains((p, t)) == net_arcs_in(self.inner).contains(
                (self.pkey(p), self.tkey(t)),
            ));
        }
        let added = petri_net_add_arc_place_transition(
            &mut self.inner,
            &self.places[place.index],
            &self.transitions[transition.index],
        );
        proof {
            self.lemma_same_elements(before);
            assert(self.wf());
            assert(self@.tokens =~= before@.tokens);
            assert(self@.arcs_in =~= before@.arcs_in.insert((p, t)));
            assert(self@.arcs_out =~= before@.arcs_out);
        }
        added
    }

    /// Adds an arc of weight one from a transition to a place of the net, unless the
    /// net holds this arc already, and tells whether the arc is new.
    pub fn add_arc_transition_place(&mut self, transition: &TransitionId, place: &PlaceId) -> (added:
        bool)
        requires
            old(self).wf(),
            old(self)@.has_place(*place),
            old(self)@.has_transition(*transition),
        ensures
            final(self).wf(),
            final(self)@ == old(self)@.add_arc_out(*transition, *place),
            added == !old(self)@.has_arc_out(*transition, *place),
    {
        let ghost before = *self;
        let ghost p = place.index as int;
        let ghost t = transition.index as int;
        proof {
            assert(net_places(self.inner).contains_key(self.pkey(p)));
            assert(net_transitions(self.inner).contains(self.tkey(t)));
            assert(before@.arcs_out.contains((t, p)) == net_arcs_out(self.inner).contains(
                (self.tkey(t), self.pkey(p)),
            ));
        }
        let added = petri_net_add_arc_transition_place(
            &mut self.inner,
            &self.transitions[transition.index],
            &self.places[place.index],
        );
        proof {
            self.lemma_same_elements(before);
            assert(self.wf());
            assert(self@.tokens =~= before@.tokens);
            assert(self@.arcs_in =~= before@.arcs_in);
            assert(self@.arcs_out =~= before@.arcs_out.insert((t, p)));
        }
        added
    }

    /// Adds tokens to a place of the net. The new number of tokens fits in a `usize`.
    pub fn add_token(&mut self, place: &PlaceId, tokens: usize)
        requires
            old(self).wf(),
            old(self)@.has_place(*place),
            old(self)@.tokens[place.index as int] + tokens <= usize::MAX,
        ensures
            final(self).wf(),
            final(self)@ == old(self)@.add_tokens(*place, tokens as nat),
    {
        let ghost before = *self;
        let ghost p = place.index as int;
        proof {
            assert(net_places(self.inner).contains_key(self.pkey(p)));
        }
        let added = petri_net_add_token(&mut self.inner, &self.places[place.index], tokens);
        proof {
            assert(added);
            assert(net_places(self.inner).dom() =~= net_places(before.inner).dom());
            self.lemma_same_elements(before);
            assert forall|a: ((Seq<char>, int), (Seq<char>, int))| #[trigger]
                net_arcs_in(self.inner).contains(a) implies net_places(self.inner).contains_key(
                a.0,
            ) && net_transitions(self.inner).contains(a.1) by {
                assert(net_places(before.inner).contains_key(a.0));
            }
            assert forall|a: ((Seq<char>, int), (Seq<char>, int))| #[trigger]
                net_arcs_out(self.inner).contains(a) implies net_transitions(self.inner).contains(
                a.0,
            ) && net_places(self.inner).contains_key(a.1) by {
                assert(net_places(before.inner).contains_key(a.1));
            }
            assert(self.wf());
            assert(self@.tokens =~= before@.tokens.update(p, before@.tokens[p] + tokens as nat));
            assert(self@.arcs_in =~= before@.arcs_in);
            assert(self@.arcs_out =~= before@.arcs_out);
        }
    }

    /// Adds a place, unless its label is taken.
    pub fn try_add_place(&mut self, label: &str) -> (result: Result<PlaceId, TranslationError>)
        requires
            old(self).wf(),
        ensures
            final(self).wf(),
            final(self)@.extends(old(self)@),
            agrees(old(self)@.try_add_place(label@), result, final(self)@),
    {
        if self.find_place(label).is_some() {
            return Err(TranslationError::DuplicateLabel);
        }
        Ok(self.add_place(label))
    }

    /// Adds a transition, unless its label is taken.
    pub fn try_add_transition(&mut self, label: &str) -> (result: Result<
        TransitionId,
        TranslationError,
    >)
        requires
            old(self).wf(),
        ensures
            final(self).wf(),
            final(self)@.extends(old(self)@),
            agrees(old(self)@.try_add_transition(label@), result, final(self)@),
    {
        if self.find_transition(label).is_some() {
            return Err(TranslationError::DuplicateLabel);
        }
        Ok(self.add_transition(label))
    }

    /// Adds a transition that takes a token from one place and puts one on another,
    /// unless its label is taken.
    pub fn connect_places(&mut self, start: &PlaceId, end: &PlaceId, label: &str) -> (result:
        Result<TransitionId, TranslationError>)
        requires
            old(self).wf(),
            old(self)@.has_place(*start),
            old(self)@.has_place(*end),
        ensures
            final(self).wf(),
            final(self)@.extends(old(self)@),
            agrees(old(self)@.connect(*start, *end, label@), result, final(self)@),
    {
        if self.find_transition(label).is_some() {
            return Err(TranslationError::DuplicateLabel);
        }
        let transition = self.add_transition(label);
        self.add_arc_place_transition(start, &transition);
        self.add_arc_transition_place(&transition, end);
        Ok(transition)
    }

    /// The label of a place of the net.
    pub fn place_label(&self, place: &PlaceId) -> (label: String)
        requires
            self@.has_place(*place),
        ensures
            label@ == self@.places[place.index as int],
    {
        place_ref_label(&self.places[place.index]).clone()
    }

    /// The label of a transition of the net.
    pub fn transition_label(&self, transition: &TransitionId) -> (label: String)
        requires
            self@.has_transition(*transition),
        ensures
            label@ == self@.transitions[transition.index as int],
    {
        transition_ref_label(&self.transitions[transition.index]).clone()
    }

    /// The identity that the place at a position has in the `netcrab` net.
    pub closed spec fn place_key_at(&self, i: int) -> (Seq<char>, int) {
        self.pkey(i)
    }

    /// The identity that the transition at a position has in the `netcrab` net.
    pub closed spec fn transition_key_at(&self, j: int) -> (Seq<char>, int) {
        self.tkey(j)
    }

    /// Hands the net over as a `netcrab` net, for the output stages. The places,
    /// transitions and arcs of the `netcrab` net are those of the model, with the
    /// same labels and the same numbers of tokens.
    pub fn into_petri_net(self) -> (net: netcrab::petri_net::PetriNet)
        requires
            self.wf(),
        ensures
            forall|i: int|
                0 <= i < self@.places.len() ==> net_places(net).contains_key(
                    #[trigger] self.place_key_at(i),
                ) && self.place_key_at(i).0 == self@.places[i] && net_places(
                    net,
                )[self.place_key_at(i)] == self@.tokens[i],
            forall|k: (Seq<char>, int)| #[trigger]
                net_places(net).contains_key(k) ==> exists|i: int|
                    0 <= i < self@.places.len() && self.place_key_at(i) == k,
            forall|j: int|
                0 <= j < self@.transitions.len() ==> net_transitions(net).contains(
                    #[trigger] self.transition_key_at(j),
                ) && self.transition_key_at(j).0 == self@.transitions[j],
            forall|k: (Seq<char>, int)| #[trigger]
                net_transitions(net).contains(k) ==> exists|j: int|
                    0 <= j < self@.transitions.len() && self.transition_key_at(j) == k,
            forall|i: int, j: int|
                0 <= i < self@.places.len() && 0 <= j < self@.transitions.len() ==> (
                #[trigger] net_arcs_in(net).contains(
                    (self.place_key_at(i), self.transition_key_at(j)),
                ) <==> self@.arcs_in.contains((i, j))),
            forall|i: int, j: int|
                0 <= i < self@.places.len() && 0 <= j < self@.transitions.len() ==> (
                #[trigger] net_arcs_out(net).contains(
                    (self.transition_key_at(j), self.place_key_at(i)),
                ) <==> self@.arcs_out.contains((j, i))),
            forall|a: ((Seq<char>, int), (Seq<char>, int))| #[trigger]
                net_arcs_in(net).contains(a) ==> net_places(net).contains_key(a.0)
                    && net_transitions(net).contains(a.1),
            forall|a: ((Seq<char>, int), (Seq<char>, int))| #[trigger]
                net_arcs_out(net).contains(a) ==> net_transitions(net).contains(a.0)
                    && net_places(net).contains_key(a.1),
    {
        proof {
            assert forall|k: (Seq<char>, int)| #[trigger]
                net_places(self.inner).contains_key(k) implies exists|i: int|
                0 <= i < self@.places.len() && self.place_key_at(i) == k by {
                let i = choose|i: int| 0 <= i < self.places@.len() && self.pkey(i) == k;
                assert(self.place_key_at(i) == k);
            }
            assert forall|k: (Seq<char>, int)| #[trigger]
                net_transitions(self.inner).contains(k) implies exists|j: int|
                0 <= j < self@.transitions.len() && self.transition_key_at(j) == k by {
                let j = choose|j: int| 0 <= j < self.transitions@.len() && self.tkey(j) == k;
                assert(self.transition_key_at(j) == k);
            }
        }
        self.inner
    }
}

} // verus!
