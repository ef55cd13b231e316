use granite2::error_handling::TranslationError;
use granite2::petri_net_interface::{Net, PlaceId, TransitionId};

#[test]
fn new_net_is_empty() {
    let net = Net::new();
    assert_eq!(net.place_count(), 0);
    assert_eq!(net.transition_count(), 0);
    let inner = net.into_petri_net();
    assert_eq!(inner.get_cardinality_places(), 0);
    assert_eq!(inner.get_cardinality_transitions(), 0);
}

#[test]
fn places_are_numbered_in_the_order_of_creation() {
    let mut net = Net::new();
    assert_eq!(net.add_place("P1"), PlaceId { index: 0 });
    assert_eq!(net.add_place("P0"), PlaceId { index: 1 });
    assert_eq!(net.place_count(), 2);
    assert_eq!(net.place_label(&PlaceId { index: 0 }), "P1");
    assert_eq!(net.place_label(&PlaceId { index: 1 }), "P0");
    assert_eq!(net.find_place("P0"), Some(PlaceId { index: 1 }));
    assert_eq!(net.find_place("P2"), None);
    let inner = net.into_petri_net();
    assert_eq!(inner.get_cardinality_places(), 2);
    let labels: Vec<String> = inner.places_iter().map(|(place, _)| place.label().clone()).collect();
    assert_eq!(labels, vec!["P0", "P1"]);
}

#[test]
fn transitions_are_numbered_in_the_order_of_creation() {
    let mut net = Net::new();
    assert_eq!(net.add_transition("T1"), TransitionId { index: 0 });
    assert_eq!(net.add_transition("T0"), TransitionId { index: 1 });
    assert_eq!(net.transition_count(), 2);
    assert_eq!(net.transition_label(&TransitionId { index: 1 }), "T0");
    assert_eq!(net.find_transition("T1"), Some(TransitionId { index: 0 }));
    assert_eq!(net.find_transition("P1"), None);
    let inner = net.into_petri_net();
    assert_eq!(inner.get_cardinality_transitions(), 2);
    assert_eq!(inner.get_cardinality_places(), 0);
}

#[test]
fn place_and_transition_may_share_a_label() {
    let mut net = Net::new();
    net.add_place("X");
    assert_eq!(net.try_add_transition("X"), Ok(TransitionId { index: 0 }));
}

#[test]
fn taken_label_is_refused() {
    let mut net = Net::new();
    assert_eq!(net.try_add_place("P"), Ok(PlaceId { index: 0 }));
    assert_eq!(net.try_add_place("P"), Err(TranslationError::DuplicateLabel));
    assert_eq!(net.try_add_transition("T"), Ok(TransitionId { index: 0 }));
    assert_eq!(net.try_add_transition("T"), Err(TranslationError::DuplicateLabel));
    assert_eq!(net.place_count(), 1);
    assert_eq!(net.transition_count(), 1);
}

#[test]
fn arc_is_added_once() {
    let mut net = Net::new();
    let place = net.add_place("P");
    let other = net.add_place("Q");
    let transition = net.add_transition("T");
    assert!(net.add_arc_place_transition(&place, &transition));
    assert!(!net.add_arc_place_transition(&place, &transition));
    assert!(net.add_arc_transition_place(&transition, &other));
    assert!(!net.add_arc_transition_place(&transition, &other));
    assert!(net.add_arc_transition_place(&transition, &place));
    let inner = net.into_petri_net();
    let into_transitions: Vec<(String, String)> = inner
        .find_arcs_place_transition()
        .iter()
        .map(|(place, transition)| (place.label().clone(), transition.label().clone()))
        .collect();
    assert_eq!(into_transitions, vec![("P".to_string(), "T".to_string())]);
    let into_places: Vec<(String, String)> = inner
        .find_arcs_transition_place()
        .iter()
        .map(|(transition, place)| (transition.label().clone(), place.label().clone()))
        .collect();
    assert_eq!(
        into_places,
        vec![("T".to_string(), "P".to_string()), ("T".to_string(), "Q".to_string())]
    );
}

#[test]
fn tokens_add_up() {
    let mut net = Net::new();
    let place = net.add_place("P");
    let other = net.add_place("Q");
    net.add_token(&place, 2);
    net.add_token(&place, 3);
    let mut inner = net.into_petri_net();
    let marking: Vec<(String, usize)> = inner
        .marking_vector()
        .iter()
        .map(|(place, tokens)| (place.label().clone(), *tokens))
        .collect();
    assert_eq!(marking, vec![("P".to_string(), 5), ("Q".to_string(), 0)]);
    assert_eq!(other, PlaceId { index: 1 });
}

#[test]
fn connected_places_have_one_transition_between_them() {
    let mut net = Net::new();
    let start = net.add_place("START");
    let end = net.add_place("END");
    assert_eq!(net.connect_places(&start, &end, "STEP"), Ok(TransitionId { index: 0 }));
    assert_eq!(net.connect_places(&start, &end, "STEP"), Err(TranslationError::DuplicateLabel));
    let inner = net.into_petri_net();
    assert_eq!(inner.get_cardinality_transitions(), 1);
    assert_eq!(inner.find_arcs_place_transition().len(), 1);
    assert_eq!(inner.find_arcs_transition_place().len(), 1);
    let (place, transition) = inner.find_arcs_place_transition().iter().next().cloned().unwrap();
    assert_eq!(place.label(), "START");
    assert_eq!(transition.label(), "STEP");
    let (transition, place) = inner.find_arcs_transition_place().iter().next().cloned().unwrap();
    assert_eq!(place.label(), "END");
    assert_eq!(transition.label(), "STEP");
}
