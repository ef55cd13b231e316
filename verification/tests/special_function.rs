use granite2::error_handling::TranslationError;
use granite2::petri_net_interface::{Net, TransitionId};
use granite2::translator::function_call::FunctionPlaces;
use granite2::translator::special_function::{
    call_diverging_function, call_foreign_function, call_panic_function, is_panic_function, same_text,
};

fn arcs_of(net: Net) -> (Vec<(String, String)>, Vec<(String, String)>, usize, usize) {
    let inner = net.into_petri_net();
    let into_transitions = inner
        .find_arcs_place_transition()
        .iter()
        .map(|(place, transition)| (place.label().clone(), transition.label().clone()))
        .collect();
    let into_places = inner
        .find_arcs_transition_place()
        .iter()
        .map(|(transition, place)| (transition.label().clone(), place.label().clone()))
        .collect();
    (into_transitions, into_places, inner.get_cardinality_places(), inner.get_cardinality_transitions())
}

fn arc(a: &str, b: &str) -> (String, String) {
    (a.to_string(), b.to_string())
}

#[test]
fn foreign_call_without_cleanup_is_one_transition() {
    let mut net = Net::new();
    let start_place = net.add_place("A");
    let end_place = net.add_place("B");
    let places = FunctionPlaces { start_place, end_place, cleanup_place: None };
    let labels = ("f_CALL".to_string(), "f_CALL_UNWIND".to_string());
    assert_eq!(call_foreign_function(&places, &labels, &mut net), Ok(TransitionId { index: 0 }));
    let (into_transitions, into_places, place_count, transition_count) = arcs_of(net);
    assert_eq!(place_count, 2);
    assert_eq!(transition_count, 1);
    assert_eq!(into_transitions, vec![arc("A", "f_CALL")]);
    assert_eq!(into_places, vec![arc("f_CALL", "B")]);
}

#[test]
fn foreign_call_with_cleanup_has_a_second_transition() {
    let mut net = Net::new();
    let start_place = net.add_place("A");
    let end_place = net.add_place("B");
    let cleanup = net.add_place("C");
    let places = FunctionPlaces { start_place, end_place, cleanup_place: Some(cleanup) };
    let labels = ("f_CALL".to_string(), "f_CALL_UNWIND".to_string());
    assert_eq!(call_foreign_function(&places, &labels, &mut net), Ok(TransitionId { index: 0 }));
    let (into_transitions, into_places, place_count, transition_count) = arcs_of(net);
    assert_eq!(place_count, 3);
    assert_eq!(transition_count, 2);
    assert_eq!(into_transitions, vec![arc("A", "f_CALL"), arc("A", "f_CALL_UNWIND")]);
    assert_eq!(into_places, vec![arc("f_CALL", "B"), arc("f_CALL_UNWIND", "C")]);
}

#[test]
fn foreign_call_with_a_taken_label_fails() {
    let mut net = Net::new();
    let start_place = net.add_place("A");
    let end_place = net.add_place("B");
    let places = FunctionPlaces { start_place, end_place, cleanup_place: Some(end_place) };
    net.add_transition("f_CALL_UNWIND");
    let labels = ("f_CALL".to_string(), "f_CALL_UNWIND".to_string());
    assert_eq!(
        call_foreign_function(&places, &labels, &mut net),
        Err(TranslationError::DuplicateLabel)
    );
    let labels = ("f_CALL".to_string(), "g".to_string());
    assert_eq!(
        call_foreign_function(&places, &labels, &mut net),
        Err(TranslationError::DuplicateLabel)
    );
}

#[test]
fn diverging_call_swallows_the_token() {
    let mut net = Net::new();
    let start_place = net.add_place("A");
    assert_eq!(
        call_diverging_function(&start_place, "std::process::exit", &mut net),
        Ok(TransitionId { index: 0 })
    );
    assert_eq!(
        call_diverging_function(&start_place, "std::process::exit", &mut net),
        Err(TranslationError::DuplicateLabel)
    );
    let (into_transitions, into_places, _, transition_count) = arcs_of(net);
    assert_eq!(transition_count, 1);
    assert_eq!(into_transitions, vec![arc("A", "std_process_exit_DIVERGING_CALL")]);
    assert!(into_places.is_empty());
}

#[test]
fn panic_leads_to_the_unwind_place() {
    let mut net = Net::new();
    let start_place = net.add_place("A");
    let panic_place = net.add_place("PANIC");
    assert_eq!(
        call_panic_function(&start_place, &panic_place, "main", &mut net),
        Ok(TransitionId { index: 0 })
    );
    let (into_transitions, into_places, _, _) = arcs_of(net);
    assert_eq!(into_transitions, vec![arc("A", "main_PANIC")]);
    assert_eq!(into_places, vec![arc("main_PANIC", "PANIC")]);
}

#[test]
fn panic_functions_are_known_by_name() {
    assert!(is_panic_function("core::panicking::panic"));
    assert!(is_panic_function("core::panicking::panic_fmt"));
    assert!(is_panic_function("core::panicking::assert_failed"));
    assert!(is_panic_function("std::rt::begin_panic"));
    assert!(is_panic_function("std::rt::begin_panic_fmt"));
    assert!(!is_panic_function("core::panicking::panic2"));
    assert!(!is_panic_function("main"));
    assert!(same_text("a", "a"));
    assert!(!same_text("a", "b"));
}
