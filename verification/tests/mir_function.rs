use granite2::error_handling::TranslationError;
use granite2::petri_net_interface::{Net, PlaceId, TransitionId};
use granite2::translator::function_call::{extract_nth_argument, FunctionPlaces};
use granite2::translator::mir_function::MirFunction;
use granite2::translator::instance_name;
use granite2::control_flow::{Location, Operand};

fn three_places() -> (Net, PlaceId, PlaceId, PlaceId) {
    let mut net = Net::new();
    let start = net.add_place("S");
    let end = net.add_place("E");
    let cleanup = net.add_place("C");
    (net, start, end, cleanup)
}

#[test]
fn call_names_carry_the_number_of_the_call() {
    assert_eq!(instance_name("main", 0), "main_0");
    assert_eq!(instance_name("std::env::args", 12), "std::env::args_12");
}

#[test]
fn new_call_has_a_place_for_every_block() {
    let (mut net, start, end, cleanup) = three_places();
    let function = MirFunction::new(4, "f_0".to_string(), start, end, cleanup, 2, &mut net).ok().unwrap();
    assert_eq!(function.def_id, 4);
    assert_eq!(function.block_places, vec![PlaceId { index: 3 }, PlaceId { index: 4 }]);
    assert_eq!(net.place_label(&PlaceId { index: 3 }), "f_0_BLOCK_0");
    assert_eq!(net.place_label(&PlaceId { index: 4 }), "f_0_BLOCK_1");
    assert_eq!(net.find_transition("f_0_ENTRY"), Some(TransitionId { index: 0 }));
    assert_eq!(function.get_start_place_for_function_call(), start);
    assert!(MirFunction::new(4, "f_0".to_string(), start, end, cleanup, 2, &mut net).is_err());
}

#[test]
fn call_of_a_function_without_blocks_adds_nothing() {
    let (mut net, start, end, cleanup) = three_places();
    let function = MirFunction::new(0, "f_0".to_string(), start, end, cleanup, 0, &mut net).ok().unwrap();
    assert!(function.block_places.is_empty());
    assert_eq!(net.place_count(), 3);
    assert_eq!(net.transition_count(), 0);
}

#[test]
fn terminators_start_where_the_statements_end() {
    let (mut net, start, end, cleanup) = three_places();
    let mut function = MirFunction::new(0, "f_0".to_string(), start, end, cleanup, 3, &mut net).ok().unwrap();
    function.start_basic_block(1);
    assert_eq!(function.get_start_place_for_function_call(), PlaceId { index: 4 });
    assert_eq!(function.add_statement(0, &mut net), Ok(()));
    assert_eq!(function.add_statement(0, &mut net), Err(TranslationError::DuplicateLabel));
    let chain_end = function.get_start_place_for_function_call();
    assert_eq!(net.place_label(&chain_end), "f_0_BLOCK_1_STATEMENT_0_END");
    assert_eq!(
        function.get_place_refs_for_function_call(2, Some(0)),
        FunctionPlaces { start_place: chain_end, end_place: PlaceId { index: 5 }, cleanup_place: Some(PlaceId { index: 3 }) }
    );
    assert_eq!(
        function.get_place_refs_for_function_call(0, None),
        FunctionPlaces { start_place: chain_end, end_place: PlaceId { index: 3 }, cleanup_place: None }
    );
    let goto = function.goto(2, &mut net).unwrap();
    assert_eq!(net.transition_label(&goto), "f_0_GOTO_1");
    assert_eq!(function.switch_int(&vec![0, 2, 0], &mut net), Ok(()));
    assert_eq!(function.switch_int(&vec![2], &mut net), Err(TranslationError::DuplicateLabel));
    let returned = function.return_statement(&mut net).unwrap();
    assert_eq!(net.transition_label(&returned), "f_0_RETURN");
    let unwound = function.unwind(&mut net).unwrap();
    assert_eq!(net.transition_label(&unwound), "f_0_UNWIND_1");
    let inner = net.into_petri_net();
    let into_places: Vec<(String, String)> = inner
        .find_arcs_transition_place()
        .iter()
        .map(|(transition, place)| (transition.label().clone(), place.label().clone()))
        .collect();
    for (transition, place) in [
        ("f_0_GOTO_1", "f_0_BLOCK_2"),
        ("f_0_SWITCH_1_0", "f_0_BLOCK_0"),
        ("f_0_SWITCH_1_2", "f_0_BLOCK_2"),
        ("f_0_RETURN", "E"),
        ("f_0_UNWIND_1", "C"),
    ] {
        assert!(into_places.contains(&(transition.to_string(), place.to_string())));
    }
    let from_chain_end = inner
        .find_arcs_place_transition()
        .iter()
        .filter(|(place, _)| place.label() == "f_0_BLOCK_1_STATEMENT_0_END")
        .count();
    assert_eq!(from_chain_end, 5);
}

#[test]
fn arguments_are_found_by_position() {
    let first = Location { local: 2, path: Some(1) };
    let args = vec![
        Operand { location: Some(first), function: None },
        Operand { location: None, function: Some(3) },
    ];
    assert_eq!(extract_nth_argument(&args, 0), Some(first));
    assert_eq!(extract_nth_argument(&args, 1), None);
    assert_eq!(extract_nth_argument(&args, 2), None);
}
