use granite2::control_flow::{BasicBlock, Function, Location, Operand, Program, Statement, Terminator};
use granite2::error_handling::TranslationError;
use granite2::translator::Translator;
use netcrab::petri_net::PetriNet;
use std::collections::BTreeSet;

fn function_with_blocks(name: &str, blocks: Vec<BasicBlock>) -> Function {
    Function { name: name.to_string(), foreign: false, blocks, mutex_places: Vec::new() }
}

fn function_without_blocks(name: &str, foreign: bool) -> Function {
    Function { name: name.to_string(), foreign, blocks: Vec::new(), mutex_places: Vec::new() }
}

fn block(terminator: Terminator) -> BasicBlock {
    BasicBlock { statements: Vec::new(), terminator }
}

fn local(index: usize) -> Location {
    Location { local: index, path: None }
}

fn argument(index: usize) -> Operand {
    Operand { location: Some(local(index)), function: None }
}

fn call(callee: usize, args: Vec<Operand>, destination: usize, target: usize) -> Terminator {
    Terminator::Call { callee, args, destination: local(destination), target: Some(target), cleanup: None }
}

fn translate(program: &Program) -> Result<PetriNet, TranslationError> {
    let mut translator = Translator::new(program);
    translator.run();
    translator.get_result().map(|net| net.into_petri_net())
}

fn place_labels(net: &PetriNet) -> Vec<String> {
    net.places_iter().map(|(place, _)| place.label().clone()).collect()
}

fn transition_labels(net: &PetriNet) -> Vec<String> {
    net.transitions_iter().map(|(transition, _)| transition.label().clone()).collect()
}

fn arcs_into_transitions(net: &PetriNet) -> BTreeSet<(String, String)> {
    net.find_arcs_place_transition()
        .iter()
        .map(|(place, transition)| (place.label().clone(), transition.label().clone()))
        .collect()
}

fn arcs_into_places(net: &PetriNet) -> BTreeSet<(String, String)> {
    net.find_arcs_transition_place()
        .iter()
        .map(|(transition, place)| (transition.label().clone(), place.label().clone()))
        .collect()
}

fn marked_places(net: &PetriNet) -> Vec<(String, usize)> {
    net.places_iter()
        .filter(|(_, place)| place.marking() > 0)
        .map(|(reference, place)| (reference.label().clone(), place.marking()))
        .collect()
}

fn pair(a: &str, b: &str) -> (String, String) {
    (a.to_string(), b.to_string())
}

fn program_that_returns_at_once() -> Program {
    Program {
        functions: vec![function_with_blocks("main", vec![block(Terminator::Return)])],
        entry: Some(0),
    }
}

fn program_that_spawns_and_joins(join: bool) -> Program {
    let spawn = Operand { location: Some(local(2)), function: Some(3) };
    let mut blocks = vec![block(call(1, vec![spawn], 1, 1))];
    if join {
        blocks.push(block(call(2, vec![argument(1)], 3, 2)));
    } else {
        blocks.push(block(Terminator::Goto { target: 2 }));
    }
    blocks.push(block(Terminator::Return));
    Program {
        functions: vec![
            function_with_blocks("main", blocks),
            function_without_blocks("std::thread::spawn", false),
            function_without_blocks("std::thread::JoinHandle::<T>::join", false),
            function_with_blocks("main::{closure#0}", vec![block(Terminator::Return)]),
        ],
        entry: Some(0),
    }
}

#[test]
fn new_translator_has_three_places_and_one_token_on_the_start_place() {
    let program = program_that_returns_at_once();
    let mut translator = Translator::new(&program);
    let net = translator.get_result().unwrap().into_petri_net();
    assert_eq!(place_labels(&net), vec!["PROGRAM_END", "PROGRAM_PANIC", "PROGRAM_START"]);
    assert_eq!(net.get_cardinality_transitions(), 0);
    assert_eq!(marked_places(&net), vec![("PROGRAM_START".to_string(), 1)]);
}

#[test]
fn entry_function_that_returns_at_once() {
    let net = translate(&program_that_returns_at_once()).unwrap();
    assert_eq!(
        place_labels(&net),
        vec!["PROGRAM_END", "PROGRAM_PANIC", "PROGRAM_START", "main_0_BLOCK_0"]
    );
    assert_eq!(transition_labels(&net), vec!["main_0_ENTRY", "main_0_RETURN"]);
    let returns: Vec<(String, String)> = arcs_into_places(&net)
        .into_iter()
        .filter(|(_, place)| place == "PROGRAM_END")
        .collect();
    assert_eq!(returns, vec![pair("main_0_RETURN", "PROGRAM_END")]);
    assert!(arcs_into_transitions(&net).contains(&pair("main_0_BLOCK_0", "main_0_RETURN")));
    assert!(arcs_into_transitions(&net).contains(&pair("PROGRAM_START", "main_0_ENTRY")));
    assert!(arcs_into_places(&net).contains(&pair("main_0_ENTRY", "main_0_BLOCK_0")));
    assert_eq!(marked_places(&net), vec![("PROGRAM_START".to_string(), 1)]);
}

#[test]
fn every_block_has_one_place() {
    let program = Program {
        functions: vec![function_with_blocks(
            "main",
            vec![
                block(Terminator::Goto { target: 1 }),
                block(Terminator::Goto { target: 2 }),
                block(Terminator::Return),
            ],
        )],
        entry: Some(0),
    };
    let net = translate(&program).unwrap();
    assert_eq!(net.get_cardinality_places(), 3 + 3);
    assert_eq!(
        transition_labels(&net),
        vec!["main_0_ENTRY", "main_0_GOTO_0", "main_0_GOTO_1", "main_0_RETURN"]
    );
    assert!(arcs_into_transitions(&net).contains(&pair("main_0_BLOCK_2", "main_0_RETURN")));
    assert_eq!(marked_places(&net), vec![("PROGRAM_START".to_string(), 1)]);
}

#[test]
fn spawned_thread_that_is_joined() {
    let net = translate(&program_that_spawns_and_joins(true)).unwrap();
    let places = place_labels(&net);
    for fixed in ["PROGRAM_START", "PROGRAM_END", "PROGRAM_PANIC", "THREAD_START_0", "THREAD_END_0"] {
        assert!(places.contains(&fixed.to_string()));
    }
    assert_eq!(net.get_cardinality_places(), 3 + 2 + 3 + 1);
    let into_places = arcs_into_places(&net);
    let into_transitions = arcs_into_transitions(&net);
    let spawned: Vec<&(String, String)> =
        into_places.iter().filter(|(transition, _)| transition == "std_thread_spawn_0").collect();
    assert_eq!(
        spawned,
        vec![&pair("std_thread_spawn_0", "THREAD_START_0"), &pair("std_thread_spawn_0", "main_0_BLOCK_1")]
    );
    let from_the_end: Vec<&(String, String)> =
        into_transitions.iter().filter(|(place, _)| place == "THREAD_END_0").collect();
    assert_eq!(from_the_end, vec![&pair("THREAD_END_0", "std_thread_JoinHandle__T__join_0")]);
    assert!(into_places.contains(&pair("main__closure_0__0_RETURN", "THREAD_END_0")));
    assert!(into_transitions.contains(&pair("THREAD_START_0", "main__closure_0__0_ENTRY")));
    assert_eq!(marked_places(&net), vec![("PROGRAM_START".to_string(), 1)]);
}

#[test]
fn spawned_thread_that_is_never_joined() {
    let net = translate(&program_that_spawns_and_joins(false)).unwrap();
    let from_the_end: Vec<(String, String)> = arcs_into_transitions(&net)
        .into_iter()
        .filter(|(place, _)| place == "THREAD_END_0")
        .collect();
    assert!(from_the_end.is_empty());
    assert!(arcs_into_places(&net).contains(&pair("std_thread_spawn_0", "THREAD_START_0")));
}

#[test]
fn labels_of_a_produced_net_are_pairwise_distinct() {
    let net = translate(&program_that_spawns_and_joins(true)).unwrap();
    let places = place_labels(&net);
    let transitions = transition_labels(&net);
    assert_eq!(places.iter().collect::<BTreeSet<_>>().len(), places.len());
    assert_eq!(transitions.iter().collect::<BTreeSet<_>>().len(), transitions.len());
}

#[test]
fn two_calls_of_the_same_foreign_function_have_labels_of_their_own() {
    let program = Program {
        functions: vec![
            function_with_blocks(
                "main",
                vec![
                    block(call(1, Vec::new(), 1, 1)),
                    block(Terminator::Call {
                        callee: 1,
                        args: Vec::new(),
                        destination: local(2),
                        target: Some(2),
                        cleanup: Some(3),
                    }),
                    block(Terminator::Return),
                    block(Terminator::Unwind),
                ],
            ),
            function_without_blocks("std::env::args", true),
        ],
        entry: Some(0),
    };
    let net = translate(&program).unwrap();
    assert_eq!(
        transition_labels(&net),
        vec![
            "main_0_ENTRY",
            "main_0_RETURN",
            "main_0_UNWIND_3",
            "std_env_args_0_CALL",
            "std_env_args_1_CALL",
            "std_env_args_1_CALL_UNWIND",
        ]
    );
    let into_places = arcs_into_places(&net);
    assert!(into_places.contains(&pair("std_env_args_0_CALL", "main_0_BLOCK_1")));
    assert!(into_places.contains(&pair("std_env_args_1_CALL", "main_0_BLOCK_2")));
    assert!(into_places.contains(&pair("std_env_args_1_CALL_UNWIND", "main_0_BLOCK_3")));
    assert!(into_places.contains(&pair("main_0_UNWIND_3", "PROGRAM_PANIC")));
    assert_eq!(net.get_cardinality_places(), 3 + 4);
}

#[test]
fn called_function_lies_between_the_call_and_the_return_block() {
    let program = Program {
        functions: vec![
            function_with_blocks("main", vec![block(call(1, Vec::new(), 1, 1)), block(Terminator::Return)]),
            function_with_blocks("helper", vec![block(Terminator::Return)]),
        ],
        entry: Some(0),
    };
    let net = translate(&program).unwrap();
    assert_eq!(
        place_labels(&net),
        vec![
            "PROGRAM_END",
            "PROGRAM_PANIC",
            "PROGRAM_START",
            "helper_0_BLOCK_0",
            "main_0_BLOCK_0",
            "main_0_BLOCK_1"
        ]
    );
    assert!(arcs_into_transitions(&net).contains(&pair("main_0_BLOCK_0", "helper_0_ENTRY")));
    assert!(arcs_into_places(&net).contains(&pair("helper_0_RETURN", "main_0_BLOCK_1")));
}

#[test]
fn statements_form_a_chain() {
    let program = Program {
        functions: vec![function_with_blocks(
            "main",
            vec![BasicBlock {
                statements: vec![Statement::Other, Statement::Other],
                terminator: Terminator::Return,
            }],
        )],
        entry: Some(0),
    };
    let net = translate(&program).unwrap();
    let into_transitions = arcs_into_transitions(&net);
    let into_places = arcs_into_places(&net);
    assert!(into_transitions.contains(&pair("main_0_BLOCK_0", "main_0_BLOCK_0_STATEMENT_0")));
    assert!(into_places.contains(&pair("main_0_BLOCK_0_STATEMENT_0", "main_0_BLOCK_0_STATEMENT_0_END")));
    assert!(into_transitions.contains(&pair("main_0_BLOCK_0_STATEMENT_0_END", "main_0_BLOCK_0_STATEMENT_1")));
    assert!(into_transitions.contains(&pair("main_0_BLOCK_0_STATEMENT_1_END", "main_0_RETURN")));
    assert_eq!(net.get_cardinality_places(), 3 + 1 + 2);
}

#[test]
fn branch_has_one_transition_for_every_distinct_target() {
    let program = Program {
        functions: vec![function_with_blocks(
            "main",
            vec![
                block(Terminator::Switch { targets: vec![1, 2, 1] }),
                block(Terminator::Return),
                block(Terminator::Unreachable),
            ],
        )],
        entry: Some(0),
    };
    let net = translate(&program).unwrap();
    assert_eq!(
        transition_labels(&net),
        vec!["main_0_ENTRY", "main_0_RETURN", "main_0_SWITCH_0_1", "main_0_SWITCH_0_2"]
    );
    let into_transitions = arcs_into_transitions(&net);
    assert!(into_transitions.contains(&pair("main_0_BLOCK_0", "main_0_SWITCH_0_1")));
    assert!(into_transitions.contains(&pair("main_0_BLOCK_0", "main_0_SWITCH_0_2")));
}

#[test]
fn diverging_call_and_panic() {
    let program = Program {
        functions: vec![
            function_with_blocks(
                "main",
                vec![
                    block(Terminator::Switch { targets: vec![1, 2] }),
                    block(Terminator::Call {
                        callee: 1,
                        args: Vec::new(),
                        destination: local(1),
                        target: None,
                        cleanup: None,
                    }),
                    block(Terminator::Call {
                        callee: 2,
                        args: Vec::new(),
                        destination: local(2),
                        target: None,
                        cleanup: None,
                    }),
                ],
            ),
            function_without_blocks("std::process::exit", true),
            function_without_blocks("core::panicking::panic", true),
        ],
        entry: Some(0),
    };
    let net = translate(&program).unwrap();
    let into_places = arcs_into_places(&net);
    assert!(into_places.contains(&pair("core_panicking_panic_0_PANIC", "PROGRAM_PANIC")));
    assert!(into_places.iter().all(|(transition, _)| transition != "std_process_exit_0_DIVERGING_CALL"));
    assert!(arcs_into_transitions(&net)
        .contains(&pair("main_0_BLOCK_1", "std_process_exit_0_DIVERGING_CALL")));
}

#[test]
fn program_without_entry_function_is_rejected() {
    let program = Program { functions: vec![function_with_blocks("helper", vec![block(Terminator::Return)])], entry: None };
    assert_eq!(translate(&program).err(), Some(TranslationError::NoEntryFunction));
    assert_eq!(
        TranslationError::NoEntryFunction.message(),
        "ERROR: No main function found in the given source code"
    );
}

#[test]
fn program_that_names_a_missing_block_is_rejected() {
    let program = Program {
        functions: vec![function_with_blocks("main", vec![block(Terminator::Goto { target: 7 })])],
        entry: Some(0),
    };
    assert_eq!(translate(&program).err(), Some(TranslationError::MalformedProgram));
    let program = Program { functions: Vec::new(), entry: Some(0) };
    assert_eq!(translate(&program).err(), Some(TranslationError::MalformedProgram));
}

#[test]
fn function_that_calls_itself_is_rejected() {
    let program = Program {
        functions: vec![function_with_blocks(
            "main",
            vec![block(call(0, Vec::new(), 1, 1)), block(Terminator::Return)],
        )],
        entry: Some(0),
    };
    assert_eq!(translate(&program).err(), Some(TranslationError::CallDepthExceeded));
}

#[test]
fn two_returns_in_one_function_collide() {
    let program = Program {
        functions: vec![function_with_blocks(
            "main",
            vec![block(Terminator::Return), block(Terminator::Return)],
        )],
        entry: Some(0),
    };
    assert_eq!(translate(&program).err(), Some(TranslationError::DuplicateLabel));
}

#[test]
fn lock_of_a_location_without_mutex_is_rejected() {
    let program = Program {
        functions: vec![
            function_with_blocks("main", vec![block(call(1, vec![argument(5)], 1, 1)), block(Terminator::Return)]),
            function_without_blocks("std::sync::Mutex::<T>::lock", false),
        ],
        entry: Some(0),
    };
    assert_eq!(translate(&program).err(), Some(TranslationError::UnlinkedLocation));
}

#[test]
fn spawn_without_function_is_rejected() {
    let program = Program {
        functions: vec![
            function_with_blocks("main", vec![block(call(1, vec![argument(2)], 1, 1)), block(Terminator::Return)]),
            function_without_blocks("std::thread::spawn", false),
        ],
        entry: Some(0),
    };
    assert_eq!(translate(&program).err(), Some(TranslationError::UnsupportedCall));
}

#[test]
fn thread_that_expects_more_mutexes_than_it_receives_is_rejected() {
    let spawn = Operand { location: Some(local(2)), function: Some(2) };
    let mut thread_function = function_with_blocks("main::{closure#0}", vec![block(Terminator::Return)]);
    thread_function.mutex_places = vec![Location { local: 1, path: Some(0) }];
    let program = Program {
        functions: vec![
            function_with_blocks("main", vec![block(call(1, vec![spawn], 1, 1)), block(Terminator::Return)]),
            function_without_blocks("std::thread::spawn", false),
            thread_function,
        ],
        entry: Some(0),
    };
    assert_eq!(translate(&program).err(), Some(TranslationError::MissingCapture));
}

#[test]
fn thread_receives_the_mutexes_in_the_order_of_its_captures() {
    let first = Location { local: 1, path: Some(0) };
    let second = Location { local: 1, path: Some(1) };
    let lock = |place: Location, destination: usize, target: usize| {
        block(Terminator::Call {
            callee: 3,
            args: vec![Operand { location: Some(place), function: None }],
            destination: local(destination),
            target: Some(target),
            cleanup: None,
        })
    };
    let mut thread_function =
        function_with_blocks("main::{closure#0}", vec![lock(second, 2, 1), block(Terminator::Return)]);
    thread_function.mutex_places = vec![local(7), first, second];
    let capture = |target: Location, source: usize| Statement::Alias { target, source: local(source) };
    let program = Program {
        functions: vec![
            function_with_blocks(
                "main",
                vec![
                    block(call(2, Vec::new(), 1, 1)),
                    block(call(2, Vec::new(), 2, 2)),
                    BasicBlock {
                        statements: vec![
                            capture(Location { local: 4, path: Some(0) }, 1),
                            capture(Location { local: 4, path: Some(1) }, 2),
                        ],
                        terminator: call(
                            1,
                            vec![Operand { location: Some(local(4)), function: Some(4) }],
                            5,
                            3,
                        ),
                    },
                    block(Terminator::Return),
                ],
            ),
            function_without_blocks("std::thread::spawn", false),
            function_without_blocks("std::sync::Mutex::<T>::new", false),
            function_without_blocks("std::sync::Mutex::<T>::lock", false),
            thread_function,
        ],
        entry: Some(0),
    };
    let net = translate(&program).unwrap();
    let into_transitions = arcs_into_transitions(&net);
    assert!(into_transitions.contains(&pair("MUTEX_1_UNLOCKED", "std_sync_Mutex__T__lock_0")));
    assert!(!into_transitions.contains(&pair("MUTEX_0_UNLOCKED", "std_sync_Mutex__T__lock_0")));
}

#[test]
fn entry_function_with_a_mutex_in_its_first_local_is_translated() {
    let mut program = program_that_returns_at_once();
    program.functions[0].mutex_places =
        vec![Location { local: 1, path: None }, Location { local: 1, path: Some(0) }];
    let net = translate(&program).unwrap();
    assert_eq!(net.get_cardinality_places(), 3 + 1);
    assert_eq!(transition_labels(&net), vec!["main_0_ENTRY", "main_0_RETURN"]);
}

#[test]
fn thread_with_fewer_places_than_mutexes_is_translated() {
    let spawn = Operand { location: Some(local(4)), function: Some(3) };
    let program = Program {
        functions: vec![
            function_with_blocks(
                "main",
                vec![
                    block(call(2, Vec::new(), 1, 1)),
                    BasicBlock {
                        statements: vec![Statement::Alias {
                            target: Location { local: 4, path: Some(0) },
                            source: local(1),
                        }],
                        terminator: call(1, vec![spawn], 5, 2),
                    },
                    block(Terminator::Return),
                ],
            ),
            function_without_blocks("std::thread::spawn", false),
            function_without_blocks("std::sync::Mutex::<T>::new", false),
            function_with_blocks("main::{closure#0}", vec![block(Terminator::Return)]),
        ],
        entry: Some(0),
    };
    assert!(translate(&program).is_ok());
}

#[test]
fn failed_translation_keeps_its_error() {
    let program = Program { functions: Vec::new(), entry: None };
    let mut translator = Translator::new(&program);
    translator.run();
    assert_eq!(translator.get_result().err(), Some(TranslationError::NoEntryFunction));
    assert_eq!(translator.get_result().err(), Some(TranslationError::NoEntryFunction));
}

#[test]
fn produced_net_is_written_in_the_three_formats() {
    let net = translate(&program_that_returns_at_once()).unwrap();
    let dot = net.to_dot_string().unwrap();
    assert!(dot.starts_with("digraph petrinet {"));
    assert!(dot.contains("PROGRAM_START -> main_0_ENTRY;"));
    assert!(dot.contains("main_0_RETURN -> PROGRAM_END;"));
    let lola = net.to_lola_string().unwrap();
    assert!(lola.contains("PROGRAM_START : 1"));
    assert!(lola.contains("TRANSITION main_0_RETURN"));
    let pnml = net.to_pnml_string().unwrap();
    assert!(pnml.contains("main_0_BLOCK_0"));
}
