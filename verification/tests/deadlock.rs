use granite2::control_flow::{BasicBlock, Function, Location, Operand, Program, Statement, Terminator};
use granite2::translator::Translator;
use netcrab::petri_net::PetriNet;
use std::collections::{BTreeMap, BTreeSet};

type Marking = BTreeMap<String, usize>;

fn primitive(name: &str) -> Function {
    Function { name: name.to_string(), foreign: false, blocks: Vec::new(), mutex_places: Vec::new() }
}

fn slot(local: usize) -> Location {
    Location { local, path: None }
}

fn call_primitive(callee: usize, argument: Option<usize>, destination: usize, target: usize) -> BasicBlock {
    let args = match argument {
        Some(local) => vec![Operand { location: Some(slot(local)), function: None }],
        None => Vec::new(),
    };
    BasicBlock {
        statements: Vec::new(),
        terminator: Terminator::Call {
            callee,
            args,
            destination: slot(destination),
            target: Some(target),
            cleanup: None,
        },
    }
}

fn program_with_two_locks(unlock_between: bool) -> Program {
    let mut blocks = vec![call_primitive(1, None, 1, 1), call_primitive(2, Some(1), 2, 2)];
    if unlock_between {
        blocks.push(call_primitive(3, Some(2), 9, 3));
        blocks.push(call_primitive(2, Some(1), 3, 4));
    } else {
        blocks.push(BasicBlock {
            statements: vec![Statement::Alias { target: slot(4), source: slot(1) }],
            terminator: Terminator::Goto { target: 3 },
        });
        blocks.push(call_primitive(2, Some(4), 3, 4));
    }
    blocks.push(BasicBlock { statements: Vec::new(), terminator: Terminator::Return });
    Program {
        functions: vec![
            Function { name: "main".to_string(), foreign: false, blocks, mutex_places: Vec::new() },
            primitive("std::sync::Mutex::<T>::new"),
            primitive("std::sync::Mutex::<T>::lock"),
            primitive("std::mem::drop"),
        ],
        entry: Some(0),
    }
}

fn net_of(program: &Program) -> PetriNet {
    let mut translator = Translator::new(program);
    translator.run();
    translator.get_result().unwrap().into_petri_net()
}

fn inputs_of(net: &PetriNet, label: &str) -> BTreeSet<String> {
    net.transitions_iter()
        .filter(|(reference, _)| reference.label() == label)
        .flat_map(|(_, transition)| transition.get_preset().iter().map(|place| place.label().clone()))
        .collect()
}

fn fired_transitions(net: &PetriNet) -> BTreeSet<String> {
    let mut start = Marking::new();
    for (reference, place) in net.places_iter() {
        start.insert(reference.label().clone(), place.marking());
    }
    let mut seen: BTreeSet<Marking> = BTreeSet::new();
    let mut open = vec![start];
    let mut fired = BTreeSet::new();
    while let Some(marking) = open.pop() {
        if !seen.insert(marking.clone()) {
            continue;
        }
        assert!(seen.len() < 10_000);
        for (reference, transition) in net.transitions_iter() {
            if transition.get_preset().iter().all(|place| marking[place.label()] >= 1) {
                let mut next = marking.clone();
                for place in transition.get_preset() {
                    *next.get_mut(place.label()).unwrap() -= 1;
                }
                for place in transition.get_postset() {
                    *next.get_mut(place.label()).unwrap() += 1;
                }
                fired.insert(reference.label().clone());
                open.push(next);
            }
        }
    }
    fired
}

#[test]
fn lock_after_new_takes_from_the_unlocked_place_of_the_mutex() {
    let net = net_of(&program_with_two_locks(false));
    assert!(inputs_of(&net, "std_sync_Mutex__T__lock_0").contains("MUTEX_0_UNLOCKED"));
    assert!(inputs_of(&net, "std_sync_Mutex__T__lock_0").contains("main_0_BLOCK_1"));
    assert_eq!(inputs_of(&net, "std_sync_Mutex__T__new_0"), BTreeSet::from(["main_0_BLOCK_0".to_string()]));
}

#[test]
fn second_lock_without_unlock_can_never_fire() {
    let net = net_of(&program_with_two_locks(false));
    assert!(inputs_of(&net, "std_sync_Mutex__T__lock_1").contains("MUTEX_0_UNLOCKED"));
    let fired = fired_transitions(&net);
    assert!(fired.contains("std_sync_Mutex__T__new_0"));
    assert!(fired.contains("std_sync_Mutex__T__lock_0"));
    assert!(fired.contains("main_0_GOTO_2"));
    assert!(!fired.contains("std_sync_Mutex__T__lock_1"));
    assert!(!fired.contains("main_0_RETURN"));
}

#[test]
fn second_lock_after_unlock_can_fire() {
    let net = net_of(&program_with_two_locks(true));
    let fired = fired_transitions(&net);
    assert!(fired.contains("std_sync_Mutex__T__lock_0"));
    assert!(fired.contains("std_mem_drop_0_CALL"));
    assert!(fired.contains("std_sync_Mutex__T__lock_1"));
    assert!(fired.contains("main_0_RETURN"));
}

fn call_with(callee: usize, args: Vec<Operand>, destination: usize, target: usize) -> Terminator {
    Terminator::Call { callee, args, destination: slot(destination), target: Some(target), cleanup: None }
}

fn from(local: usize) -> Operand {
    Operand { location: Some(slot(local)), function: None }
}

fn program_with_shared_mutex() -> Program {
    let captured = Location { local: 4, path: Some(0) };
    let received = Location { local: 1, path: Some(0) };
    let just = |terminator: Terminator| BasicBlock { statements: Vec::new(), terminator };
    let main = Function {
        name: "main".to_string(),
        foreign: false,
        blocks: vec![
            just(call_with(1, Vec::new(), 1, 1)),
            just(call_with(4, vec![from(1)], 2, 2)),
            just(call_with(5, vec![from(2)], 3, 3)),
            BasicBlock {
                statements: vec![Statement::Other, Statement::Alias { target: captured, source: slot(3) }],
                terminator: call_with(7, vec![Operand { location: Some(slot(4)), function: Some(9) }], 5, 4),
            },
            just(call_with(6, vec![from(2)], 6, 5)),
            just(call_with(2, vec![from(6)], 7, 6)),
            just(call_with(3, vec![from(7)], 10, 7)),
            just(call_with(8, vec![from(5)], 8, 8)),
            just(Terminator::Return),
        ],
        mutex_places: Vec::new(),
    };
    let closure = Function {
        name: "main::{closure#0}".to_string(),
        foreign: false,
        blocks: vec![
            just(call_with(6, vec![Operand { location: Some(received), function: None }], 2, 1)),
            just(call_with(2, vec![from(2)], 3, 2)),
            just(call_with(3, vec![from(3)], 4, 3)),
            just(Terminator::Return),
        ],
        mutex_places: vec![received],
    };
    Program {
        functions: vec![
            main,
            primitive("std::sync::Mutex::<T>::new"),
            primitive("std::sync::Mutex::<T>::lock"),
            primitive("std::mem::drop"),
            primitive("std::sync::Arc::<T>::new"),
            primitive("std::clone::Clone::clone"),
            primitive("std::ops::Deref::deref"),
            primitive("std::thread::spawn"),
            primitive("std::thread::JoinHandle::<T>::join"),
            closure,
        ],
        entry: Some(0),
    }
}

#[test]
fn mutex_shared_with_a_thread_is_locked_by_both() {
    let net = net_of(&program_with_shared_mutex());
    assert!(inputs_of(&net, "std_sync_Mutex__T__lock_0").contains("MUTEX_0_UNLOCKED"));
    assert!(inputs_of(&net, "std_sync_Mutex__T__lock_1").contains("MUTEX_0_UNLOCKED"));
    assert!(inputs_of(&net, "std_sync_Mutex__T__lock_1").contains("main__closure_0__0_BLOCK_1"));
    assert!(inputs_of(&net, "std_mem_drop_0_CALL").contains("MUTEX_0_LOCKED"));
    assert!(inputs_of(&net, "std_mem_drop_1_CALL").contains("MUTEX_0_LOCKED"));
    assert!(inputs_of(&net, "std_thread_JoinHandle__T__join_0").contains("THREAD_END_0"));
    assert_eq!(net.places_iter().filter(|(place, _)| place.label().starts_with("MUTEX_")).count(), 2);
    let fired = fired_transitions(&net);
    let all: BTreeSet<String> =
        net.transitions_iter().map(|(transition, _)| transition.label().clone()).collect();
    assert_eq!(fired, all);
}

#[test]
fn moved_mutex_is_out_of_reach_of_the_spawning_function() {
    let mut program = program_with_shared_mutex();
    program.functions[0].blocks[4] = BasicBlock {
        statements: Vec::new(),
        terminator: call_with(2, vec![Operand { location: Some(Location { local: 4, path: Some(0) }), function: None }], 6, 5),
    };
    let mut translator = Translator::new(&program);
    translator.run();
    assert_eq!(
        translator.get_result().err(),
        Some(granite2::error_handling::TranslationError::UnlinkedLocation)
    );
}
