use granite2::control_flow::{Location, Operand};
use granite2::error_handling::TranslationError;
use granite2::petri_net_interface::{Net, PlaceId, TransitionId};
use granite2::translator::function_call::FunctionPlaces;
use granite2::translator::mir_function::memory::Memory;
use granite2::translator::sync::arc_manager::ArcManager;
use granite2::translator::sync::condvar_manager::{CondvarManager, CondvarRef};
use granite2::translator::sync::mutex_manager::{MutexManager, MutexRef};
use granite2::translator::sync::thread::{closure_captures, Thread};
use granite2::translator::sync::thread_manager::{ThreadManager, ThreadRef};
use granite2::translator::sync::{is_mutex_lock, is_mutex_new, is_thread_join, is_thread_spawn};
use granite2::translator::thread::thread_span::ThreadSpan;
use std::collections::BTreeSet;

const NEW: &str = "std::sync::Mutex::<T>::new";
const LOCK: &str = "std::sync::Mutex::<T>::lock";

fn at(local: usize) -> Location {
    Location { local, path: None }
}

fn read(local: usize) -> Operand {
    Operand { location: Some(at(local)), function: None }
}

fn net_with_two_places() -> (Net, FunctionPlaces) {
    let mut net = Net::new();
    let start_place = net.add_place("A");
    let end_place = net.add_place("B");
    (net, FunctionPlaces { start_place, end_place, cleanup_place: None })
}

fn all_arcs(net: Net) -> (BTreeSet<(String, String)>, BTreeSet<(String, String)>) {
    let inner = net.into_petri_net();
    let into_transitions = inner
        .find_arcs_place_transition()
        .iter()
        .map(|(place, transition)| (place.label().clone(), transition.label().clone()))
        .collect();
    let into_places = inner
        .find_arcs_transition_place()
        .iter()
        .map(|(transition, place)| (transition.label().clone(), place.label().clone()))
        .collect();
    (into_transitions, into_places)
}

fn link(a: &str, b: &str) -> (String, String) {
    (a.to_string(), b.to_string())
}

#[test]
fn functions_of_primitives_are_known_by_name() {
    assert!(is_mutex_new(NEW));
    assert!(!is_mutex_new(LOCK));
    assert!(is_mutex_lock(LOCK));
    assert!(!is_mutex_lock(NEW));
    assert!(is_thread_spawn("std::thread::spawn"));
    assert!(!is_thread_spawn("std::thread::spawn2"));
    assert!(is_thread_join("std::thread::JoinHandle::<T>::join"));
    assert!(!is_thread_join("std::thread::spawn"));
}

#[test]
fn new_mutex_is_freed_by_the_transition_that_creates_it() {
    let (mut net, places) = net_with_two_places();
    let mut manager = MutexManager::new();
    let mut memory = Memory::new();
    let transition = manager.translate_function_call(NEW, &places, &mut net).unwrap();
    assert_eq!(net.transition_label(&transition), "std_sync_Mutex__T__new_0");
    manager
        .translate_function_side_effects(NEW, &Vec::new(), at(1), &transition, &mut net, &mut memory)
        .unwrap();
    assert_eq!(memory.get_linked_mutex(&at(1)), MutexRef(0));
    assert_eq!(net.find_place("MUTEX_0_UNLOCKED"), Some(PlaceId { index: 2 }));
    assert_eq!(net.find_place("MUTEX_0_LOCKED"), Some(PlaceId { index: 3 }));
    let (into_transitions, into_places) = all_arcs(net);
    assert!(into_places.contains(&link("std_sync_Mutex__T__new_0", "MUTEX_0_UNLOCKED")));
    assert!(into_places.contains(&link("std_sync_Mutex__T__new_0", "B")));
    assert_eq!(into_transitions.len(), 1);
    assert_eq!(into_places.len(), 2);
}

#[test]
fn lock_takes_the_token_of_the_free_mutex() {
    let (mut net, places) = net_with_two_places();
    let mut manager = MutexManager::new();
    let mut memory = Memory::new();
    let created = manager.translate_function_call(NEW, &places, &mut net).unwrap();
    manager
        .translate_function_side_effects(NEW, &Vec::new(), at(1), &created, &mut net, &mut memory)
        .unwrap();
    let locked = manager.translate_function_call(LOCK, &places, &mut net).unwrap();
    assert_eq!(net.transition_label(&locked), "std_sync_Mutex__T__lock_0");
    manager
        .translate_function_side_effects(LOCK, &vec![read(1)], at(2), &locked, &mut net, &mut memory)
        .unwrap();
    assert_eq!(memory.get_linked_lock_guard(&at(2)), MutexRef(0));
    let again = manager.translate_function_call(LOCK, &places, &mut net).unwrap();
    assert_eq!(net.transition_label(&again), "std_sync_Mutex__T__lock_1");
    let (into_transitions, into_places) = all_arcs(net);
    assert!(into_transitions.contains(&link("MUTEX_0_UNLOCKED", "std_sync_Mutex__T__lock_0")));
    assert!(into_places.contains(&link("std_sync_Mutex__T__lock_0", "MUTEX_0_LOCKED")));
    assert!(!into_places.contains(&link("std_sync_Mutex__T__lock_0", "MUTEX_0_UNLOCKED")));
}

#[test]
fn lock_needs_a_linked_mutex() {
    let (mut net, places) = net_with_two_places();
    let mut manager = MutexManager::new();
    let mut memory = Memory::new();
    let transition = manager.translate_function_call(LOCK, &places, &mut net).unwrap();
    assert_eq!(
        manager.translate_function_side_effects(LOCK, &Vec::new(), at(2), &transition, &mut net, &mut memory),
        Err(TranslationError::UnsupportedCall)
    );
    assert_eq!(
        manager.translate_function_side_effects(LOCK, &vec![read(1)], at(2), &transition, &mut net, &mut memory),
        Err(TranslationError::UnlinkedLocation)
    );
    memory.link_place_to_mutex(at(1), MutexRef(9));
    assert_eq!(
        manager.translate_function_side_effects(LOCK, &vec![read(1)], at(2), &transition, &mut net, &mut memory),
        Err(TranslationError::UnlinkedLocation)
    );
    assert_eq!(
        manager.translate_function_side_effects("other", &vec![read(1)], at(2), &transition, &mut net, &mut memory),
        Ok(())
    );
    assert!(!memory.is_linked_to_lock_guard(at(2)));
}

#[test]
fn second_mutex_with_taken_labels_fails() {
    let mut net = Net::new();
    net.add_place("MUTEX_1_LOCKED");
    let mut manager = MutexManager::new();
    assert_eq!(manager.add_mutex(&mut net), Ok(MutexRef(0)));
    assert_eq!(manager.get_mutex(&MutexRef(0)).unwrap().index, 0);
    assert_eq!(manager.get_mutex(&MutexRef(1)), None);
    assert_eq!(manager.add_mutex(&mut net), Err(TranslationError::DuplicateLabel));
}

#[test]
fn end_of_a_guard_unlocks_the_mutex() {
    let (mut net, places) = net_with_two_places();
    let mut manager = MutexManager::new();
    let mut memory = Memory::new();
    let mutex_ref = manager.add_mutex(&mut net).unwrap();
    let locked = net.add_transition("LOCK");
    manager.add_lock_guard(&mutex_ref, &locked, &mut net);
    memory.link_place_to_lock_guard(at(2), mutex_ref);
    let dropped = net.connect_places(&places.start_place, &places.end_place, "DROP").unwrap();
    assert_eq!(manager.translate_drop_side_effects(&vec![read(2)], &dropped, &mut net, &memory), Ok(()));
    let other = net.connect_places(&places.start_place, &places.end_place, "OTHER").unwrap();
    assert_eq!(manager.translate_drop_side_effects(&vec![read(3)], &other, &mut net, &memory), Ok(()));
    assert_eq!(manager.translate_drop_side_effects(&Vec::new(), &other, &mut net, &memory), Ok(()));
    let (into_transitions, into_places) = all_arcs(net);
    assert!(into_transitions.contains(&link("MUTEX_0_LOCKED", "DROP")));
    assert!(into_places.contains(&link("DROP", "MUTEX_0_UNLOCKED")));
    assert!(!into_transitions.contains(&link("MUTEX_0_LOCKED", "OTHER")));
    assert!(!into_places.contains(&link("OTHER", "MUTEX_0_UNLOCKED")));
}

#[test]
fn joined_thread_span_ends_in_the_join_transition() {
    let mut net = Net::new();
    let spawn = net.add_transition("SPAWN");
    let join = net.add_transition("JOIN");
    let mut span = ThreadSpan::new(spawn, 7, 3);
    assert_eq!(span.join_transition, None);
    span.set_join_transition(join);
    assert_eq!(span.join_transition, Some(join));
    assert_eq!(
        span.prepare_for_translation(&mut net),
        Ok((7, PlaceId { index: 0 }, PlaceId { index: 1 }))
    );
    assert_eq!(net.place_label(&PlaceId { index: 0 }), "THREAD_START_3");
    assert_eq!(net.place_label(&PlaceId { index: 1 }), "THREAD_END_3");
    let (into_transitions, into_places) = all_arcs(net);
    assert_eq!(into_transitions, BTreeSet::from([link("THREAD_END_3", "JOIN")]));
    assert_eq!(into_places, BTreeSet::from([link("SPAWN", "THREAD_START_3")]));
}

#[test]
fn detached_thread_span_ends_nowhere() {
    let mut net = Net::new();
    let spawn = net.add_transition("SPAWN");
    let span = ThreadSpan::new(spawn, 7, 0);
    assert!(span.prepare_for_translation(&mut net).is_ok());
    assert_eq!(span.prepare_for_translation(&mut net), Err(TranslationError::DuplicateLabel));
    let (into_transitions, into_places) = all_arcs(net);
    assert!(into_transitions.is_empty());
    assert_eq!(into_places, BTreeSet::from([link("SPAWN", "THREAD_START_0")]));
}

#[test]
fn thread_hands_its_mutexes_to_its_function() {
    let mut thread =
        Thread::new(TransitionId { index: 0 }, 1, vec![MutexRef(4), MutexRef(5), MutexRef(6)], 0);
    thread.set_join_transition(TransitionId { index: 1 });
    assert_eq!(thread.span.join_transition, Some(TransitionId { index: 1 }));
    let mut memory = Memory::new();
    memory.link_place_to_mutex(at(9), MutexRef(1));
    let first = Location { local: 1, path: Some(0) };
    let second = Location { local: 1, path: Some(1) };
    thread.move_mutexes(&mut memory, &vec![first, second]);
    assert_eq!(memory.get_linked_mutex(&first), MutexRef(4));
    assert_eq!(memory.get_linked_mutex(&second), MutexRef(5));
    assert_eq!(memory.get_linked_mutex(&at(9)), MutexRef(1));
    assert_eq!(thread.mutexes, vec![MutexRef(6)]);
    thread.move_mutexes(&mut memory, &Vec::new());
    assert_eq!(thread.mutexes, vec![MutexRef(6)]);
}

#[test]
fn only_places_in_the_captures_of_the_closure_receive_a_mutex() {
    let inside = Location { local: 1, path: Some(3) };
    let places = vec![at(2), inside, Location { local: 0, path: Some(3) }, at(1)];
    assert_eq!(closure_captures(&places), vec![inside, at(1)]);
    assert_eq!(closure_captures(&Vec::new()), Vec::new());
    let mut thread = Thread::new(TransitionId { index: 0 }, 1, vec![MutexRef(7), MutexRef(8)], 0);
    let mut memory = Memory::new();
    thread.move_mutexes(&mut memory, &places);
    assert_eq!(memory.get_linked_mutex(&inside), MutexRef(7));
    assert_eq!(memory.get_linked_mutex(&at(1)), MutexRef(8));
    assert!(!memory.is_linked_to_mutex(at(2)));
    assert!(thread.mutexes.is_empty());
}

#[test]
fn thread_is_prepared_like_its_span() {
    let mut net = Net::new();
    let spawn = net.add_transition("SPAWN");
    let thread = Thread::new(spawn, 2, Vec::new(), 1);
    assert_eq!(
        thread.prepare_for_translation(&mut net),
        Ok((2, PlaceId { index: 0 }, PlaceId { index: 1 }))
    );
    assert_eq!(net.find_place("THREAD_START_1"), Some(PlaceId { index: 0 }));
    assert_eq!(net.find_place("THREAD_END_1"), Some(PlaceId { index: 1 }));
}

#[test]
fn spawned_thread_takes_the_mutexes_of_the_closure() {
    let (mut net, places) = net_with_two_places();
    let mut manager = ThreadManager::new();
    let mut memory = Memory::new();
    memory.link_place_to_mutex(Location { local: 5, path: Some(0) }, MutexRef(1));
    memory.link_place_to_mutex(at(6), MutexRef(2));
    memory.link_place_to_mutex(Location { local: 5, path: Some(1) }, MutexRef(3));
    let transition = manager.translate_call_spawn(&places, &mut net).unwrap();
    assert_eq!(net.transition_label(&transition), "std_thread_spawn_0");
    let closure = Operand { location: Some(at(5)), function: Some(9) };
    assert_eq!(manager.translate_side_effects_spawn(&vec![closure], at(7), transition, &mut memory), Ok(()));
    assert_eq!(memory.get_linked_join_handle(&at(7)), ThreadRef(0));
    assert!(!memory.is_linked_to_mutex(Location { local: 5, path: Some(0) }));
    assert!(memory.is_linked_to_mutex(at(6)));
    let thread = manager.pop_thread().unwrap();
    assert_eq!(thread.span, ThreadSpan::new(transition, 9, 0));
    assert_eq!(thread.mutexes, vec![MutexRef(1), MutexRef(3)]);
    assert!(manager.pop_thread().is_none());
}

#[test]
fn spawn_needs_a_function() {
    let mut manager = ThreadManager::new();
    let mut memory = Memory::new();
    let transition = TransitionId { index: 0 };
    assert_eq!(
        manager.translate_side_effects_spawn(&Vec::new(), at(7), transition, &mut memory),
        Err(TranslationError::UnsupportedCall)
    );
    assert_eq!(
        manager.translate_side_effects_spawn(&vec![read(1)], at(7), transition, &mut memory),
        Err(TranslationError::UnsupportedCall)
    );
    let function = Operand { location: None, function: Some(2) };
    assert_eq!(manager.translate_side_effects_spawn(&vec![function], at(7), transition, &mut memory), Ok(()));
    assert_eq!(manager.pop_thread().unwrap().mutexes, Vec::new());
}

#[test]
fn join_is_recorded_in_the_thread() {
    let (mut net, places) = net_with_two_places();
    let mut manager = ThreadManager::new();
    let mut memory = Memory::new();
    let spawn = manager.translate_call_spawn(&places, &mut net).unwrap();
    assert_eq!(manager.add_thread(spawn, 4, Vec::new()), ThreadRef(0));
    assert_eq!(manager.add_thread(spawn, 5, Vec::new()), ThreadRef(1));
    memory.link_place_to_join_handle(at(1), ThreadRef(1));
    let join = manager.translate_call_join(&places, &mut net).unwrap();
    assert_eq!(net.transition_label(&join), "std_thread_JoinHandle__T__join_0");
    assert_eq!(manager.translate_side_effects_join(&vec![read(1)], join, &memory), Ok(()));
    assert_eq!(
        manager.translate_side_effects_join(&vec![read(2)], join, &memory),
        Err(TranslationError::UnlinkedLocation)
    );
    assert_eq!(
        manager.translate_side_effects_join(&Vec::new(), join, &memory),
        Err(TranslationError::UnsupportedCall)
    );
    let next = manager.translate_call_join(&places, &mut net).unwrap();
    assert_eq!(net.transition_label(&next), "std_thread_JoinHandle__T__join_1");
    manager.set_join_transition(&ThreadRef(0), next);
    let first = manager.pop_thread().unwrap();
    let second = manager.pop_thread().unwrap();
    assert_eq!(first.span.thread_function_def_id, 4);
    assert_eq!(first.span.join_transition, Some(next));
    assert_eq!(second.span.thread_function_def_id, 5);
    assert_eq!(second.span.join_transition, Some(join));
    assert_eq!(second.span.index, 1);
}

#[test]
fn wait_parks_and_resumes_around_the_condition_variable() {
    let (mut net, places) = net_with_two_places();
    let mut mutexes = MutexManager::new();
    let mut condvars = CondvarManager::new();
    let mut memory = Memory::new();
    let mutex_ref = mutexes.add_mutex(&mut net).unwrap();
    memory.link_place_to_lock_guard(at(2), mutex_ref);
    let created = condvars.translate_call_new(&places, &mut net).unwrap();
    assert_eq!(net.transition_label(&created), "std_sync_Condvar_new_0");
    assert_eq!(condvars.translate_side_effects_new(at(1), &mut net, &mut memory), Ok(()));
    assert_eq!(memory.get_linked_condvar(&at(1)), CondvarRef(0));
    let (park, resume) = condvars.translate_call_wait(&places, &mut net).unwrap();
    assert_eq!(net.transition_label(&park), "std_sync_Condvar_wait_0");
    assert_eq!(net.transition_label(&resume), "std_sync_Condvar_wait_0_RESUME");
    assert_eq!(
        condvars.translate_side_effects_wait(&vec![read(1)], at(3), &park, &resume, &mutexes, &mut net, &mut memory),
        Err(TranslationError::UnsupportedCall)
    );
    assert_eq!(
        condvars.translate_side_effects_wait(&vec![read(1), read(9)], at(3), &park, &resume, &mutexes, &mut net, &mut memory),
        Err(TranslationError::UnlinkedLocation)
    );
    assert_eq!(
        condvars.translate_side_effects_wait(&vec![read(1), read(2)], at(3), &park, &resume, &mutexes, &mut net, &mut memory),
        Ok(())
    );
    assert_eq!(memory.get_linked_lock_guard(&at(3)), mutex_ref);
    let notified = condvars.translate_call_notify(&places, &mut net).unwrap();
    assert_eq!(net.transition_label(&notified), "std_sync_Condvar_notify_one_0");
    assert_eq!(condvars.translate_side_effects_notify(&vec![read(1)], &notified, &mut net, &memory), Ok(()));
    assert_eq!(
        condvars.translate_side_effects_notify(&vec![read(8)], &notified, &mut net, &memory),
        Err(TranslationError::UnlinkedLocation)
    );
    let (into_transitions, into_places) = all_arcs(net);
    let park = "std_sync_Condvar_wait_0";
    let resume = "std_sync_Condvar_wait_0_RESUME";
    for arc in [link("A", park), link("MUTEX_0_LOCKED", park), link("CONDVAR_0_WAIT", resume),
        link("CONDVAR_0_NOTIFY", resume), link("MUTEX_0_UNLOCKED", resume)] {
        assert!(into_transitions.contains(&arc));
    }
    for arc in [link(park, "CONDVAR_0_WAIT"), link(park, "MUTEX_0_UNLOCKED"), link(resume, "B"),
        link(resume, "MUTEX_0_LOCKED"), link("std_sync_Condvar_notify_one_0", "CONDVAR_0_NOTIFY")] {
        assert!(into_places.contains(&arc));
    }
}

#[test]
fn calls_of_the_wrapper_are_counted_apart() {
    let (mut net, places) = net_with_two_places();
    let mut manager = ArcManager::new();
    let first = manager.translate_call_new(&places, &mut net).unwrap();
    let second = manager.translate_call_new(&places, &mut net).unwrap();
    let cloned = manager.translate_call_clone(&places, &mut net).unwrap();
    let dereferenced = manager.translate_call_deref(&places, &mut net).unwrap();
    assert_eq!(net.transition_label(&first), "std_sync_Arc__T__new_0");
    assert_eq!(net.transition_label(&second), "std_sync_Arc__T__new_1");
    assert_eq!(net.transition_label(&cloned), "std_clone_Clone_clone_0");
    assert_eq!(net.transition_label(&dereferenced), "std_ops_Deref_deref_0");
    let (into_transitions, into_places) = all_arcs(net);
    assert_eq!(into_transitions.len(), 4);
    assert_eq!(into_places.len(), 4);
    assert!(into_transitions.contains(&link("A", "std_clone_Clone_clone_0")));
    assert!(into_places.contains(&link("std_ops_Deref_deref_0", "B")));
}

#[test]
fn thread_that_has_been_handed_out_is_not_joined_any_more() {
    let (mut net, places) = net_with_two_places();
    let mut manager = ThreadManager::new();
    let mut memory = Memory::new();
    let spawn = manager.translate_call_spawn(&places, &mut net).unwrap();
    let function = Operand { location: None, function: Some(2) };
    assert_eq!(manager.translate_side_effects_spawn(&vec![function], at(1), spawn, &mut memory), Ok(()));
    assert!(manager.pop_thread().is_some());
    let join = manager.translate_call_join(&places, &mut net).unwrap();
    assert_eq!(
        manager.translate_side_effects_join(&vec![read(1)], join, &memory),
        Err(TranslationError::UnlinkedLocation)
    );
}

#[test]
fn functions_of_primitives_are_told_from_others() {
    for name in [
        "std::sync::Mutex::<T>::new",
        "std::sync::Mutex::<T>::lock",
        "std::mem::drop",
        "std::thread::spawn",
        "std::thread::JoinHandle::<T>::join",
        "std::sync::Condvar::new",
        "std::sync::Condvar::wait",
        "std::sync::Condvar::notify_one",
        "std::sync::Arc::<T>::new",
        "std::clone::Clone::clone",
        "std::ops::Deref::deref",
    ] {
        assert!(granite2::translator::sync::is_primitive(name));
    }
    assert!(!granite2::translator::sync::is_primitive("main"));
    assert!(!granite2::translator::sync::is_primitive("std::sync::Mutex::<T>::try_lock"));
}
