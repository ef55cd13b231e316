use granite2::control_flow::Location;
use granite2::translator::mir_function::memory::{LinkOutcome, Memory};
use granite2::translator::sync::condvar_manager::CondvarRef;
use granite2::translator::sync::mutex_manager::MutexRef;
use granite2::translator::sync::thread_manager::ThreadRef;

fn whole(local: usize) -> Location {
    Location { local, path: None }
}

fn part(local: usize, field: usize) -> Location {
    Location { local, path: Some(field) }
}

#[test]
fn linked_place_gives_its_handle() {
    let mut memory = Memory::new();
    assert_eq!(memory.link_place_to_mutex(whole(1), MutexRef(4)), LinkOutcome::Linked);
    assert_eq!(memory.link_place_to_lock_guard(whole(2), MutexRef(5)), LinkOutcome::Linked);
    assert_eq!(memory.link_place_to_join_handle(whole(3), ThreadRef(6)), LinkOutcome::Linked);
    assert_eq!(memory.link_place_to_condvar(whole(4), CondvarRef(7)), LinkOutcome::Linked);
    assert_eq!(memory.get_linked_mutex(&whole(1)), MutexRef(4));
    assert_eq!(memory.get_linked_lock_guard(&whole(2)), MutexRef(5));
    assert_eq!(memory.get_linked_join_handle(&whole(3)), ThreadRef(6));
    assert_eq!(memory.get_linked_condvar(&whole(4)), CondvarRef(7));
}

#[test]
fn the_four_tables_are_apart() {
    let mut memory = Memory::new();
    memory.link_place_to_mutex(whole(1), MutexRef(0));
    assert!(memory.is_linked_to_mutex(whole(1)));
    assert!(!memory.is_linked_to_lock_guard(whole(1)));
    assert!(!memory.is_linked_to_join_handle(whole(1)));
    assert!(!memory.is_linked_to_condvar(whole(1)));
    assert!(!memory.is_linked_to_mutex(whole(2)));
    assert!(!memory.is_linked_to_mutex(part(1, 0)));
}

#[test]
fn linking_again_replaces_the_handle() {
    let mut memory = Memory::new();
    assert_eq!(memory.link_place_to_mutex(whole(1), MutexRef(0)), LinkOutcome::Linked);
    assert_eq!(memory.link_place_to_mutex(whole(1), MutexRef(0)), LinkOutcome::LinkedAgain);
    assert_eq!(memory.link_place_to_mutex(whole(1), MutexRef(1)), LinkOutcome::Relinked);
    assert_eq!(memory.get_linked_mutex(&whole(1)), MutexRef(1));
    assert_eq!(memory.find_mutexes_linked_to_place(whole(1)), vec![MutexRef(1)]);
}

#[test]
fn alias_points_to_the_same_handle() {
    let mut memory = Memory::new();
    memory.link_place_to_mutex(whole(1), MutexRef(3));
    memory.link_place_to_same_mutex(whole(2), whole(1));
    assert_eq!(memory.get_linked_mutex(&whole(2)), MutexRef(3));
    assert_eq!(memory.get_linked_mutex(&whole(1)), MutexRef(3));
    memory.link_place_to_lock_guard(whole(5), MutexRef(8));
    memory.link_place_to_same_lock_guard(whole(6), whole(5));
    assert_eq!(memory.get_linked_lock_guard(&whole(6)), MutexRef(8));
    memory.link_place_to_join_handle(whole(7), ThreadRef(1));
    memory.link_place_to_same_join_handle(whole(8), whole(7));
    assert_eq!(memory.get_linked_join_handle(&whole(8)), ThreadRef(1));
    memory.link_place_to_condvar(whole(9), CondvarRef(2));
    memory.link_place_to_same_condvar(whole(10), whole(9));
    assert_eq!(memory.get_linked_condvar(&whole(10)), CondvarRef(2));
}

#[test]
fn alias_copies_every_kind_of_handle() {
    let mut memory = Memory::new();
    memory.link_place_to_mutex(whole(1), MutexRef(3));
    memory.link_place_to_condvar(whole(1), CondvarRef(4));
    memory.link_alias(whole(2), whole(1));
    assert_eq!(memory.get_linked_mutex(&whole(2)), MutexRef(3));
    assert_eq!(memory.get_linked_condvar(&whole(2)), CondvarRef(4));
    assert!(!memory.is_linked_to_lock_guard(whole(2)));
    assert!(!memory.is_linked_to_join_handle(whole(2)));
    memory.link_alias(whole(3), whole(9));
    assert!(!memory.is_linked_to_mutex(whole(3)));
}

#[test]
fn handles_in_one_local_come_in_the_order_of_linking() {
    let mut memory = Memory::new();
    memory.link_place_to_mutex(part(1, 1), MutexRef(10));
    memory.link_place_to_mutex(part(2, 0), MutexRef(11));
    memory.link_place_to_mutex(part(1, 0), MutexRef(12));
    memory.link_place_to_mutex(whole(1), MutexRef(13));
    assert_eq!(
        memory.find_mutexes_linked_to_place(whole(1)),
        vec![MutexRef(10), MutexRef(12), MutexRef(13)]
    );
    assert_eq!(memory.find_mutexes_linked_to_place(part(2, 5)), vec![MutexRef(11)]);
    assert_eq!(memory.find_mutexes_linked_to_place(whole(3)), Vec::new());
    memory.link_place_to_condvar(part(4, 1), CondvarRef(1));
    memory.link_place_to_condvar(part(4, 0), CondvarRef(0));
    assert_eq!(memory.find_condvars_linked_to_place(whole(4)), vec![CondvarRef(1), CondvarRef(0)]);
}

#[test]
fn moved_mutexes_leave_the_memory() {
    let mut memory = Memory::new();
    memory.link_place_to_mutex(part(1, 1), MutexRef(10));
    memory.link_place_to_mutex(part(2, 0), MutexRef(11));
    memory.link_place_to_mutex(part(1, 0), MutexRef(12));
    memory.unlink_mutexes_linked_to_place(whole(1));
    assert!(!memory.is_linked_to_mutex(part(1, 1)));
    assert!(!memory.is_linked_to_mutex(part(1, 0)));
    assert_eq!(memory.get_linked_mutex(&part(2, 0)), MutexRef(11));
    assert_eq!(memory.find_mutexes_linked_to_place(whole(1)), Vec::new());
}
