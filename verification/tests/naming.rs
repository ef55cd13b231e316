use granite2::naming::function::{
    diverging_call_transition_label, foreign_call_transition_label,
    foreign_call_unwind_transition_label, panic_transition_label, return_transition_label,
};
use granite2::naming::thread::{end_place_label, function_transition_label, start_place_label};
use granite2::naming::{decimal, sanitize};

#[test]
fn decimal_writes_numbers_without_leading_zeros() {
    assert_eq!(decimal(0), "0");
    assert_eq!(decimal(7), "7");
    assert_eq!(decimal(10), "10");
    assert_eq!(decimal(12345), "12345");
    assert_eq!(decimal(usize::MAX), usize::MAX.to_string());
}

#[test]
fn sanitize_replaces_double_colons_by_one_underscore() {
    assert_eq!(sanitize("std::env::args"), "std_env_args");
    assert_eq!(sanitize("main"), "main");
    assert_eq!(sanitize(""), "");
}

#[test]
fn sanitize_replaces_other_characters_one_by_one() {
    assert_eq!(sanitize("std::sync::Mutex::<T>::new"), "std_sync_Mutex__T__new");
    assert_eq!(sanitize("a:b"), "a_b");
    assert_eq!(sanitize("{closure#0}"), "_closure_0_");
    assert_eq!(sanitize("é"), "_");
}

#[test]
fn function_labels_end_with_their_kind() {
    assert_eq!(return_transition_label("main"), "main_RETURN");
    assert_eq!(foreign_call_transition_label("std::env::args"), "std_env_args_CALL");
    assert_eq!(
        foreign_call_unwind_transition_label("std::env::args"),
        "std_env_args_CALL_UNWIND"
    );
    assert_eq!(diverging_call_transition_label("std::process::exit"), "std_process_exit_DIVERGING_CALL");
    assert_eq!(panic_transition_label("core::panicking::panic"), "core_panicking_panic_PANIC");
}

#[test]
fn thread_labels_carry_the_index() {
    assert_eq!(function_transition_label("std::thread::spawn", 3), "std_thread_spawn_3");
    assert_eq!(start_place_label(0), "THREAD_START_0");
    assert_eq!(end_place_label(12), "THREAD_END_12");
}

#[test]
fn asking_twice_for_a_label_gives_the_same_string() {
    assert_eq!(start_place_label(5), start_place_label(5));
    assert_eq!(
        function_transition_label("std::thread::spawn", 1),
        function_transition_label("std::thread::spawn", 1)
    );
}
