//! The mathematical model of the translation.
//!
//! A [`TranslatorView`] is the state of a translation: the net, the calls that are
//! being translated and the synchronization primitives found so far. The functions
//! of this module say how each step of the translation changes the state, or with
//! which error it fails. A failed translation has no state.

use crate::control_flow::{Function, Location, Operand, Program, Statement, Terminator};
use crate::error_handling::TranslationError;
use crate::naming::{decimal_spec, next_index};
use crate::naming::function::{
    diverging_call_transition_label_spec,
    foreign_call_transition_label_spec,
    foreign_call_unwind_transition_label_spec,
    panic_transition_label_spec,
};
use crate::naming::program::{PROGRAM_END, PROGRAM_PANIC, PROGRAM_START};
use crate::naming::thread::{end_place_label_spec, start_place_label_spec};
use crate::petri_net_interface::{NetView, PlaceId};
use crate::translator::function_call::{argument_location, FunctionCallView, FunctionPlaces};
use crate::translator::mir_function::memory::MemoryView;
use crate::translator::mir_function::MirFunctionView;
use crate::translator::special_function::{
    diverging_call_spec,
    foreign_call_spec,
    is_panic_function_spec,
};
use crate::translator::sync::arc_manager::ArcManagerView;
use crate::translator::sync::condvar_manager::CondvarManagerView;
use crate::translator::sync::mutex_manager::{MutexManagerView, MutexRef};
use crate::translator::sync::thread::{captured_places, move_mutexes_spec, ThreadView};
use crate::translator::sync::thread_manager::ThreadManagerView;
use crate::translator::sync::{
    ARC_CLONE,
    ARC_DEREF,
    ARC_NEW,
    CONDVAR_NEW,
    CONDVAR_NOTIFY,
    CONDVAR_WAIT,
    DROP,
    MUTEX_LOCK,
    MUTEX_NEW,
    THREAD_JOIN,
    THREAD_SPAWN,
};
use crate::naming::sync::call_transition_labels_spec;
use crate::translator::mir_function::memory::{lemma_link_then_lookup, lookup};
use crate::translator::special_function::lemma_foreign_call_arcs;
use crate::translator::sync::thread_manager::{spawned_function, ThreadRef};
use crate::translator::thread::thread_span::ThreadSpan;
use vstd::prelude::*;

verus! {

/// The state of a translation.
pub struct TranslatorView {
    pub net: NetView,
    /// The place that holds the token when the program starts.
    pub program_start: PlaceId,
    /// The place that the program reaches when it ends.
    pub program_end: PlaceId,
    /// The place that the program reaches when it panics.
    pub program_panic: PlaceId,
    /// The calls that are being translated. The last one is the innermost.
    pub call_stack: Seq<MirFunctionView>,
    /// For every function of the program, how many of its calls have been seen.
    pub call_counter: Seq<usize>,
    pub mutex_manager: MutexManagerView,
    pub thread_manager: ThreadManagerView,
    pub condvar_manager: CondvarManagerView,
    pub arc_manager: ArcManagerView,
}

/// The name of one call of a function: the name of the function and the number of
/// calls of it that came before.
pub open spec fn instance_name_spec(function_name: Seq<char>, index: usize) -> Seq<char> {
    function_name + "_"@ + decimal_spec(index as nat)
}

/// The two labels of the call of a foreign function.
pub open spec fn foreign_call_labels_spec(function_name: Seq<char>) -> (Seq<char>, Seq<char>) {
    (
        foreign_call_transition_label_spec(function_name),
        foreign_call_unwind_transition_label_spec(function_name),
    )
}

/// The kind of a call and what its translation needs.
///
/// A function that panics makes a panic, whatever else holds of it. A call without
/// a block to return to diverges. Of the other calls, those of a foreign function
/// are foreign, those of a function of a synchronization primitive are of its kind,
/// and the rest are calls of a function with blocks to walk. Calls of `spawn` and
/// `join` have no cleanup place.
pub open spec fn classify(
    callee: usize,
    function: Function,
    function_name: Seq<char>,
    current: MirFunctionView,
    args: Seq<Operand>,
    destination: Location,
    target: Option<usize>,
    cleanup: Option<usize>,
) -> FunctionCallView {
    let name = function.name@;
    let start_place = current.active_place;
    if is_panic_function_spec(name) {
        FunctionCallView::Panic { function_name, start_place }
    } else {
        match target {
            None => FunctionCallView::Diverging { function_name, start_place },
            Some(return_block) => {
                let places = current.get_place_refs_for_function_call(return_block, cleanup);
                let direct = FunctionPlaces { cleanup_place: None, ..places };
                if function.foreign {
                    FunctionCallView::Foreign { function_name, places }
                } else if name == MUTEX_NEW@ {
                    FunctionCallView::MutexNew { destination, places }
                } else if name == MUTEX_LOCK@ {
                    FunctionCallView::MutexLock { args, destination, places }
                } else if name == DROP@ {
                    FunctionCallView::Drop { function_name, args, places }
                } else if name == THREAD_SPAWN@ {
                    FunctionCallView::ThreadSpawn { args, destination, places: direct }
                } else if name == THREAD_JOIN@ {
                    FunctionCallView::ThreadJoin { args, places: direct }
                } else if name == CONDVAR_NEW@ {
                    FunctionCallView::CondvarNew { destination, places }
                } else if name == CONDVAR_WAIT@ {
                    FunctionCallView::CondvarWait { args, destination, places }
                } else if name == CONDVAR_NOTIFY@ {
                    FunctionCallView::CondvarNotify { args, places }
                } else if name == ARC_NEW@ {
                    FunctionCallView::ArcNew { args, destination, places }
                } else if name == ARC_CLONE@ {
                    FunctionCallView::ArcClone { args, destination, places }
                } else if name == ARC_DEREF@ {
                    FunctionCallView::ArcDeref { args, destination, places }
                } else {
                    FunctionCallView::MirFunction { function_def_id: callee, function_name, places }
                }
            },
        }
    }
}

/// The memory after a call has handed the handles of its first argument to its
/// return value.
pub open spec fn pass_handles(
    memory: MemoryView,
    args: Seq<Operand>,
    destination: Location,
) -> MemoryView {
    match argument_location(args, 0) {
        Some(source) => memory.alias(destination, source),
        None => memory,
    }
}

/// Whether the place is the only one of the net that holds a token, and it holds
/// exactly one.
pub open spec fn only_marked_place(net: NetView, place: PlaceId) -> bool {
    forall|i: int|
        0 <= i < net.tokens.len() ==> #[trigger] net.tokens[i] == if i == place.index {
            1nat
        } else {
            0nat
        }
}

/// Before the translation begins, the net is well formed and holds three places,
/// of which exactly one, the start place of the program, holds a token.
pub proof fn lemma_initial_marking(functions: nat)
    ensures
        TranslatorView::initial(functions).net.wf(),
        TranslatorView::initial(functions).net.places == seq![
            PROGRAM_PANIC@,
            PROGRAM_END@,
            PROGRAM_START@,
        ],
        TranslatorView::initial(functions).net.has_place(
            TranslatorView::initial(functions).program_start,
        ),
        only_marked_place(
            TranslatorView::initial(functions).net,
            TranslatorView::initial(functions).program_start,
        ),
{
    reveal_strlit("PROGRAM_PANIC");
    reveal_strlit("PROGRAM_END");
    reveal_strlit("PROGRAM_START");
    assert(PROGRAM_PANIC@[8] != PROGRAM_START@[8]);
    assert(PROGRAM_PANIC@.len() != PROGRAM_END@.len());
    assert(PROGRAM_START@.len() != PROGRAM_END@.len());
    assert(TranslatorView::initial(functions).net.places =~= seq![
        PROGRAM_PANIC@,
        PROGRAM_END@,
        PROGRAM_START@,
    ]);
}

/// A net that has grown out of a net in which only one place holds a token holds
/// its only token on the same place: the translation puts no token on any place.
pub proof fn lemma_marking_kept(later: NetView, earlier: NetView, place: PlaceId)
    requires
        later.extends(earlier),
        earlier.has_place(place),
        earlier.tokens.len() == earlier.places.len(),
        only_marked_place(earlier, place),
    ensures
        only_marked_place(later, place),
{
    assert forall|i: int| 0 <= i < later.tokens.len() implies #[trigger] later.tokens[i] == if i
        == place.index {
        1nat
    } else {
        0nat
    } by {
        if i < earlier.tokens.len() {
            assert(earlier.tokens[i] == if i == place.index {
                1nat
            } else {
                0nat
            });
        }
    }
}

/// A call of `spawn` adds one transition to the net and one thread to the manager.
/// The transition takes a token from the place at which the call starts, and from
/// no other place, and puts a token on the place at which the spawning function
/// goes on, and on no other place; the start place of the thread joins them when the
/// thread is translated. The thread has this transition as its spawn transition,
/// runs the function that the first argument stands for and is not joined yet. The
/// place of the return value is linked to the join handle of the thread.
pub proof fn lemma_spawn_call(
    state: TranslatorView,
    args: Seq<Operand>,
    destination: Location,
    places: FunctionPlaces,
)
    requires
        state.net.wf(),
        state.net.transitions.len() < usize::MAX,
        state.thread_manager.threads.len() < usize::MAX,
        state.call_stack.len() > 0,
        places.cleanup_place.is_none(),
        state.call_thread_spawn(args, destination, places).is_ok(),
    ensures
        ({
            let (after, _) = state.call_thread_spawn(args, destination, places).unwrap();
            let spawn = state.net.next_transition();
            let number = state.thread_manager.threads.len() as int;
            &&& after.net.places == state.net.places
            &&& after.net.has_transition(spawn)
            &&& !state.net.has_transition(spawn)
            &&& forall|place: PlaceId| #[trigger]
                after.net.has_arc_in(place, spawn) <==> place == places.start_place
            &&& forall|place: PlaceId| #[trigger]
                after.net.has_arc_out(spawn, place) <==> place == places.end_place
            &&& after.thread_manager.threads.len() == number + 1
            &&& forall|k: int|
                0 <= k < number ==> #[trigger] after.thread_manager.threads[k]
                    == state.thread_manager.threads[k]
            &&& spawned_function(args).is_some()
            &&& after.thread_manager.threads[number].span == (ThreadSpan {
                spawn_transition: spawn,
                thread_function_def_id: spawned_function(args).unwrap(),
                join_transition: None,
                index: number as usize,
            })
            &&& lookup(after.top().memory.join_handles, destination) == Some(
                ThreadRef(number as usize),
            )
        }),
{
    lemma_foreign_call_arcs(
        state.net,
        places,
        call_transition_labels_spec(THREAD_SPAWN@, state.thread_manager.threads.len()),
    );
    let (after, _) = state.call_thread_spawn(args, destination, places).unwrap();
    let number = state.thread_manager.threads.len();
    let left = match argument_location(args, 0) {
        Some(closure_for_spawn) => state.top().memory.unlink_mutexes(closure_for_spawn),
        None => state.top().memory,
    };
    lemma_link_then_lookup(left.join_handles, destination, ThreadRef(number as usize), destination);
}

/// A call of `join` on the join handle of a thread that has not been translated yet
/// adds one transition to the net and makes it the join transition of the thread.
/// The transition takes a token from the place at which the call starts, and from
/// no other place, and puts a token on the place at which the joining function
/// goes on, and on no other place; the end place of the thread joins them when the
/// thread is translated. The other threads stay as they are.
pub proof fn lemma_join_call(
    state: TranslatorView,
    args: Seq<Operand>,
    places: FunctionPlaces,
    thread_ref: ThreadRef,
)
    requires
        state.net.wf(),
        state.net.transitions.len() < usize::MAX,
        state.call_stack.len() > 0,
        places.cleanup_place.is_none(),
        argument_location(args, 0) matches Some(handle) && lookup(
            state.top().memory.join_handles,
            handle,
        ) == Some(thread_ref),
        state.call_thread_join(args, places).is_ok(),
    ensures
        ({
            let (after, _) = state.call_thread_join(args, places).unwrap();
            let join = state.net.next_transition();
            &&& state.thread_manager.translated <= thread_ref.0
                < state.thread_manager.threads.len()
            &&& after.net.places == state.net.places
            &&& after.net.has_transition(join)
            &&& !state.net.has_transition(join)
            &&& forall|place: PlaceId| #[trigger]
                after.net.has_arc_in(place, join) <==> place == places.start_place
            &&& forall|place: PlaceId| #[trigger]
                after.net.has_arc_out(join, place) <==> place == places.end_place
            &&& after.thread_manager.threads.len() == state.thread_manager.threads.len()
            &&& forall|k: int|
                0 <= k < state.thread_manager.threads.len() && k != thread_ref.0
                    ==> #[trigger] after.thread_manager.threads[k]
                    == state.thread_manager.threads[k]
            &&& after.thread_manager.threads[thread_ref.0 as int].span == (ThreadSpan {
                join_transition: Some(join),
                ..state.thread_manager.threads[thread_ref.0 as int].span
            })
        }),
{
    lemma_foreign_call_arcs(
        state.net,
        places,
        call_transition_labels_spec(THREAD_JOIN@, state.thread_manager.join_counter as nat),
    );
}

/// In a well-formed net the end place of a thread is known by its label: where
/// the net holds the end place of a thread, joined as the thread is, every place
/// that carries the label of this end place is this place.
pub proof fn lemma_wired_end_place(state: TranslatorView, thread: int, place: int)
    requires
        state.net.wf(),
        state.thread_is_wired(thread),
        0 <= place < state.net.places.len(),
        state.net.places[place] == end_place_label_spec(
            state.thread_manager.threads[thread].span.index as nat,
        ),
    ensures
        state.end_place_wired(state.thread_manager.threads[thread], place),
{
    let end = choose|end: int| #[trigger]
        state.end_place_wired(state.thread_manager.threads[thread], end);
    if end < place {
        assert(state.net.places[end] != state.net.places[place]);
    }
    if place < end {
        assert(state.net.places[place] != state.net.places[end]);
    }
}

/// Whether the transitions of an earlier net have the arcs in the later net that
/// they had in the earlier one.
pub open spec fn old_arcs_kept(later: NetView, earlier: NetView) -> bool {
    &&& forall|p: int, t: int|
        0 <= t < earlier.transitions.len() ==> (#[trigger] later.arcs_in.contains((p, t))
            <==> earlier.arcs_in.contains((p, t)))
    &&& forall|t: int, p: int|
        0 <= t < earlier.transitions.len() ==> (#[trigger] later.arcs_out.contains((t, p))
            <==> earlier.arcs_out.contains((t, p)))
}

/// A step that adds no arc to the transitions that the net had, and that leaves
/// the threads as they are, leaves the transitions of the threads with the arcs that
/// they should have.
pub proof fn lemma_tidy_kept(later: TranslatorView, earlier: TranslatorView, done: int)
    requires
        earlier.tidy_at(done),
        earlier.thread_manager.wf(earlier.net),
        later.net.extends(earlier.net),
        old_arcs_kept(later.net, earlier.net),
        later.thread_manager.threads == earlier.thread_manager.threads,
    ensures
        later.tidy_at(done),
{
    assert forall|k: int|
        0 <= k < later.thread_manager.threads.len() implies #[trigger] later.thread_tidy(
        k,
        done,
    ) by {
        assert(earlier.thread_tidy(k, done));
        assert(earlier.thread_manager.threads[k].span.wf(earlier.net));
        let (from, to, start) = choose|from: int, to: int, start: int| #[trigger]
            earlier.spawn_arcs(k, from, to, start, done);
        assert(later.spawn_arcs(k, from, to, start, done));
        if let Some(join) = later.thread_manager.threads[k].span.join_transition {
            let (from, to, end) = choose|from: int, to: int, end: int| #[trigger]
                earlier.join_arcs(k, join.index as int, from, to, end, done);
            assert(later.join_arcs(k, join.index as int, from, to, end, done));
        }
    }
}

/// A step that adds no arc to the transitions that the net had, and that leaves
/// the threads as they are, keeps what holds of the transitions of the threads.
pub proof fn lemma_tidy_step(later: TranslatorView, earlier: TranslatorView)
    requires
        earlier.thread_manager.wf(earlier.net),
        later.net.extends(earlier.net),
        old_arcs_kept(later.net, earlier.net),
        later.thread_manager.threads == earlier.thread_manager.threads,
        later.thread_manager.translated == earlier.thread_manager.translated,
    ensures
        earlier.tidy() ==> later.tidy(),
{
    if earlier.tidy() {
        lemma_tidy_kept(later, earlier, earlier.thread_manager.translated as int);
    }
}

/// The transition of a call that is translated like the call of a foreign function
/// takes a token from the start place of the call and from no other place, and puts
/// a token on the end place of the call and on no other place, whether the call
/// can unwind or not.
pub proof fn lemma_call_transition_arcs(
    net: NetView,
    places: FunctionPlaces,
    labels: (Seq<char>, Seq<char>),
)
    requires
        net.wf(),
        foreign_call_spec(net, places, labels) matches Ok((called, _))
            && called.transitions.len() <= usize::MAX,
    ensures
        ({
            let (called, transition) = foreign_call_spec(net, places, labels).unwrap();
            &&& transition.index == net.transitions.len()
            &&& forall|p: int| #[trigger]
                called.arcs_in.contains((p, transition.index as int)) <==> p
                    == places.start_place.index
            &&& forall|p: int| #[trigger]
                called.arcs_out.contains((transition.index as int, p)) <==> p
                    == places.end_place.index
        }),
{
    let (called, transition) = foreign_call_spec(net, places, labels).unwrap();
    assert forall|p: int| #[trigger]
        called.arcs_in.contains((p, transition.index as int)) <==> p
            == places.start_place.index by {
        assert(!net.arcs_in.contains((p, transition.index as int)));
    }
    assert forall|p: int| #[trigger]
        called.arcs_out.contains((transition.index as int, p)) <==> p
            == places.end_place.index by {
        assert(!net.arcs_out.contains((transition.index as int, p)));
    }
}

/// A step that adds a thread whose spawn transition is new to the net and has one
/// arc to it and one arc from it, and that adds no arc to the transitions that the
/// net had, keeps what holds of the transitions of the threads.
pub proof fn lemma_tidy_after_spawn(
    later: TranslatorView,
    earlier: TranslatorView,
    from: int,
    to: int,
)
    requires
        earlier.tidy(),
        earlier.thread_manager.wf(earlier.net),
        later.net.extends(earlier.net),
        old_arcs_kept(later.net, earlier.net),
        later.thread_manager.translated == earlier.thread_manager.translated,
        later.thread_manager.threads.len() == earlier.thread_manager.threads.len() + 1,
        forall|k: int|
            0 <= k < earlier.thread_manager.threads.len() ==> later.thread_manager.threads[k]
                == earlier.thread_manager.threads[k],
        later.thread_manager.threads.last().span.join_transition.is_none(),
        later.thread_manager.threads.last().span.spawn_transition.index
            >= earlier.net.transitions.len(),
        forall|p: int| #[trigger]
            later.net.arcs_in.contains(
                (p, later.thread_manager.threads.last().span.spawn_transition.index as int),
            ) <==> p == from,
        forall|p: int| #[trigger]
            later.net.arcs_out.contains(
                (later.thread_manager.threads.last().span.spawn_transition.index as int, p),
            ) <==> p == to,
    ensures
        later.tidy(),
{
    let done = earlier.thread_manager.translated as int;
    let number = earlier.thread_manager.threads.len() as int;
    assert forall|k: int|
        0 <= k < later.thread_manager.threads.len() implies #[trigger] later.thread_tidy(
        k,
        done,
    ) by {
        if k < number {
            assert(earlier.thread_tidy(k, done));
            assert(earlier.thread_manager.threads[k].span.wf(earlier.net));
            let (from, to, start) = choose|from: int, to: int, start: int| #[trigger]
                earlier.spawn_arcs(k, from, to, start, done);
            assert(later.spawn_arcs(k, from, to, start, done));
            if let Some(join) = later.thread_manager.threads[k].span.join_transition {
                let (from, to, end) = choose|from: int, to: int, end: int| #[trigger]
                    earlier.join_arcs(k, join.index as int, from, to, end, done);
                assert(later.join_arcs(k, join.index as int, from, to, end, done));
            }
        } else {
            assert(later.thread_manager.threads[k] == later.thread_manager.threads.last());
            assert(later.spawn_arcs(k, from, to, 0, done));
        }
    }
    assert forall|i: int, j: int|
        0 <= i < later.thread_manager.threads.len() && 0 <= j
            < later.thread_manager.threads.len() implies ({
        let one = (#[trigger] later.thread_manager.threads[i]).span;
        let other = (#[trigger] later.thread_manager.threads[j]).span;
        &&& i != j ==> one.spawn_transition != other.spawn_transition
        &&& one.join_transition != Some(other.spawn_transition)
        &&& i != j && one.join_transition.is_some() ==> one.join_transition
            != other.join_transition
    }) by {
        if i < number {
            assert(earlier.thread_manager.threads[i].span.wf(earlier.net));
        } else {
            assert(later.thread_manager.threads[i] == later.thread_manager.threads.last());
        }
        if j < number {
            assert(earlier.thread_manager.threads[j].span.wf(earlier.net));
        } else {
            assert(later.thread_manager.threads[j] == later.thread_manager.threads.last());
        }
    }
}

/// A step that gives a thread that is not translated yet a join transition that is
/// new to the net and has one arc to it and one arc from it, and that adds no arc
/// to the transitions that the net had, keeps what holds of the transitions of the
/// threads.
pub proof fn lemma_tidy_after_join(
    later: TranslatorView,
    earlier: TranslatorView,
    thread: int,
    from: int,
    to: int,
)
    requires
        earlier.tidy(),
        earlier.thread_manager.wf(earlier.net),
        later.net.extends(earlier.net),
        old_arcs_kept(later.net, earlier.net),
        later.thread_manager.translated == earlier.thread_manager.translated,
        later.thread_manager.threads.len() == earlier.thread_manager.threads.len(),
        earlier.thread_manager.translated <= thread < earlier.thread_manager.threads.len(),
        forall|k: int|
            0 <= k < earlier.thread_manager.threads.len() && k != thread
                ==> later.thread_manager.threads[k] == earlier.thread_manager.threads[k],
        later.thread_manager.threads[thread].span.spawn_transition
            == earlier.thread_manager.threads[thread].span.spawn_transition,
        later.thread_manager.threads[thread].span.join_transition matches Some(join)
            && join.index >= earlier.net.transitions.len() && (forall|p: int| #[trigger]
            later.net.arcs_in.contains((p, join.index as int)) <==> p == from) && (forall|p: int|
         #[trigger]
            later.net.arcs_out.contains((join.index as int, p)) <==> p == to),
    ensures
        later.tidy(),
{
    let done = earlier.thread_manager.translated as int;
    assert forall|k: int|
        0 <= k < later.thread_manager.threads.len() implies #[trigger] later.thread_tidy(
        k,
        done,
    ) by {
        assert(earlier.thread_tidy(k, done));
        assert(earlier.thread_manager.threads[k].span.wf(earlier.net));
        let (a, c, start) = choose|a: int, c: int, start: int| #[trigger]
            earlier.spawn_arcs(k, a, c, start, done);
        assert(later.spawn_arcs(k, a, c, start, done));
        if k != thread {
            if let Some(join) = later.thread_manager.threads[k].span.join_transition {
                let (b, d, end) = choose|b: int, d: int, end: int| #[trigger]
                    earlier.join_arcs(k, join.index as int, b, d, end, done);
                assert(later.join_arcs(k, join.index as int, b, d, end, done));
            }
        } else {
            let join = later.thread_manager.threads[k].span.join_transition.unwrap();
            assert(later.join_arcs(k, join.index as int, from, to, 0, done));
        }
    }
    assert forall|i: int, j: int|
        0 <= i < later.thread_manager.threads.len() && 0 <= j
            < later.thread_manager.threads.len() implies ({
        let one = (#[trigger] later.thread_manager.threads[i]).span;
        let other = (#[trigger] later.thread_manager.threads[j]).span;
        &&& i != j ==> one.spawn_transition != other.spawn_transition
        &&& one.join_transition != Some(other.spawn_transition)
        &&& i != j && one.join_transition.is_some() ==> one.join_transition
            != other.join_transition
    }) by {
        assert(earlier.thread_manager.threads[i].span.wf(earlier.net));
        assert(earlier.thread_manager.threads[j].span.wf(earlier.net));
    }
}

/// When a thread is handed out and its two places are added to the net, its spawn
/// transition gains the arc to the start place and its join transition the arc
/// from the end place, and the transitions of the other threads stay as they are.
pub proof fn lemma_tidy_after_prepare(later: TranslatorView, earlier: TranslatorView, thread: int)
    requires
        earlier.net.wf(),
        earlier.net.places.len() + 2 <= usize::MAX,
        earlier.thread_manager.wf(earlier.net),
        0 <= thread < earlier.thread_manager.threads.len(),
        thread == earlier.thread_manager.translated - 1,
        earlier.tidy_at(thread),
        earlier.thread_manager.threads[thread].span.prepare_for_translation_spec(
            earlier.net,
        ) matches Ok((prepared, _)) && later == earlier.with_net(prepared),
    ensures
        later.tidy(),
{
    let span = earlier.thread_manager.threads[thread].span;
    let (prepared, (_, start, end)) = span.prepare_for_translation_spec(earlier.net).unwrap();
    assert(span.wf(earlier.net));
    assert(span.index == thread);
    let done = thread + 1;
    assert forall|k: int|
        0 <= k < later.thread_manager.threads.len() implies #[trigger] later.thread_tidy(
        k,
        done,
    ) by {
        assert(earlier.thread_tidy(k, thread));
        let other = earlier.thread_manager.threads[k].span;
        assert(other.wf(earlier.net));
        assert(earlier.thread_manager.threads[thread].span == span);
        let (a, c, s) = choose|a: int, c: int, s: int| #[trigger]
            earlier.spawn_arcs(k, a, c, s, thread);
        if k == thread {
            assert(earlier.net.arcs_out.contains((span.spawn_transition.index as int, c)));
            assert(later.spawn_arcs(k, a, c, start.index as int, done));
        } else {
            assert(later.spawn_arcs(k, a, c, s, done));
        }
        if let Some(join) = other.join_transition {
            let (b, d, e) = choose|b: int, d: int, e: int| #[trigger]
                earlier.join_arcs(k, join.index as int, b, d, e, thread);
            if k == thread {
                assert(earlier.net.arcs_in.contains((b, join.index as int)));
                assert(later.join_arcs(k, join.index as int, b, d, end.index as int, done));
            } else {
                assert(later.join_arcs(k, join.index as int, b, d, e, done));
            }
        }
    }
}

/// A step that draws its new arcs only from places that the translation could reach,
/// or from new places, and that keeps the calls, the mutexes and the condition
/// variables, leaves alone the places from which the translation drew no arc any
/// more.
pub proof fn lemma_seals_kept(later: TranslatorView, earlier: TranslatorView)
    requires
        later.net.extends(earlier.net),
        later.places_kept_or_new(earlier),
        later.new_arcs_reached(earlier),
    ensures
        later.seals_kept(earlier),
{
    assert forall|sealed: Set<int>| #[trigger] earlier.apart(sealed) implies later.apart(sealed)
        && later.keeps(earlier, sealed) by {
        assert forall|i: int| 0 <= i < later.call_stack.len() implies (
        #[trigger] later.call_stack[i]).apart(sealed) by {
            assert(later.call_stack[i].moved_on(earlier.call_stack[i], earlier.net.places.len()));
            assert(earlier.call_stack[i].apart(sealed));
        }
        assert forall|m: int| 0 <= m < later.mutex_manager.mutexes.len() implies !sealed.contains(
            (#[trigger] later.mutex_manager.mutexes[m]).unlocked.index as int,
        ) && !sealed.contains(later.mutex_manager.mutexes[m].locked.index as int) by {
            if m < earlier.mutex_manager.mutexes.len() && later.mutex_manager.mutexes[m]
                == earlier.mutex_manager.mutexes[m] {
                assert(!sealed.contains(earlier.mutex_manager.mutexes[m].unlocked.index as int));
            }
        }
        assert forall|c: int|
            0 <= c < later.condvar_manager.condvars.len() implies !sealed.contains(
            (#[trigger] later.condvar_manager.condvars[c]).wait.index as int,
        ) && !sealed.contains(later.condvar_manager.condvars[c].notify.index as int) by {
            if c < earlier.condvar_manager.condvars.len() && later.condvar_manager.condvars[c]
                == earlier.condvar_manager.condvars[c] {
                assert(!sealed.contains(earlier.condvar_manager.condvars[c].wait.index as int));
            }
        }
        assert forall|p: int, t: int| sealed.contains(p) implies (
        #[trigger] later.net.arcs_in.contains((p, t)) <==> earlier.net.arcs_in.contains(
            (p, t),
        )) by {
            if later.net.arcs_in.contains((p, t)) && !earlier.net.arcs_in.contains((p, t)) {
                assert(earlier.reaches(p));
                if earlier.call_stack.len() > 0 && p == earlier.top().active_place.index {
                    assert(earlier.call_stack[earlier.call_stack.len() - 1].apart(sealed));
                }
            }
        }
    }
}

impl TranslatorView {
    /// The state before the translation: the net holds the three places of the
    /// program, and only the start place holds a token.
    pub open spec fn initial(functions: nat) -> TranslatorView {
        TranslatorView {
            net: NetView::empty().add_place(PROGRAM_PANIC@).add_place(PROGRAM_END@).add_place(
                PROGRAM_START@,
            ).add_tokens(PlaceId { index: 2 }, 1),
            program_start: PlaceId { index: 2 },
            program_end: PlaceId { index: 1 },
            program_panic: PlaceId { index: 0 },
            call_stack: Seq::empty(),
            call_counter: Seq::new(functions, |i: int| 0usize),
            mutex_manager: MutexManagerView { mutexes: Seq::empty(), lock_counter: 0 },
            thread_manager: ThreadManagerView::empty(),
            condvar_manager: CondvarManagerView::empty(),
            arc_manager: ArcManagerView::empty(),
        }
    }

    /// The net is well formed, and what the state refers to belongs to the net and
    /// to the program.
    pub open spec fn wf(self, program: Program) -> bool {
        &&& self.net.wf()
        &&& self.net.has_place(self.program_start)
        &&& self.net.has_place(self.program_end)
        &&& self.net.has_place(self.program_panic)
        &&& self.call_counter.len() == program.functions@.len()
        &&& self.mutex_manager.wf(self.net)
        &&& self.thread_manager.wf(self.net)
        &&& self.condvar_manager.wf(self.net)
        &&& forall|i: int|
            0 <= i < self.call_stack.len() ==> (#[trigger] self.call_stack[i]).wf(self.net)
                && self.call_stack[i].def_id < program.functions@.len()
                && self.call_stack[i].block_places.len()
                == program.functions@[self.call_stack[i].def_id as int].blocks@.len()
    }

    /// The call that is being translated.
    pub open spec fn top(self) -> MirFunctionView {
        self.call_stack.last()
    }

    /// The state in which the call that is being translated is another.
    pub open spec fn with_top(self, function: MirFunctionView) -> TranslatorView {
        TranslatorView {
            call_stack: self.call_stack.update(self.call_stack.len() - 1, function),
            ..self
        }
    }

    /// The state in which the call that is being translated has another memory.
    pub open spec fn with_memory(self, memory: MemoryView) -> TranslatorView {
        self.with_top(MirFunctionView { memory, ..self.top() })
    }

    /// Whether the innermost call is a call of the given function, and `depth`
    /// calls are being translated.
    pub open spec fn walking(self, function: usize, depth: nat) -> bool {
        &&& depth >= 1
        &&& self.call_stack.len() == depth
        &&& self.top().def_id == function
    }

    /// Whether the given places are places of the net from which the translation
    /// draws no arc any more: none of them is the start place of the program, a
    /// place of a call that is being translated, or a place of a mutex or of a
    /// condition variable.
    pub open spec fn apart(self, sealed: Set<int>) -> bool {
        &&& forall|p: int| sealed.contains(p) ==> 0 <= p < self.net.places.len()
        &&& !sealed.contains(self.program_start.index as int)
        &&& forall|i: int|
            0 <= i < self.call_stack.len() ==> (#[trigger] self.call_stack[i]).apart(sealed)
        &&& forall|m: int|
            0 <= m < self.mutex_manager.mutexes.len() ==> !sealed.contains(
                (#[trigger] self.mutex_manager.mutexes[m]).unlocked.index as int,
            ) && !sealed.contains(self.mutex_manager.mutexes[m].locked.index as int)
        &&& forall|c: int|
            0 <= c < self.condvar_manager.condvars.len() ==> !sealed.contains(
                (#[trigger] self.condvar_manager.condvars[c]).wait.index as int,
            ) && !sealed.contains(self.condvar_manager.condvars[c].notify.index as int)
    }

    /// Whether the translation may draw an arc from the place in its next step: the
    /// place is the one that the innermost call has got to, or a place of a mutex
    /// or of a condition variable.
    pub open spec fn reaches(self, place: int) -> bool {
        ||| self.call_stack.len() > 0 && place == self.top().active_place.index
        ||| exists|m: int|
            0 <= m < self.mutex_manager.mutexes.len() && ((
            #[trigger] self.mutex_manager.mutexes[m]).unlocked.index == place
                || self.mutex_manager.mutexes[m].locked.index == place)
        ||| exists|c: int|
            0 <= c < self.condvar_manager.condvars.len() && ((
            #[trigger] self.condvar_manager.condvars[c]).wait.index == place
                || self.condvar_manager.condvars[c].notify.index == place)
    }

    /// Whether every arc to a transition that an earlier state did not have leaves
    /// a place that the earlier state did not have or one from which the
    /// translation might draw an arc in that state.
    pub open spec fn new_arcs_reached(self, earlier: TranslatorView) -> bool {
        forall|p: int, t: int| #[trigger]
            self.net.arcs_in.contains((p, t)) && !earlier.net.arcs_in.contains((p, t)) ==> p
                >= earlier.net.places.len() || earlier.reaches(p)
    }

    /// Whether the calls, the mutexes and the condition variables of an earlier
    /// state are still there, and what has come to them lies in places that the
    /// earlier state did not have.
    pub open spec fn places_kept_or_new(self, earlier: TranslatorView) -> bool {
        &&& self.program_start == earlier.program_start
        &&& self.call_stack.len() == earlier.call_stack.len()
        &&& forall|i: int|
            0 <= i < self.call_stack.len() ==> (#[trigger] self.call_stack[i]).moved_on(
                earlier.call_stack[i],
                earlier.net.places.len(),
            )
        &&& self.managers_kept_or_new(earlier)
    }

    /// Whether the mutexes and the condition variables of an earlier state are still
    /// there, and those that have come to them lie in places that the earlier state
    /// did not have.
    pub open spec fn managers_kept_or_new(self, earlier: TranslatorView) -> bool {
        &&& forall|m: int|
            0 <= m < self.mutex_manager.mutexes.len() ==> (m
                < earlier.mutex_manager.mutexes.len() && #[trigger] self.mutex_manager.mutexes[m]
                == earlier.mutex_manager.mutexes[m]) || (
            self.mutex_manager.mutexes[m].unlocked.index >= earlier.net.places.len()
                && self.mutex_manager.mutexes[m].locked.index >= earlier.net.places.len())
        &&& forall|c: int|
            0 <= c < self.condvar_manager.condvars.len() ==> (c
                < earlier.condvar_manager.condvars.len()
                && #[trigger] self.condvar_manager.condvars[c]
                == earlier.condvar_manager.condvars[c]) || (
            self.condvar_manager.condvars[c].wait.index >= earlier.net.places.len()
                && self.condvar_manager.condvars[c].notify.index >= earlier.net.places.len())
    }

    /// Whether the place is the end place of the thread and is joined as the thread
    /// is: the only arc that leaves it leads to the join transition of the thread,
    /// and no arc leaves it if the thread has none.
    pub open spec fn end_place_wired(self, thread: ThreadView, end: int) -> bool {
        &&& 0 <= end < self.net.places.len()
        &&& self.net.places[end] == end_place_label_spec(thread.span.index as nat)
        &&& forall|t: int| #[trigger]
            self.net.arcs_in.contains((end, t)) <==> (thread.span.join_transition matches Some(
                join,
            ) && join.index == t)
    }

    /// Whether the net holds the end place of a thread of the manager, joined as
    /// the thread is.
    pub open spec fn thread_is_wired(self, thread: int) -> bool {
        exists|end: int| #[trigger]
            self.end_place_wired(self.thread_manager.threads[thread], end)
    }

    /// Whether the arcs that leave the given places are those of an earlier state.
    pub open spec fn keeps(self, earlier: TranslatorView, sealed: Set<int>) -> bool {
        forall|p: int, t: int|
            sealed.contains(p) ==> (#[trigger] self.net.arcs_in.contains((p, t))
                <==> earlier.net.arcs_in.contains((p, t)))
    }

    /// Whether the places from which the translation drew no arc any more in an
    /// earlier state are still such places, and the same arcs leave them.
    pub open spec fn seals_kept(self, earlier: TranslatorView) -> bool {
        forall|sealed: Set<int>| #[trigger]
            earlier.apart(sealed) ==> self.apart(sealed) && self.keeps(earlier, sealed)
    }

    /// Whether the threads that had been handed out for translation in an earlier
    /// state are as they were, and no thread has been lost.
    pub open spec fn threads_kept(self, earlier: TranslatorView) -> bool {
        &&& earlier.thread_manager.threads.len() <= self.thread_manager.threads.len()
        &&& forall|k: int|
            0 <= k < earlier.thread_manager.translated && k
                < earlier.thread_manager.threads.len() ==> #[trigger] self.thread_manager.threads[k]
                == earlier.thread_manager.threads[k]
    }

    /// Whether the places from which the translation drew no arc any more in an
    /// earlier state, but for one place, are still such places, and the same arcs
    /// leave them.
    pub open spec fn seals_kept_but(self, earlier: TranslatorView, place: PlaceId) -> bool {
        forall|sealed: Set<int>| #[trigger]
            earlier.apart(sealed) && !sealed.contains(place.index as int) ==> self.apart(sealed)
                && self.keeps(earlier, sealed)
    }

    /// Whether the spawn transition of a thread has the arcs that it should have:
    /// it takes a token from one place and puts a token on one place and, once the
    /// thread is translated, on the start place of the thread, which is another.
    pub open spec fn spawn_arcs(
        self,
        thread: int,
        from: int,
        to: int,
        start: int,
        translated: int,
    ) -> bool {
        let spawn = self.thread_manager.threads[thread].span.spawn_transition.index as int;
        let done = thread < translated;
        &&& forall|p: int| #[trigger] self.net.arcs_in.contains((p, spawn)) <==> p == from
        &&& forall|p: int| #[trigger]
            self.net.arcs_out.contains((spawn, p)) <==> p == to || (done && p == start)
        &&& done ==> 0 <= start < self.net.places.len() && self.net.places[start]
            == start_place_label_spec(thread as nat) && start != to
    }

    /// Whether the join transition of a thread has the arcs that it should have: it
    /// puts a token on one place and takes a token from one place and, once the
    /// thread is translated, from the end place of the thread, which is another.
    pub open spec fn join_arcs(
        self,
        thread: int,
        join: int,
        from: int,
        to: int,
        end: int,
        translated: int,
    ) -> bool {
        let done = thread < translated;
        &&& forall|p: int| #[trigger]
            self.net.arcs_in.contains((p, join)) <==> p == from || (done && p == end)
        &&& forall|p: int| #[trigger] self.net.arcs_out.contains((join, p)) <==> p == to
        &&& done ==> 0 <= end < self.net.places.len() && self.net.places[end]
            == end_place_label_spec(thread as nat) && end != from
    }

    /// Whether the spawn transition of a thread, and its join transition if it has
    /// one, have the arcs that they should have, where the first threads, as many
    /// as given, are translated.
    pub open spec fn thread_tidy(self, thread: int, translated: int) -> bool {
        &&& exists|from: int, to: int, start: int| #[trigger]
            self.spawn_arcs(thread, from, to, start, translated)
        &&& self.thread_manager.threads[thread].span.join_transition matches Some(join)
            ==> exists|from: int, to: int, end: int| #[trigger]
            self.join_arcs(thread, join.index as int, from, to, end, translated)
    }

    /// Whether no transition is the spawn transition of two threads, the join
    /// transition of two threads, or the spawn transition of one and the join
    /// transition of another.
    pub open spec fn threads_distinct(self) -> bool {
        forall|i: int, j: int|
            0 <= i < self.thread_manager.threads.len() && 0 <= j
                < self.thread_manager.threads.len() ==> {
                let one = (#[trigger] self.thread_manager.threads[i]).span;
                let other = (#[trigger] self.thread_manager.threads[j]).span;
                &&& i != j ==> one.spawn_transition != other.spawn_transition
                &&& one.join_transition != Some(other.spawn_transition)
                &&& i != j && one.join_transition.is_some() ==> one.join_transition
                    != other.join_transition
            }
    }

    /// Whether the transitions of the threads are apart and have the arcs that
    /// they should have, where the first threads, as many as given, are translated.
    pub open spec fn tidy_at(self, done: int) -> bool {
        &&& self.threads_distinct()
        &&& forall|k: int|
            0 <= k < self.thread_manager.threads.len() ==> #[trigger] self.thread_tidy(k, done)
    }

    /// Whether the transitions of the threads are apart and have the arcs that
    /// they should have.
    pub open spec fn tidy(self) -> bool {
        self.tidy_at(self.thread_manager.translated as int)
    }

    /// Whether this state has come out of an earlier one, whatever has become of
    /// the places from which the translation drew no arc any more: the net has grown,
    /// its three first places are the same, no thread has been handed out for
    /// translation, the threads that had been handed out before are as they were,
    /// and the transitions of the threads have the arcs that they should have, if
    /// they had them before.
    pub open spec fn grown_net(self, earlier: TranslatorView) -> bool {
        &&& self.net.extends(earlier.net)
        &&& self.program_start == earlier.program_start
        &&& self.program_end == earlier.program_end
        &&& self.program_panic == earlier.program_panic
        &&& self.call_counter.len() == earlier.call_counter.len()
        &&& self.thread_manager.translated == earlier.thread_manager.translated
        &&& self.threads_kept(earlier)
        &&& earlier.tidy() ==> self.tidy()
    }

    /// Whether this state has come out of an earlier one: the net has grown as
    /// [`TranslatorView::grown_net`] says, and the places from which the translation
    /// drew no arc any more are still such places, with the same arcs.
    pub open spec fn grown(self, earlier: TranslatorView) -> bool {
        self.grown_net(earlier) && self.seals_kept(earlier)
    }

    /// Whether this state has come out of an earlier one by the start of a call at
    /// the given place: as [`TranslatorView::grown`] says, but that the place is
    /// one from which the translation draws arcs again.
    pub open spec fn grown_but(self, earlier: TranslatorView, place: PlaceId) -> bool {
        self.grown_net(earlier) && self.seals_kept_but(earlier, place)
    }

    /// Whether this state has come out of an earlier one by steps inside the
    /// innermost call: the net has grown, the calls that are being translated are
    /// the same, and of the innermost call only the active block, the place that it
    /// has got to and the memory may differ.
    pub open spec fn follows(self, earlier: TranslatorView) -> bool {
        &&& self.grown(earlier)
        &&& self.call_stack.len() == earlier.call_stack.len()
        &&& forall|i: int|
            0 <= i < self.call_stack.len() - 1 ==> self.call_stack[i] == earlier.call_stack[i]
        &&& self.call_stack.len() > 0 ==> self.top().same_call(earlier.top())
    }

    /// The state with another net.
    pub open spec fn with_net(self, net: NetView) -> TranslatorView {
        TranslatorView { net, ..self }
    }

    /// Counts one more call of a function and gives the name of the call.
    pub open spec fn next_instance(self, program: Program, function: usize) -> Result<
        (TranslatorView, Seq<char>),
        TranslationError,
    > {
        let seen = self.call_counter[function as int];
        Ok(
            (
                TranslatorView {
                    call_counter: self.call_counter.update(function as int, next_index(seen)),
                    ..self
                },
                instance_name_spec(program.functions@[function as int].name@, seen),
            ),
        )
    }

    /// Counts the call of a function in the block that is being translated and
    /// tells the kind of the call.
    pub open spec fn prepare_function_call(
        self,
        program: Program,
        callee: usize,
        args: Seq<Operand>,
        destination: Location,
        target: Option<usize>,
        cleanup: Option<usize>,
    ) -> Result<(TranslatorView, FunctionCallView), TranslationError> {
        match self.next_instance(program, callee) {
            Err(error) => Err(error),
            Ok((counted, function_name)) => Ok(
                (
                    counted,
                    classify(
                        callee,
                        program.functions@[callee as int],
                        function_name,
                        self.top(),
                        args,
                        destination,
                        target,
                        cleanup,
                    ),
                ),
            ),
        }
    }

    /// The state after a call of `std::sync::Mutex::<T>::new`.
    pub open spec fn call_mutex_new(self, destination: Location, places: FunctionPlaces) -> Result<
        (TranslatorView, ()),
        TranslationError,
    > {
        match self.mutex_manager.translate_function_call(MUTEX_NEW@, places, self.net) {
            Err(error) => Err(error),
            Ok((called, transition)) => match self.mutex_manager.translate_function_side_effects(
                MUTEX_NEW@,
                Seq::empty(),
                destination,
                transition,
                called,
                self.top().memory,
            ) {
                Err(error) => Err(error),
                Ok(((mutex_manager, net, memory), _)) => Ok(
                    (TranslatorView { net, mutex_manager, ..self }.with_memory(memory), ()),
                ),
            },
        }
    }

    /// The state after a call of `std::sync::Mutex::<T>::lock`.
    pub open spec fn call_mutex_lock(
        self,
        args: Seq<Operand>,
        destination: Location,
        places: FunctionPlaces,
    ) -> Result<(TranslatorView, ()), TranslationError> {
        match self.mutex_manager.translate_function_call(MUTEX_LOCK@, places, self.net) {
            Err(error) => Err(error),
            Ok((called, transition)) => match self.mutex_manager.translate_function_side_effects(
                MUTEX_LOCK@,
                args,
                destination,
                transition,
                called,
                self.top().memory,
            ) {
                Err(error) => Err(error),
                Ok(((mutex_manager, net, memory), _)) => Ok(
                    (TranslatorView { net, mutex_manager, ..self }.with_memory(memory), ()),
                ),
            },
        }
    }

    /// The state after the end of a value: the call is translated like that of a
    /// foreign function, and its transition unlocks the mutex whose guard ends.
    pub open spec fn call_drop(
        self,
        function_name: Seq<char>,
        args: Seq<Operand>,
        places: FunctionPlaces,
    ) -> Result<(TranslatorView, ()), TranslationError> {
        match foreign_call_spec(self.net, places, foreign_call_labels_spec(function_name)) {
            Err(error) => Err(error),
            Ok((called, transition)) => match self.mutex_manager.translate_drop_side_effects(
                args,
                transition,
                called,
                self.top().memory,
            ) {
                Err(error) => Err(error),
                Ok((net, _)) => Ok((self.with_net(net), ())),
            },
        }
    }

    /// The state after a call of `std::thread::spawn`.
    pub open spec fn call_thread_spawn(
        self,
        args: Seq<Operand>,
        destination: Location,
        places: FunctionPlaces,
    ) -> Result<(TranslatorView, ()), TranslationError> {
        match self.thread_manager.translate_call_spawn(places, self.net) {
            Err(error) => Err(error),
            Ok((net, transition)) => match self.thread_manager.translate_side_effects_spawn(
                args,
                destination,
                transition,
                self.top().memory,
            ) {
                Err(error) => Err(error),
                Ok(((thread_manager, memory), _)) => Ok(
                    (TranslatorView { net, thread_manager, ..self }.with_memory(memory), ()),
                ),
            },
        }
    }

    /// The state after a call of `std::thread::JoinHandle::<T>::join`.
    pub open spec fn call_thread_join(self, args: Seq<Operand>, places: FunctionPlaces) -> Result<
        (TranslatorView, ()),
        TranslationError,
    > {
        match self.thread_manager.translate_call_join(places, self.net) {
            Err(error) => Err(error),
            Ok((net, transition)) => match self.thread_manager.translate_side_effects_join(
                args,
                transition,
                self.top().memory,
            ) {
                Err(error) => Err(error),
                Ok((thread_manager, _)) => Ok((TranslatorView { net, thread_manager, ..self }, ())),
            },
        }
    }

    /// The state after a call of `std::sync::Condvar::new`.
    pub open spec fn call_condvar_new(self, destination: Location, places: FunctionPlaces) -> Result<
        (TranslatorView, ()),
        TranslationError,
    > {
        match self.condvar_manager.translate_call_new(places, self.net) {
            Err(error) => Err(error),
            Ok((called, _)) => match self.condvar_manager.translate_side_effects_new(
                destination,
                called,
                self.top().memory,
            ) {
                Err(error) => Err(error),
                Ok(((condvar_manager, net, memory), _)) => Ok(
                    (TranslatorView { net, condvar_manager, ..self }.with_memory(memory), ()),
                ),
            },
        }
    }

    /// The state after a call of `std::sync::Condvar::wait`.
    pub open spec fn call_condvar_wait(
        self,
        args: Seq<Operand>,
        destination: Location,
        places: FunctionPlaces,
    ) -> Result<(TranslatorView, ()), TranslationError> {
        match self.condvar_manager.translate_call_wait(places, self.net) {
            Err(error) => Err(error),
            Ok((called, (park, resume))) => match self.condvar_manager.translate_side_effects_wait(
                args,
                destination,
                park,
                resume,
                self.mutex_manager,
                called,
                self.top().memory,
            ) {
                Err(error) => Err(error),
                Ok(((condvar_manager, net, memory), _)) => Ok(
                    (TranslatorView { net, condvar_manager, ..self }.with_memory(memory), ()),
                ),
            },
        }
    }

    /// The state after a call of `std::sync::Condvar::notify_one`.
    pub open spec fn call_condvar_notify(self, args: Seq<Operand>, places: FunctionPlaces) -> Result<
        (TranslatorView, ()),
        TranslationError,
    > {
        match self.condvar_manager.translate_call_notify(places, self.net) {
            Err(error) => Err(error),
            Ok((called, transition)) => match self.condvar_manager.translate_side_effects_notify(
                args,
                transition,
                called,
                self.top().memory,
            ) {
                Err(error) => Err(error),
                Ok(((condvar_manager, net), _)) => Ok(
                    (TranslatorView { net, condvar_manager, ..self }, ()),
                ),
            },
        }
    }

    /// The state after a call of `std::sync::Arc::<T>::new`: the return value holds
    /// the handles of the first argument.
    pub open spec fn call_arc_new(
        self,
        args: Seq<Operand>,
        destination: Location,
        places: FunctionPlaces,
    ) -> Result<(TranslatorView, ()), TranslationError> {
        match self.arc_manager.translate_call_new(places, self.net) {
            Err(error) => Err(error),
            Ok(((arc_manager, net), _)) => Ok(
                (
                    TranslatorView { net, arc_manager, ..self }.with_memory(
                        pass_handles(self.top().memory, args, destination),
                    ),
                    (),
                ),
            ),
        }
    }

    /// The state after a call of `std::clone::Clone::clone`: the return value holds
    /// the handles of the first argument.
    pub open spec fn call_arc_clone(
        self,
        args: Seq<Operand>,
        destination: Location,
        places: FunctionPlaces,
    ) -> Result<(TranslatorView, ()), TranslationError> {
        match self.arc_manager.translate_call_clone(places, self.net) {
            Err(error) => Err(error),
            Ok(((arc_manager, net), _)) => Ok(
                (
                    TranslatorView { net, arc_manager, ..self }.with_memory(
                        pass_handles(self.top().memory, args, destination),
                    ),
                    (),
                ),
            ),
        }
    }

    /// The state after a call of `std::ops::Deref::deref`: the return value holds
    /// the handles of the first argument.
    pub open spec fn call_arc_deref(
        self,
        args: Seq<Operand>,
        destination: Location,
        places: FunctionPlaces,
    ) -> Result<(TranslatorView, ()), TranslationError> {
        match self.arc_manager.translate_call_deref(places, self.net) {
            Err(error) => Err(error),
            Ok(((arc_manager, net), _)) => Ok(
                (
                    TranslatorView { net, arc_manager, ..self }.with_memory(
                        pass_handles(self.top().memory, args, destination),
                    ),
                    (),
                ),
            ),
        }
    }

    /// The state in which the translation of a call of a function with blocks has
    /// started: the places of its blocks are in the net, and the call is the
    /// innermost. It fails where the program has no such function, and where as
    /// many calls are being translated as the program has functions.
    pub open spec fn push_function_to_call_stack(
        self,
        program: Program,
        function_def_id: usize,
        function_name: Seq<char>,
        start_place: PlaceId,
        end_place: PlaceId,
        cleanup_place: PlaceId,
    ) -> Result<(TranslatorView, ()), TranslationError> {
        if function_def_id >= program.functions@.len() {
            Err(TranslationError::MalformedProgram)
        } else if self.call_stack.len() >= program.functions@.len() {
            Err(TranslationError::CallDepthExceeded)
        } else {
            match MirFunctionView::new_spec(
                function_def_id,
                function_name,
                start_place,
                end_place,
                cleanup_place,
                program.functions@[function_def_id as int].blocks@.len(),
                self.net,
            ) {
                Err(error) => Err(error),
                Ok((net, function)) => Ok(
                    (
                        TranslatorView { net, call_stack: self.call_stack.push(function), ..self },
                        (),
                    ),
                ),
            }
        }
    }

    /// The state after the call that is being translated has gone through the
    /// statements of its active block from the given position on: each statement
    /// adds a transition and a place, and a statement that makes an alias hands on
    /// the handles.
    pub open spec fn translate_statements(self, statements: Seq<Statement>, from: int) -> Result<
        (TranslatorView, ()),
        TranslationError,
    >
        decreases statements.len() - from,
    {
        if from < 0 || from >= statements.len() {
            Ok((self, ()))
        } else {
            match self.top().add_statement(from as usize, self.net) {
                Err(error) => Err(error),
                Ok(((function, net), _)) => {
                    let memory = match statements[from] {
                        Statement::Alias { target, source } => function.memory.alias(
                            target,
                            source,
                        ),
                        Statement::Other => function.memory,
                    };
                    self.with_net(net).with_top(
                        MirFunctionView { memory, ..function },
                    ).translate_statements(statements, from + 1)
                },
            }
        }
    }

    /// The state after a call. `depth` is the number of calls that are being
    /// translated.
    pub open spec fn call_function(
        self,
        program: Program,
        call: FunctionCallView,
        depth: nat,
    ) -> Result<(TranslatorView, ()), TranslationError>
        decreases program.functions@.len() - depth, 0nat, 0nat,
    {
        match call {
            FunctionCallView::Diverging { function_name, start_place } => match diverging_call_spec(
                self.net,
                start_place,
                diverging_call_transition_label_spec(function_name),
            ) {
                Err(error) => Err(error),
                Ok((net, _)) => Ok((self.with_net(net), ())),
            },
            FunctionCallView::Panic { function_name, start_place } => match self.net.connect(
                start_place,
                self.program_panic,
                panic_transition_label_spec(function_name),
            ) {
                Err(error) => Err(error),
                Ok((net, _)) => Ok((self.with_net(net), ())),
            },
            FunctionCallView::Foreign { function_name, places } => match foreign_call_spec(
                self.net,
                places,
                foreign_call_labels_spec(function_name),
            ) {
                Err(error) => Err(error),
                Ok((net, _)) => Ok((self.with_net(net), ())),
            },
            FunctionCallView::MirFunction { function_def_id, function_name, places } => {
                if depth >= program.functions@.len() {
                    Err(TranslationError::CallDepthExceeded)
                } else {
                    match self.push_function_to_call_stack(
                        program,
                        function_def_id,
                        function_name,
                        places.start_place,
                        places.end_place,
                        match places.cleanup_place {
                            Some(cleanup) => cleanup,
                            None => self.top().cleanup_place,
                        },
                    ) {
                        Err(error) => Err(error),
                        Ok((pushed, _)) => pushed.translate_top_call_stack(
                            program,
                            function_def_id,
                            depth + 1,
                        ),
                    }
                }
            },
            FunctionCallView::MutexNew { destination, places } => self.call_mutex_new(
                destination,
                places,
            ),
            FunctionCallView::MutexLock { args, destination, places } => self.call_mutex_lock(
                args,
                destination,
                places,
            ),
            FunctionCallView::Drop { function_name, args, places } => self.call_drop(
                function_name,
                args,
                places,
            ),
            FunctionCallView::ThreadSpawn { args, destination, places } => self.call_thread_spawn(
                args,
                destination,
                places,
            ),
            FunctionCallView::ThreadJoin { args, places } => self.call_thread_join(args, places),
            FunctionCallView::CondvarNew { destination, places } => self.call_condvar_new(
                destination,
                places,
            ),
            FunctionCallView::CondvarWait { args, destination, places } => self.call_condvar_wait(
                args,
                destination,
                places,
            ),
            FunctionCallView::CondvarNotify { args, places } => self.call_condvar_notify(
                args,
                places,
            ),
            FunctionCallView::ArcNew { args, destination, places } => self.call_arc_new(
                args,
                destination,
                places,
            ),
            FunctionCallView::ArcClone { args, destination, places } => self.call_arc_clone(
                args,
                destination,
                places,
            ),
            FunctionCallView::ArcDeref { args, destination, places } => self.call_arc_deref(
                args,
                destination,
                places,
            ),
        }
    }

    /// The state after the terminator of a block of the call that is being
    /// translated.
    pub open spec fn translate_terminator(
        self,
        program: Program,
        function: usize,
        block: usize,
        depth: nat,
    ) -> Result<(TranslatorView, ()), TranslationError>
        decreases program.functions@.len() - depth, 1nat, 0nat,
    {
        match program.functions@[function as int].blocks@[block as int].terminator {
            Terminator::Goto { target } => match self.top().goto(target, self.net) {
                Err(error) => Err(error),
                Ok((net, _)) => Ok((self.with_net(net), ())),
            },
            Terminator::Switch { targets } => match self.top().switch_int(targets@, 0, self.net) {
                Err(error) => Err(error),
                Ok((net, _)) => Ok((self.with_net(net), ())),
            },
            Terminator::Call {
                callee,
                args,
                destination,
                target,
                cleanup,
            } => match self.prepare_function_call(
                program,
                callee,
                args@,
                destination,
                target,
                cleanup,
            ) {
                Err(error) => Err(error),
                Ok((counted, call)) => counted.call_function(program, call, depth),
            },
            Terminator::Return => match self.top().return_statement(self.net) {
                Err(error) => Err(error),
                Ok((net, _)) => Ok((self.with_net(net), ())),
            },
            Terminator::Unwind => match self.top().unwind(self.net) {
                Err(error) => Err(error),
                Ok((net, _)) => Ok((self.with_net(net), ())),
            },
            Terminator::Unreachable => Ok((self, ())),
        }
    }

    /// The state after a block of the call that is being translated: its
    /// statements, then its terminator.
    pub open spec fn translate_block(
        self,
        program: Program,
        function: usize,
        block: usize,
        depth: nat,
    ) -> Result<(TranslatorView, ()), TranslationError>
        decreases program.functions@.len() - depth, 2nat, 0nat,
    {
        match self.with_top(self.top().start_basic_block(block)).translate_statements(
            program.functions@[function as int].blocks@[block as int].statements@,
            0,
        ) {
            Err(error) => Err(error),
            Ok((stated, _)) => stated.translate_terminator(program, function, block, depth),
        }
    }

    /// The state after the blocks of the call that is being translated, from the
    /// given block on, in the order of the function.
    pub open spec fn translate_blocks(
        self,
        program: Program,
        function: usize,
        from: nat,
        depth: nat,
    ) -> Result<(TranslatorView, ()), TranslationError>
        decreases
            program.functions@.len() - depth,
            3nat,
            program.functions@[function as int].blocks@.len() - from,
    {
        if from >= program.functions@[function as int].blocks@.len() {
            Ok((self, ()))
        } else {
            match self.translate_block(program, function, from as usize, depth) {
                Err(error) => Err(error),
                Ok((next, _)) => next.translate_blocks(program, function, from + 1, depth),
            }
        }
    }

    /// The state after the innermost call, which is a call of the given function,
    /// has been translated: all its blocks are in the net, and the call is no
    /// longer among those that are being translated.
    pub open spec fn translate_top_call_stack(
        self,
        program: Program,
        function: usize,
        depth: nat,
    ) -> Result<(TranslatorView, ()), TranslationError>
        decreases program.functions@.len() - depth, 4nat, 0nat,
    {
        match self.translate_blocks(program, function, 0, depth) {
            Err(error) => Err(error),
            Ok((done, _)) => Ok(
                (TranslatorView { call_stack: done.call_stack.drop_last(), ..done }, ()),
            ),
        }
    }

    /// The state after the translation of a function as the outermost call,
    /// between the given places. The function of the program entry receives no
    /// mutexes, and its places are not looked at. The function of a thread finds
    /// in its memory the mutexes that the thread received: of its places that hold
    /// a mutex, those that lie in what the closure captured are linked to them, in
    /// their order. It fails with [`TranslationError::MissingCapture`] where the
    /// thread received fewer mutexes than there are such places.
    #[verifier::opaque]
    pub open spec fn translate_root(
        self,
        program: Program,
        function: usize,
        start_place: PlaceId,
        end_place: PlaceId,
        mutexes: Option<Seq<MutexRef>>,
    ) -> Result<(TranslatorView, ()), TranslationError> {
        if function >= program.functions@.len() {
            Err(TranslationError::MalformedProgram)
        } else {
            match self.next_instance(program, function) {
                Err(error) => Err(error),
                Ok((counted, function_name)) => match counted.push_function_to_call_stack(
                    program,
                    function,
                    function_name,
                    start_place,
                    end_place,
                    self.program_panic,
                ) {
                    Err(error) => Err(error),
                    Ok((pushed, _)) => match mutexes {
                        None => pushed.translate_top_call_stack(
                            program,
                            function,
                            pushed.call_stack.len(),
                        ),
                        Some(received) => {
                            let captures = captured_places(
                                program.functions@[function as int].mutex_places@,
                            );
                            if captures.len() > received.len() {
                                Err(TranslationError::MissingCapture)
                            } else {
                                pushed.with_memory(
                                    move_mutexes_spec(received, pushed.top().memory, captures, 0),
                                ).translate_top_call_stack(
                                    program,
                                    function,
                                    pushed.call_stack.len(),
                                )
                            }
                        },
                    },
                }
            }
        }
    }

    /// The state after the translation of a thread: its start place and its end
    /// place are in the net, joined to its spawn transition and to its join
    /// transition, and its function is translated between them.
    #[verifier::opaque]
    pub open spec fn translate_thread(
        self,
        program: Program,
        thread: ThreadView,
    ) -> Result<(TranslatorView, ()), TranslationError> {
        match thread.span.prepare_for_translation_spec(self.net) {
            Err(error) => Err(error),
            Ok((net, (function, start_place, end_place))) => self.with_net(net).translate_root(
                program,
                function,
                start_place,
                end_place,
                Some(thread.mutexes),
            ),
        }
    }

    /// The state after the threads that have not been translated yet, and those
    /// that they spawn, have been translated, in the order in which they were
    /// spawned. `fuel` bounds the number of threads.
    pub open spec fn translate_threads(self, program: Program, fuel: nat) -> Result<
        (TranslatorView, ()),
        TranslationError,
    >
        decreases fuel,
    {
        if fuel == 0 {
            Ok((self, ()))
        } else {
            match self.thread_manager.pop_thread() {
                (_, None) => Ok((self, ())),
                (thread_manager, Some(thread)) => match (TranslatorView {
                    thread_manager,
                    ..self
                }).translate_thread(program, thread) {
                    Err(error) => Err(error),
                    Ok((done, _)) => done.translate_threads(program, (fuel - 1) as nat),
                },
            }
        }
    }

    /// The state after the translation of the program: the entry function is
    /// translated between the start place and the end place of the program, then the
    /// threads. It fails with [`TranslationError::NoEntryFunction`] where the program
    /// has no entry function, and with [`TranslationError::MalformedProgram`] where
    /// it names what it does not have.
    pub open spec fn run(self, program: Program) -> Result<(TranslatorView, ()), TranslationError> {
        match program.entry {
            None => Err(TranslationError::NoEntryFunction),
            Some(entry) => if !program.wf() {
                Err(TranslationError::MalformedProgram)
            } else {
                match self.translate_root(
                    program,
                    entry,
                    self.program_start,
                    self.program_end,
                    None,
                ) {
                    Err(error) => Err(error),
                    Ok((done, _)) => done.translate_threads(
                        program,
                        (usize::MAX - done.thread_manager.translated) as nat,
                    ),
                }
            },
        }
    }
}

} // verus!
