//! The translation of the outermost calls: the program entry and the functions of the threads.

use crate::error_handling::TranslationError;
use crate::petri_net_interface::{agrees, lemma_extends_transitive, PlaceId, TransitionId};
use crate::naming::thread::start_place_label_spec;
use crate::translator::model::{
    lemma_seals_kept,
    lemma_tidy_after_prepare,
    lemma_tidy_step,
    TranslatorView,
};
use crate::translator::sync::thread::{closure_captures, Thread};
use crate::translator::Translator;
use vstd::prelude::*;

verus! {

broadcast use lemma_extends_transitive;

impl<'a> Translator<'a> {
    /// Translates a function of the program as the outermost call, between the
    /// given places. The mutexes of a thread move into the memory of the call; the
    /// function of the program entry comes without a thread.
    pub(super) fn translate_root(
        &mut self,
        function: usize,
        start_place: PlaceId,
        end_place: PlaceId,
        thread: Option<Thread>,
    ) -> (result: Result<(), TranslationError>)
        requires
            old(self).wf(),
            old(self).program().wf(),
            old(self)@.call_stack.len() == 0,
            old(self)@.net.has_place(start_place),
            old(self)@.net.has_place(end_place),
        ensures
            final(self).program() == old(self).program(),
            final(self).err() == old(self).err(),
            agrees(
                old(self)@.translate_root(
                    old(self).program(),
                    function,
                    start_place,
                    end_place,
                    match thread {
                        Some(thread) => Some(thread@.mutexes),
                        None => None,
                    },
                ),
                result,
                final(self)@,
            ),
            result.is_ok() ==> final(self).wf()
                && final(self)@.grown_but(old(self)@, start_place)
                && final(self)@.call_stack.len() == 0,
    {
        reveal(TranslatorView::translate_root);
        let program = self.program;
        if function >= program.functions.len() {
            return Err(TranslationError::MalformedProgram);
        }
        let function_name = match self.next_instance_name(function) {
            Ok(function_name) => function_name,
            Err(error) => {
                return Err(error);
            },
        };
        let ghost named = self@;
        if let Err(error) = self.push_function_to_call_stack(
            function,
            function_name,
            start_place,
            end_place,
            self.program_panic,
        ) {
            return Err(error);
        }
        let ghost pushed = self@;
        if let Some(thread) = thread {
            let mut thread = thread;
            let places = &program.functions[function].mutex_places;
            if closure_captures(places).len() > thread.mutexes.len() {
                return Err(TranslationError::MissingCapture);
            }
            let current_function = self.call_stack.peek_mut();
            thread.move_mutexes(&mut current_function.memory, places);
        }
        let ghost moved = self@;
        proof {
            assert(self@.call_stack =~= pushed.with_memory(self@.top().memory).call_stack);
            assert forall|i: int| 0 <= i < self@.call_stack.len() implies (
            #[trigger] self@.call_stack[i]).wf(self@.net) by {
                assert(pushed.call_stack[i].wf(pushed.net));
            }
            lemma_seals_kept(moved, pushed);
            lemma_tidy_step(moved, pushed);
        }
        let outcome = self.translate_top_call_stack();
        proof {
            if outcome.is_ok() {
                assert forall|sealed: Set<int>| #[trigger]
                    old(self)@.apart(sealed) && !sealed.contains(
                        start_place.index as int,
                    ) implies self@.apart(sealed) && self@.keeps(old(self)@, sealed) by {
                    assert(named.apart(sealed) && named.keeps(old(self)@, sealed));
                    assert(pushed.apart(sealed) && pushed.keeps(named, sealed));
                    assert(moved.apart(sealed) && moved.keeps(pushed, sealed));
                    assert(self@.apart(sealed) && self@.keeps(moved, sealed));
                }
            }
        }
        outcome
    }

    /// Translates a thread: adds its start place and its end place to the net and
    /// translates its function between them. When the thread is translated, the
    /// only arc that leaves its end place leads to its join transition, if it has
    /// one, and the translation draws no arc from its end place any more.
    pub(super) fn translate_thread(&mut self, thread: Thread) -> (result: Result<
        (),
        TranslationError,
    >)
        requires
            old(self).wf(),
            old(self).program().wf(),
            old(self)@.call_stack.len() == 0,
            thread@.span.wf(old(self)@.net),
            old(self)@.thread_manager.translated >= 1,
            thread@ == old(self)@.thread_manager.threads[old(self)@.thread_manager.translated
                - 1],
        ensures
            final(self).program() == old(self).program(),
            final(self).err() == old(self).err(),
            agrees(old(self)@.translate_thread(old(self).program(), thread@), result, final(self)@),
            result.is_ok() && old(self)@.tidy_at(old(self)@.thread_manager.translated - 1)
                ==> final(self)@.tidy(),
            result.is_ok() ==> final(self).wf()
                && final(self)@.grown(old(self)@)
                && final(self)@.call_stack.len() == 0,
            result.is_ok() ==> final(self)@.end_place_wired(
                thread@,
                old(self)@.net.places.len() as int + 1,
            ) && final(self)@.apart(set![old(self)@.net.places.len() as int + 1]),
    {
        reveal(TranslatorView::translate_thread);
        let (thread_function_def_id, thread_start_place, thread_end_place) =
            match thread.prepare_for_translation(&mut self.net) {
            Ok(prepared) => prepared,
            Err(error) => {
                return Err(error);
            },
        };
        // The number of places fits in a `usize`.
        let _ = self.net.place_count();
        let ghost prepared = self@;
        let ghost end: int = old(self)@.net.places.len() as int + 1;
        proof {
            let number = old(self)@.thread_manager.translated - 1;
            self.lemma_net_grown(old(self)@);
            assert(old(self)@.thread_manager.threads[number].span.index == number);
            if old(self)@.tidy_at(number) {
                lemma_tidy_after_prepare(prepared, old(self)@, number);
            }
            if old(self)@.tidy() {
                assert(old(self)@.thread_tidy(number, number + 1));
                let (from, to, start) = choose|from: int, to: int, start: int| #[trigger]
                    old(self)@.spawn_arcs(number, from, to, start, number + 1);
                assert(old(self)@.net.places[start] == start_place_label_spec(number as nat));
                assert(false);
            }
            thread@.span.lemma_thread_boundary(old(self)@.net);
            assert(thread_end_place.index == end);
            assert forall|t: int| #[trigger]
                prepared.net.arcs_in.contains((end, t)) <==> (
                thread@.span.join_transition matches Some(join) && join.index == t) by {
                if 0 <= t <= usize::MAX {
                    let transition = TransitionId { index: t as usize };
                    assert(prepared.net.has_arc_in(thread_end_place, transition)
                        <==> thread@.span.join_transition == Some(transition));
                }
            }
            assert(prepared.end_place_wired(thread@, end));
            assert(prepared.apart(set![end])) by {
                assert forall|m: int|
                    0 <= m < prepared.mutex_manager.mutexes.len() implies !set![end].contains(
                    (#[trigger] prepared.mutex_manager.mutexes[m]).unlocked.index as int,
                ) && !set![end].contains(prepared.mutex_manager.mutexes[m].locked.index as int) by {
                    assert(old(self)@.mutex_manager.mutexes[m].wf(old(self)@.net));
                }
                assert forall|c: int|
                    0 <= c < prepared.condvar_manager.condvars.len() implies !set![end].contains(
                    (#[trigger] prepared.condvar_manager.condvars[c]).wait.index as int,
                ) && !set![end].contains(
                    prepared.condvar_manager.condvars[c].notify.index as int,
                ) by {
                    assert(old(self)@.condvar_manager.condvars[c].wf(old(self)@.net));
                }
            }
        }
        let outcome = self.translate_root(
            thread_function_def_id,
            thread_start_place,
            thread_end_place,
            Some(thread),
        );
        proof {
            if outcome.is_ok() {
                assert(self@.apart(set![end]) && self@.keeps(prepared, set![end]));
                assert forall|t: int| #[trigger]
                    self@.net.arcs_in.contains((end, t)) <==> (
                    thread@.span.join_transition matches Some(join) && join.index == t) by {
                    assert(self@.net.arcs_in.contains((end, t)) <==> prepared.net.arcs_in.contains(
                        (end, t),
                    ));
                }
                assert forall|sealed: Set<int>| #[trigger]
                    old(self)@.apart(sealed) implies self@.apart(sealed) && self@.keeps(
                    old(self)@,
                    sealed,
                ) by {
                    assert(prepared.apart(sealed) && prepared.keeps(old(self)@, sealed));
                    assert(!sealed.contains(thread_start_place.index as int));
                }
            }
        }
        outcome
    }
}

} // verus!
