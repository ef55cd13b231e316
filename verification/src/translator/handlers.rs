//! The translation of the calls of functions of synchronization primitives.

use crate::control_flow::{Location, Operand};
use crate::error_handling::TranslationError;
use crate::naming::function::{
    foreign_call_transition_label,
    foreign_call_unwind_transition_label,
};
use crate::petri_net_interface::{agrees, lemma_extends_transitive};
use crate::translator::function_call::{extract_nth_argument, FunctionPlaces};
use crate::naming::sync::call_transition_labels_spec;
use crate::translator::function_call::argument_location;
use crate::translator::mir_function::memory::lookup;
use crate::translator::model::{
    lemma_call_transition_arcs,
    lemma_tidy_after_join,
    lemma_tidy_after_spawn,
    lemma_seals_kept,
    lemma_tidy_step,
    old_arcs_kept,
    pass_handles,
    TranslatorView,
};
use crate::translator::special_function::call_foreign_function;
use crate::translator::sync::{MUTEX_LOCK, MUTEX_NEW, THREAD_JOIN, THREAD_SPAWN};
use crate::translator::Translator;
use vstd::prelude::*;

verus! {

broadcast use lemma_extends_transitive;

impl<'a> Translator<'a> {
    /// Where only the net has changed, and it has grown, the state is still well
    /// formed, and the places from which the translation drew no arc any more are
    /// still such places.
    pub(super) proof fn lemma_net_grown(&self, before: TranslatorView)
        requires
            before.wf(self.program()),
            self.net.wf(),
            self@.net.extends(before.net),
            self@ == before.with_net(self@.net),
            self@.new_arcs_reached(before),
        ensures
            self.wf(),
            self@.seals_kept(before),
            self@.threads_kept(before),
    {
        assert forall|k: int| 0 <= k < self@.call_stack.len() implies (
        #[trigger] self@.call_stack[k]).wf(self@.net) by {
            assert(before.call_stack[k].wf(before.net));
        }
        self.net.lemma_labels_distinct();
        lemma_seals_kept(self@, before);
    }

    /// Where only the net has changed, and it has grown, the calls that are being
    /// translated still refer to places of the net.
    pub(super) proof fn lemma_frames_kept(&self, before: TranslatorView)
        requires
            before.wf(self.program()),
            self.net.wf(),
            self@.net.extends(before.net),
            self@ == before.with_net(self@.net),
            self@.new_arcs_reached(before),
            old_arcs_kept(self@.net, before.net),
        ensures
            self.wf(),
            self@.follows(before),
    {
        assert forall|k: int| 0 <= k < self@.call_stack.len() implies (
        #[trigger] self@.call_stack[k]).wf(self@.net) by {
            assert(before.call_stack[k].wf(before.net));
        }
        self.net.lemma_labels_distinct();
        lemma_seals_kept(self@, before);
        lemma_tidy_step(self@, before);
    }

    /// Where the net has grown and the memory of the innermost call has changed,
    /// the calls that are being translated still refer to places of the net.
    pub(super) proof fn lemma_memory_changed(&self, before: TranslatorView)
        requires
            before.wf(self.program()),
            before.call_stack.len() >= 1,
            self.net.wf(),
            self@.net.extends(before.net),
            self@.call_stack == before.with_memory(self@.top().memory).call_stack,
            self@.program_start == before.program_start,
            self@.program_end == before.program_end,
            self@.program_panic == before.program_panic,
            self@.call_counter == before.call_counter,
            self@.mutex_manager.wf(self@.net),
            self@.thread_manager.wf(self@.net),
            self@.condvar_manager.wf(self@.net),
            self@.thread_manager.translated == before.thread_manager.translated,
            self@.threads_kept(before),
            self@.managers_kept_or_new(before),
            self@.new_arcs_reached(before),
            old_arcs_kept(self@.net, before.net),
            self@.thread_manager.threads == before.thread_manager.threads || (before.tidy()
                ==> self@.tidy()),
        ensures
            self.wf(),
            self@.follows(before),
    {
        assert forall|k: int| 0 <= k < self@.call_stack.len() implies (
        #[trigger] self@.call_stack[k]).wf(self@.net) && self@.call_stack[k].def_id
            < self.program().functions@.len() && self@.call_stack[k].block_places.len()
            == self.program().functions@[self@.call_stack[k].def_id as int].blocks@.len() by {
            assert(before.call_stack[k].wf(before.net));
        }
        self.net.lemma_labels_distinct();
        lemma_seals_kept(self@, before);
        if self@.thread_manager.threads == before.thread_manager.threads {
            lemma_tidy_step(self@, before);
        }
    }

    /// Handler for the case `FunctionCall::MutexNew`.
    pub(super) fn call_mutex_new(
        &mut self,
        destination: Location,
        places: &FunctionPlaces,
    ) -> (result: Result<(), TranslationError>)
        requires
            old(self).wf(),
            old(self)@.call_stack.len() >= 1,
            places.wf(old(self)@.net),
            places.start_place == old(self)@.top().active_place,
        ensures
            final(self).program() == old(self).program(),
            final(self).err() == old(self).err(),
            agrees(old(self)@.call_mutex_new(destination, *places), result, final(self)@),
            result.is_ok() ==> final(self).wf() && final(self)@.follows(old(self)@),
    {
        let transition_function_call = match self.mutex_manager.translate_function_call(
            MUTEX_NEW,
            places,
            &mut self.net,
        ) {
            Ok(transition) => transition,
            Err(error) => {
                return Err(error);
            },
        };
        let no_args: Vec<Operand> = Vec::new();
        let current_function = self.call_stack.peek_mut();
        let outcome = self.mutex_manager.translate_function_side_effects(
            MUTEX_NEW,
            &no_args,
            destination,
            &transition_function_call,
            &mut self.net,
            &mut current_function.memory,
        );
        // The number of places fits in a `usize`.
        let _ = self.net.place_count();
        let _ = self.net.transition_count();
        proof {
            if outcome.is_ok() {
                assert(self@.call_stack =~= old(self)@.with_memory(self@.top().memory).call_stack);
                self.lemma_memory_changed(old(self)@);
            }
        }
        outcome
    }

    /// Handler for the case `FunctionCall::MutexLock`.
    pub(super) fn call_mutex_lock(
        &mut self,
        args: &Vec<Operand>,
        destination: Location,
        places: &FunctionPlaces,
    ) -> (result: Result<(), TranslationError>)
        requires
            old(self).wf(),
            old(self)@.call_stack.len() >= 1,
            places.wf(old(self)@.net),
            places.start_place == old(self)@.top().active_place,
        ensures
            final(self).program() == old(self).program(),
            final(self).err() == old(self).err(),
            agrees(old(self)@.call_mutex_lock(args@, destination, *places), result, final(self)@),
            result.is_ok() ==> final(self).wf() && final(self)@.follows(old(self)@),
    {
        let transition_function_call = match self.mutex_manager.translate_function_call(
            MUTEX_LOCK,
            places,
            &mut self.net,
        ) {
            Ok(transition) => transition,
            Err(error) => {
                return Err(error);
            },
        };
        let current_function = self.call_stack.peek_mut();
        let outcome = self.mutex_manager.translate_function_side_effects(
            MUTEX_LOCK,
            args,
            destination,
            &transition_function_call,
            &mut self.net,
            &mut current_function.memory,
        );
        // The number of places fits in a `usize`.
        let _ = self.net.place_count();
        let _ = self.net.transition_count();
        proof {
            if outcome.is_ok() {
                assert(self@.call_stack =~= old(self)@.with_memory(self@.top().memory).call_stack);
                self.lemma_memory_changed(old(self)@);
            }
        }
        outcome
    }

    /// Handler for the case `FunctionCall::Drop`.
    pub(super) fn call_drop(
        &mut self,
        function_name: &str,
        args: &Vec<Operand>,
        places: &FunctionPlaces,
    ) -> (result: Result<(), TranslationError>)
        requires
            old(self).wf(),
            old(self)@.call_stack.len() >= 1,
            places.wf(old(self)@.net),
            places.start_place == old(self)@.top().active_place,
        ensures
            final(self).program() == old(self).program(),
            final(self).err() == old(self).err(),
            agrees(old(self)@.call_drop(function_name@, args@, *places), result, final(self)@),
            result.is_ok() ==> final(self).wf() && final(self)@.follows(old(self)@),
    {
        let labels = (
            foreign_call_transition_label(function_name),
            foreign_call_unwind_transition_label(function_name),
        );
        let transition_function_call = match call_foreign_function(places, &labels, &mut self.net) {
            Ok(transition) => transition,
            Err(error) => {
                return Err(error);
            },
        };
        let current_function = self.call_stack.top();
        let outcome = self.mutex_manager.translate_drop_side_effects(
            args,
            &transition_function_call,
            &mut self.net,
            &current_function.memory,
        );
        // The number of transitions fits in a `usize`.
        let _ = self.net.transition_count();
        proof {
            if outcome.is_ok() {
                self.lemma_frames_kept(old(self)@);
            }
        }
        outcome
    }

    /// Handler for the case `FunctionCall::ThreadSpawn`.
    pub(super) fn call_thread_spawn(
        &mut self,
        args: &Vec<Operand>,
        destination: Location,
        places: &FunctionPlaces,
    ) -> (result: Result<(), TranslationError>)
        requires
            old(self).wf(),
            old(self)@.call_stack.len() >= 1,
            places.wf(old(self)@.net),
            places.start_place == old(self)@.top().active_place,
        ensures
            final(self).program() == old(self).program(),
            final(self).err() == old(self).err(),
            agrees(
                old(self)@.call_thread_spawn(args@, destination, *places),
                result,
                final(self)@,
            ),
            result.is_ok() ==> final(self).wf() && final(self)@.follows(old(self)@),
    {
        let transition_function_call = match self.thread_manager.translate_call_spawn(
            places,
            &mut self.net,
        ) {
            Ok(transition) => transition,
            Err(error) => {
                return Err(error);
            },
        };
        let current_function = self.call_stack.peek_mut();
        let outcome = self.thread_manager.translate_side_effects_spawn(
            args,
            destination,
            transition_function_call,
            &mut current_function.memory,
        );
        // The number of transitions fits in a `usize`.
        let _ = self.net.transition_count();
        proof {
            if outcome.is_ok() {
                assert(self@.call_stack =~= old(self)@.with_memory(self@.top().memory).call_stack);
                assert forall|i: int| 0 <= i < self@.thread_manager.threads.len() implies (
                #[trigger] self@.thread_manager.threads[i]).span.wf(self@.net)
                    && self@.thread_manager.threads[i].span.index == i by {
                    if i < old(self)@.thread_manager.threads.len() {
                        assert(old(self)@.thread_manager.threads[i].span.wf(old(self)@.net));
                    }
                }
                if old(self)@.tidy() {
                    lemma_call_transition_arcs(
                        old(self)@.net,
                        *places,
                        call_transition_labels_spec(
                            THREAD_SPAWN@,
                            old(self)@.thread_manager.threads.len(),
                        ),
                    );
                    lemma_tidy_after_spawn(
                        self@,
                        old(self)@,
                        places.start_place.index as int,
                        places.end_place.index as int,
                    );
                }
                self.lemma_memory_changed(old(self)@);
            }
        }
        outcome
    }

    /// Handler for the case `FunctionCall::ThreadJoin`.
    pub(super) fn call_thread_join(
        &mut self,
        args: &Vec<Operand>,
        places: &FunctionPlaces,
    ) -> (result: Result<(), TranslationError>)
        requires
            old(self).wf(),
            old(self)@.call_stack.len() >= 1,
            places.wf(old(self)@.net),
            places.start_place == old(self)@.top().active_place,
        ensures
            final(self).program() == old(self).program(),
            final(self).err() == old(self).err(),
            agrees(old(self)@.call_thread_join(args@, *places), result, final(self)@),
            result.is_ok() ==> final(self).wf() && final(self)@.follows(old(self)@),
    {
        let transition_function_call = match self.thread_manager.translate_call_join(
            places,
            &mut self.net,
        ) {
            Ok(transition) => transition,
            Err(error) => {
                return Err(error);
            },
        };
        let current_function = self.call_stack.top();
        let outcome = self.thread_manager.translate_side_effects_join(
            args,
            transition_function_call,
            &current_function.memory,
        );
        // The number of transitions fits in a `usize`.
        let _ = self.net.transition_count();
        proof {
            if outcome.is_ok() {
                assert(self@.call_stack =~= old(self)@.with_memory(self@.top().memory).call_stack);
                assert forall|i: int| 0 <= i < self@.thread_manager.threads.len() implies (
                #[trigger] self@.thread_manager.threads[i]).span.wf(self@.net)
                    && self@.thread_manager.threads[i].span.index == i by {
                    assert(old(self)@.thread_manager.threads[i].span.wf(old(self)@.net));
                }
                if old(self)@.tidy() {
                    lemma_call_transition_arcs(
                        old(self)@.net,
                        *places,
                        call_transition_labels_spec(
                            THREAD_JOIN@,
                            old(self)@.thread_manager.join_counter as nat,
                        ),
                    );
                    let thread_ref = lookup(
                        old(self)@.top().memory.join_handles,
                        argument_location(args@, 0).unwrap(),
                    ).unwrap();
                    lemma_tidy_after_join(
                        self@,
                        old(self)@,
                        thread_ref.0 as int,
                        places.start_place.index as int,
                        places.end_place.index as int,
                    );
                }
                self.lemma_memory_changed(old(self)@);
            }
        }
        outcome
    }

    /// Handler for the case `FunctionCall::CondvarNew`.
    pub(super) fn call_condvar_new(&mut self, destination: Location, places: &FunctionPlaces) -> (result:
        Result<(), TranslationError>)
        requires
            old(self).wf(),
            old(self)@.call_stack.len() >= 1,
            places.wf(old(self)@.net),
            places.start_place == old(self)@.top().active_place,
        ensures
            final(self).program() == old(self).program(),
            final(self).err() == old(self).err(),
            agrees(old(self)@.call_condvar_new(destination, *places), result, final(self)@),
            result.is_ok() ==> final(self).wf() && final(self)@.follows(old(self)@),
    {
        if let Err(error) = self.condvar_manager.translate_call_new(places, &mut self.net) {
            return Err(error);
        }
        let current_function = self.call_stack.peek_mut();
        let outcome = self.condvar_manager.translate_side_effects_new(
            destination,
            &mut self.net,
            &mut current_function.memory,
        );
        // The number of places fits in a `usize`.
        let _ = self.net.place_count();
        let _ = self.net.transition_count();
        proof {
            if outcome.is_ok() {
                assert(self@.call_stack =~= old(self)@.with_memory(self@.top().memory).call_stack);
                self.lemma_memory_changed(old(self)@);
            }
        }
        outcome
    }

    /// Handler for the case `FunctionCall::CondvarWait`.
    pub(super) fn call_condvar_wait(
        &mut self,
        args: &Vec<Operand>,
        destination: Location,
        places: &FunctionPlaces,
    ) -> (result: Result<(), TranslationError>)
        requires
            old(self).wf(),
            old(self)@.call_stack.len() >= 1,
            places.wf(old(self)@.net),
            places.start_place == old(self)@.top().active_place,
        ensures
            final(self).program() == old(self).program(),
            final(self).err() == old(self).err(),
            agrees(
                old(self)@.call_condvar_wait(args@, destination, *places),
                result,
                final(self)@,
            ),
            result.is_ok() ==> final(self).wf() && final(self)@.follows(old(self)@),
    {
        let (park, resume) = match self.condvar_manager.translate_call_wait(places, &mut self.net) {
            Ok(transitions) => transitions,
            Err(error) => {
                return Err(error);
            },
        };
        let current_function = self.call_stack.peek_mut();
        let outcome = self.condvar_manager.translate_side_effects_wait(
            args,
            destination,
            &park,
            &resume,
            &self.mutex_manager,
            &mut self.net,
            &mut current_function.memory,
        );
        // The number of transitions fits in a `usize`.
        let _ = self.net.transition_count();
        proof {
            if outcome.is_ok() {
                assert(self@.call_stack =~= old(self)@.with_memory(self@.top().memory).call_stack);
                self.lemma_memory_changed(old(self)@);
            }
        }
        outcome
    }

    /// Handler for the case `FunctionCall::CondvarNotify`.
    pub(super) fn call_condvar_notify(
        &mut self,
        args: &Vec<Operand>,
        places: &FunctionPlaces,
    ) -> (result: Result<(), TranslationError>)
        requires
            old(self).wf(),
            old(self)@.call_stack.len() >= 1,
            places.wf(old(self)@.net),
            places.start_place == old(self)@.top().active_place,
        ensures
            final(self).program() == old(self).program(),
            final(self).err() == old(self).err(),
            agrees(old(self)@.call_condvar_notify(args@, *places), result, final(self)@),
            result.is_ok() ==> final(self).wf() && final(self)@.follows(old(self)@),
    {
        let transition_function_call = match self.condvar_manager.translate_call_notify(
            places,
            &mut self.net,
        ) {
            Ok(transition) => transition,
            Err(error) => {
                return Err(error);
            },
        };
        let current_function = self.call_stack.top();
        let outcome = self.condvar_manager.translate_side_effects_notify(
            args,
            &transition_function_call,
            &mut self.net,
            &current_function.memory,
        );
        // The number of transitions fits in a `usize`.
        let _ = self.net.transition_count();
        proof {
            if outcome.is_ok() {
                assert(self@.call_stack =~= old(self)@.with_memory(self@.top().memory).call_stack);
                self.lemma_memory_changed(old(self)@);
            }
        }
        outcome
    }

    /// Hands the handles of the first argument of a call to its return value.
    pub(super) fn pass_handles(&mut self, args: &Vec<Operand>, destination: Location)
        requires
            old(self)@.call_stack.len() >= 1,
        ensures
            final(self).program() == old(self).program(),
            final(self).err() == old(self).err(),
            final(self)@ == old(self)@.with_memory(
                pass_handles(old(self)@.top().memory, args@, destination),
            ),
            final(self).net == old(self).net,
    {
        if let Some(source) = extract_nth_argument(args, 0) {
            let current_function = self.call_stack.peek_mut();
            current_function.memory.link_alias(destination, source);
        }
        proof {
            assert(self@.call_stack =~= old(self)@.with_memory(
                pass_handles(old(self)@.top().memory, args@, destination),
            ).call_stack);
        }
    }

    /// Handler for the case `FunctionCall::ArcNew`.
    pub(super) fn call_arc_new(
        &mut self,
        args: &Vec<Operand>,
        destination: Location,
        places: &FunctionPlaces,
    ) -> (result: Result<(), TranslationError>)
        requires
            old(self).wf(),
            old(self)@.call_stack.len() >= 1,
            places.wf(old(self)@.net),
            places.start_place == old(self)@.top().active_place,
        ensures
            final(self).program() == old(self).program(),
            final(self).err() == old(self).err(),
            agrees(old(self)@.call_arc_new(args@, destination, *places), result, final(self)@),
            result.is_ok() ==> final(self).wf() && final(self)@.follows(old(self)@),
    {
        if let Err(error) = self.arc_manager.translate_call_new(places, &mut self.net) {
            return Err(error);
        }
        self.pass_handles(args, destination);
        // The number of transitions fits in a `usize`.
        let _ = self.net.transition_count();
        proof {
            self.lemma_memory_changed(old(self)@);
        }
        Ok(())
    }

    /// Handler for the case `FunctionCall::ArcClone`.
    pub(super) fn call_arc_clone(
        &mut self,
        args: &Vec<Operand>,
        destination: Location,
        places: &FunctionPlaces,
    ) -> (result: Result<(), TranslationError>)
        requires
            old(self).wf(),
            old(self)@.call_stack.len() >= 1,
            places.wf(old(self)@.net),
            places.start_place == old(self)@.top().active_place,
        ensures
            final(self).program() == old(self).program(),
            final(self).err() == old(self).err(),
            agrees(old(self)@.call_arc_clone(args@, destination, *places), result, final(self)@),
            result.is_ok() ==> final(self).wf() && final(self)@.follows(old(self)@),
    {
        if let Err(error) = self.arc_manager.translate_call_clone(places, &mut self.net) {
            return Err(error);
        }
        self.pass_handles(args, destination);
        // The number of transitions fits in a `usize`.
        let _ = self.net.transition_count();
        proof {
            self.lemma_memory_changed(old(self)@);
        }
        Ok(())
    }

    /// Handler for the case `FunctionCall::ArcDeref`.
    pub(super) fn call_arc_deref(
        &mut self,
        args: &Vec<Operand>,
        destination: Location,
        places: &FunctionPlaces,
    ) -> (result: Result<(), TranslationError>)
        requires
            old(self).wf(),
            old(self)@.call_stack.len() >= 1,
            places.wf(old(self)@.net),
            places.start_place == old(self)@.top().active_place,
        ensures
            final(self).program() == old(self).program(),
            final(self).err() == old(self).err(),
            agrees(old(self)@.call_arc_deref(args@, destination, *places), result, final(self)@),
            result.is_ok() ==> final(self).wf() && final(self)@.follows(old(self)@),
    {
        if let Err(error) = self.arc_manager.translate_call_deref(places, &mut self.net) {
            return Err(error);
        }
        self.pass_handles(args, destination);
        // The number of transitions fits in a `usize`.
        let _ = self.net.transition_count();
        proof {
            self.lemma_memory_changed(old(self)@);
        }
        Ok(())
    }
}

} // verus!
