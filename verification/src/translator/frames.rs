//! The start of the translation of a call: its name and its place on the call stack.

use crate::error_handling::TranslationError;
use crate::naming::count_up;
use crate::petri_net_interface::{agrees, lemma_extends_transitive, PlaceId};
use crate::translator::mir_function::MirFunction;
use crate::translator::model::{lemma_tidy_step, TranslatorView};
use crate::translator::{instance_name, Translator};
use vstd::prelude::*;

verus! {

broadcast use lemma_extends_transitive;

impl<'a> Translator<'a> {
    /// Where the net has grown and the synchronization primitives are the same,
    /// they still refer to places and transitions of the net.
    pub(super) proof fn lemma_managers_kept(&self, before: TranslatorView)
        requires
            before.mutex_manager.wf(before.net),
            before.thread_manager.wf(before.net),
            before.condvar_manager.wf(before.net),
            self@.net.extends(before.net),
            self@.mutex_manager == before.mutex_manager,
            self@.thread_manager == before.thread_manager,
            self@.condvar_manager == before.condvar_manager,
        ensures
            self@.mutex_manager.wf(self@.net),
            self@.thread_manager.wf(self@.net),
            self@.condvar_manager.wf(self@.net),
    {
        assert forall|i: int| 0 <= i < self@.mutex_manager.mutexes.len() implies (
        #[trigger] self@.mutex_manager.mutexes[i]).wf(self@.net) by {
            assert(before.mutex_manager.mutexes[i].wf(before.net));
        }
        assert forall|i: int| 0 <= i < self@.condvar_manager.condvars.len() implies (
        #[trigger] self@.condvar_manager.condvars[i]).wf(self@.net) by {
            assert(before.condvar_manager.condvars[i].wf(before.net));
        }
        assert forall|i: int| 0 <= i < self@.thread_manager.threads.len() implies (
        #[trigger] self@.thread_manager.threads[i]).span.wf(self@.net)
            && self@.thread_manager.threads[i].span.index == i by {
            assert(before.thread_manager.threads[i].span.wf(before.net));
        }
    }

    /// Counts one more call of a function and makes the name of the call.
    pub(super) fn next_instance_name(&mut self, function: usize) -> (result: Result<
        String,
        TranslationError,
    >)
        requires
            old(self).wf(),
            function < old(self).program().functions@.len(),
        ensures
            final(self).program() == old(self).program(),
            final(self).err() == old(self).err(),
            match old(self)@.next_instance(old(self).program(), function) {
                Ok((state, name)) => result matches Ok(made) && made@ == name && final(self)@
                    == state && final(self).wf() && final(self)@.follows(old(self)@)
                    && final(self)@.net == old(self)@.net
                    && final(self)@.call_stack == old(self)@.call_stack,
                Err(error) => result matches Err(failure) && failure == error,
            },
    {
        let program = self.program;
        let seen = self.call_counter[function];
        self.call_counter.set(function, count_up(seen));
        proof {
            lemma_tidy_step(self@, old(self)@);
        }
        Ok(instance_name(program.functions[function].name.as_str(), seen))
    }

    /// Pushes a new function frame to the call stack.
    /// The call stack is the preferred way to pass information between `Translator` methods.
    pub(super) fn push_function_to_call_stack(
        &mut self,
        function_def_id: usize,
        function_name: String,
        start_place: PlaceId,
        end_place: PlaceId,
        cleanup_place: PlaceId,
    ) -> (result: Result<(), TranslationError>)
        requires
            old(self).wf(),
            old(self)@.net.has_place(start_place),
            old(self)@.net.has_place(end_place),
            old(self)@.net.has_place(cleanup_place),
        ensures
            final(self).program() == old(self).program(),
            final(self).err() == old(self).err(),
            agrees(
                old(self)@.push_function_to_call_stack(
                    old(self).program(),
                    function_def_id,
                    function_name@,
                    start_place,
                    end_place,
                    cleanup_place,
                ),
                result,
                final(self)@,
            ),
            result.is_ok() ==> final(self).wf(),
            result.is_ok() ==> final(self)@.grown_but(old(self)@, start_place),
            result.is_ok() ==> final(self)@.call_stack.drop_last() == old(self)@.call_stack,
            result.is_ok() ==> final(self)@.walking(
                function_def_id,
                old(self)@.call_stack.len() + 1,
            ),
            result.is_ok() ==> final(self)@.call_stack.len() <= old(self).program().functions@.len(),
    {
        let program = self.program;
        if function_def_id >= program.functions.len() {
            return Err(TranslationError::MalformedProgram);
        }
        if self.call_stack.len() >= program.functions.len() {
            return Err(TranslationError::CallDepthExceeded);
        }
        let function = match MirFunction::new(
            function_def_id,
            function_name,
            start_place,
            end_place,
            cleanup_place,
            program.functions[function_def_id].blocks.len(),
            &mut self.net,
        ) {
            Ok(function) => function,
            Err(error) => {
                return Err(error);
            },
        };
        self.call_stack.push(function);
        proof {
            assert(self@.call_stack =~= old(self)@.call_stack.push(function@));
            assert(self@.call_stack.drop_last() =~= old(self)@.call_stack);
            assert forall|i: int| 0 <= i < self@.call_stack.len() implies (
            #[trigger] self@.call_stack[i]).wf(self@.net) && self@.call_stack[i].def_id
                < program.functions@.len() && self@.call_stack[i].block_places.len()
                == program.functions@[self@.call_stack[i].def_id as int].blocks@.len() by {
                if i < old(self)@.call_stack.len() {
                    assert(old(self)@.call_stack[i].wf(old(self)@.net));
                }
            }
            self.lemma_managers_kept(old(self)@);
            self.net.lemma_labels_distinct();
            lemma_tidy_step(self@, old(self)@);
            assert forall|sealed: Set<int>| #[trigger]
                old(self)@.apart(sealed) && !sealed.contains(
                    start_place.index as int,
                ) implies self@.apart(sealed) && self@.keeps(old(self)@, sealed) by {
                assert forall|i: int| 0 <= i < self@.call_stack.len() implies (
                #[trigger] self@.call_stack[i]).apart(sealed) by {
                    if i < old(self)@.call_stack.len() {
                        assert(old(self)@.call_stack[i].apart(sealed));
                    }
                }
            }
        }
        Ok(())
    }
}

} // verus!
