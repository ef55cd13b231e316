//! The translation of function calls, by their kind.

use crate::control_flow::{Location, Operand};
use crate::error_handling::TranslationError;
use crate::naming::function::{
    foreign_call_transition_label,
    foreign_call_unwind_transition_label,
};
use crate::petri_net_interface::{agrees, lemma_extends_transitive};
use crate::translator::function_call::{FunctionCall, FunctionPlaces};
use crate::translator::special_function::{
    call_diverging_function,
    call_foreign_function,
    call_panic_function,
    is_panic_function,
};
use crate::translator::sync::{
    is_arc_clone,
    is_arc_deref,
    is_arc_new,
    is_condvar_new,
    is_condvar_notify,
    is_condvar_wait,
    is_drop,
    is_mutex_lock,
    is_mutex_new,
    is_thread_join,
    is_thread_spawn,
};
use crate::translator::Translator;
use vstd::prelude::*;

verus! {

broadcast use lemma_extends_transitive;

impl<'a> Translator<'a> {
    /// Prepares the function call depending on the type of function.
    /// The return `FunctionCall` enum has all the information required for the function call.
    ///
    /// This is the handler for the terminator that calls a function.
    pub(super) fn prepare_function_call(
        &mut self,
        callee: usize,
        args: &'a Vec<Operand>,
        destination: Location,
        target: Option<usize>,
        cleanup: Option<usize>,
    ) -> (result: Result<FunctionCall<'a>, TranslationError>)
        requires
            old(self).wf(),
            old(self)@.call_stack.len() >= 1,
            callee < old(self).program().functions@.len(),
            target matches Some(block) ==> block < old(self)@.top().block_places.len(),
            cleanup matches Some(block) ==> block < old(self)@.top().block_places.len(),
        ensures
            final(self).program() == old(self).program(),
            final(self).err() == old(self).err(),
            match old(self)@.prepare_function_call(
                old(self).program(),
                callee,
                args@,
                destination,
                target,
                cleanup,
            ) {
                Ok((state, call)) => result matches Ok(prepared)
                    && prepared@ == call
                    && final(self)@ == state
                    && final(self).wf()
                    && final(self)@.follows(old(self)@)
                    && call.wf(state.net)
                    && call.start_place() == state.top().active_place,
                Err(error) => result matches Err(failure) && failure == error,
            },
    {
        let program = self.program;
        let function_name = match self.next_instance_name(callee) {
            Ok(function_name) => function_name,
            Err(error) => {
                return Err(error);
            },
        };
        let name = program.functions[callee].name.as_str();
        let current_function = self.call_stack.top();
        proof {
            assert(self@.call_stack[self@.call_stack.len() - 1].wf(self@.net));
        }

        if is_panic_function(name) {
            let start_place = current_function.get_start_place_for_function_call();
            return Ok(FunctionCall::Panic { function_name, start_place });
        }
        let Some(return_block) = target else {
            let start_place = current_function.get_start_place_for_function_call();
            return Ok(FunctionCall::Diverging { function_name, start_place });
        };
        let places = current_function.get_place_refs_for_function_call(return_block, cleanup);
        let direct = FunctionPlaces {
            start_place: places.start_place,
            end_place: places.end_place,
            cleanup_place: None,
        };

        if program.functions[callee].foreign {
            return Ok(FunctionCall::Foreign { function_name, places });
        }
        if is_mutex_new(name) {
            return Ok(FunctionCall::MutexNew { destination, places });
        }
        if is_mutex_lock(name) {
            return Ok(FunctionCall::MutexLock { args, destination, places });
        }
        if is_drop(name) {
            return Ok(FunctionCall::Drop { function_name, args, places });
        }
        if is_thread_spawn(name) {
            return Ok(FunctionCall::ThreadSpawn { args, destination, places: direct });
        }
        if is_thread_join(name) {
            return Ok(FunctionCall::ThreadJoin { args, places: direct });
        }
        if is_condvar_new(name) {
            return Ok(FunctionCall::CondvarNew { destination, places });
        }
        if is_condvar_wait(name) {
            return Ok(FunctionCall::CondvarWait { args, destination, places });
        }
        if is_condvar_notify(name) {
            return Ok(FunctionCall::CondvarNotify { args, places });
        }
        if is_arc_new(name) {
            return Ok(FunctionCall::ArcNew { args, destination, places });
        }
        if is_arc_clone(name) {
            return Ok(FunctionCall::ArcClone { args, destination, places });
        }
        if is_arc_deref(name) {
            return Ok(FunctionCall::ArcDeref { args, destination, places });
        }
        // Default case: A function with blocks to walk
        Ok(FunctionCall::MirFunction { function_def_id: callee, function_name, places })
    }

    /// Jumps from the current function on the top of the stack
    /// to a new function called inside the current function.
    ///
    /// Translates functions in a shortened way in the following cases:
    /// - Foreign functions, which have no blocks to walk.
    /// - Functions of a synchronization primitive such as `std::sync::Mutex::lock`.
    /// - Functions that do not return (diverging functions).
    /// - Functions that represent a `panic` i.e., functions that starts an unwind of the stack.
    pub(super) fn call_function(&mut self, function_call: FunctionCall<'a>) -> (result: Result<
        (),
        TranslationError,
    >)
        requires
            old(self).wf(),
            old(self).program().wf(),
            old(self)@.call_stack.len() >= 1,
            old(self)@.call_stack.len() <= old(self).program().functions@.len(),
            function_call@.wf(old(self)@.net),
            function_call@.start_place() == old(self)@.top().active_place,
        ensures
            final(self).program() == old(self).program(),
            final(self).err() == old(self).err(),
            agrees(
                old(self)@.call_function(
                    old(self).program(),
                    function_call@,
                    old(self)@.call_stack.len(),
                ),
                result,
                final(self)@,
            ),
            result.is_ok() ==> final(self).wf() && final(self)@.follows(old(self)@),
        decreases
            old(self).program().functions@.len() - old(self)@.call_stack.len(),
            0nat,
            0nat,
    {
        proof {
            assert(old(self)@.call_stack[old(self)@.call_stack.len() - 1].wf(old(self)@.net));
        }
        let outcome = match function_call {
            FunctionCall::Diverging { function_name, start_place } => {
                match call_diverging_function(&start_place, function_name.as_str(), &mut self.net) {
                    Ok(_) => Ok(()),
                    Err(error) => Err(error),
                }
            },
            FunctionCall::Foreign { function_name, places } => {
                let labels = (
                    foreign_call_transition_label(function_name.as_str()),
                    foreign_call_unwind_transition_label(function_name.as_str()),
                );
                match call_foreign_function(&places, &labels, &mut self.net) {
                    Ok(_) => Ok(()),
                    Err(error) => Err(error),
                }
            },
            FunctionCall::MirFunction { function_def_id, function_name, places } => {
                if self.call_stack.len() >= self.program.functions.len() {
                    return Err(TranslationError::CallDepthExceeded);
                }
                let cleanup_place = match places.cleanup_place {
                    Some(cleanup) => cleanup,
                    None => self.call_stack.top().cleanup_place,
                };
                if let Err(error) = self.push_function_to_call_stack(
                    function_def_id,
                    function_name,
                    places.start_place,
                    places.end_place,
                    cleanup_place,
                ) {
                    return Err(error);
                }
                let ghost pushed = self@;
                if let Err(error) = self.translate_top_call_stack() {
                    return Err(error);
                }
                proof {
                    assert(self@.call_stack == old(self)@.call_stack);
                    assert forall|k: int| 0 <= k < self@.call_stack.len() implies (
                    #[trigger] self@.call_stack[k]).wf(self@.net) by {
                        assert(old(self)@.call_stack[k].wf(old(self)@.net));
                    }
                }
                return Ok(());
            },
            FunctionCall::MutexNew { destination, places } => {
                return self.call_mutex_new(destination, &places);
            },
            FunctionCall::MutexLock { args, destination, places } => {
                return self.call_mutex_lock(args, destination, &places);
            },
            FunctionCall::Drop { function_name, args, places } => {
                return self.call_drop(function_name.as_str(), args, &places);
            },
            FunctionCall::Panic { function_name, start_place } => {
                match call_panic_function(
                    &start_place,
                    &self.program_panic,
                    function_name.as_str(),
                    &mut self.net,
                ) {
                    Ok(_) => Ok(()),
                    Err(error) => Err(error),
                }
            },
            FunctionCall::ThreadSpawn { args, destination, places } => {
                return self.call_thread_spawn(args, destination, &places);
            },
            FunctionCall::ThreadJoin { args, places } => {
                return self.call_thread_join(args, &places);
            },
            FunctionCall::CondvarNew { destination, places } => {
                return self.call_condvar_new(destination, &places);
            },
            FunctionCall::CondvarWait { args, destination, places } => {
                return self.call_condvar_wait(args, destination, &places);
            },
            FunctionCall::CondvarNotify { args, places } => {
                return self.call_condvar_notify(args, &places);
            },
            FunctionCall::ArcNew { args, destination, places } => {
                return self.call_arc_new(args, destination, &places);
            },
            FunctionCall::ArcClone { args, destination, places } => {
                return self.call_arc_clone(args, destination, &places);
            },
            FunctionCall::ArcDeref { args, destination, places } => {
                return self.call_arc_deref(args, destination, &places);
            },
        };
        // The number of transitions fits in a `usize`.
        let _ = self.net.transition_count();
        proof {
            if outcome.is_ok() {
                self.lemma_frames_kept(old(self)@);
            }
        }
        outcome
    }
}

} // verus!
