//! The translation of the terminator of a block.

use crate::control_flow::Terminator;
use crate::error_handling::TranslationError;
use crate::petri_net_interface::{agrees, lemma_extends_transitive};
use crate::translator::Translator;
use vstd::prelude::*;

verus! {

broadcast use lemma_extends_transitive;

impl<'a> Translator<'a> {
    /// Translates the terminator of a block of the function on top of the call
    /// stack.
    pub(super) fn translate_terminator(&mut self, block: usize) -> (result: Result<(), TranslationError>)
        requires
            old(self).wf(),
            old(self).program().wf(),
            old(self)@.call_stack.len() >= 1,
            old(self)@.call_stack.len() <= old(self).program().functions@.len(),
            block < old(self).program().functions@[old(self)@.top().def_id as int].blocks@.len(),
        ensures
            final(self).program() == old(self).program(),
            final(self).err() == old(self).err(),
            agrees(
                old(self)@.translate_terminator(
                    old(self).program(),
                    old(self)@.top().def_id,
                    block,
                    old(self)@.call_stack.len(),
                ),
                result,
                final(self)@,
            ),
            result.is_ok() ==> final(self).wf() && final(self)@.follows(old(self)@),
        decreases
            old(self).program().functions@.len() - old(self)@.call_stack.len(),
            1nat,
            0nat,
    {
        let program = self.program;
        let function = self.call_stack.top().def_id;
        proof {
            assert(old(self)@.call_stack[old(self)@.call_stack.len() - 1].wf(old(self)@.net));
            assert(program.functions@[function as int].wf(program.functions@.len()));
            assert(program.functions@[function as int].blocks@[block as int].terminator.wf(
                program.functions@[function as int].blocks@.len(),
                program.functions@.len(),
            ));
        }
        let outcome = match &program.functions[function].blocks[block].terminator {
            Terminator::Goto { target } => {
                match self.call_stack.top().goto(*target, &mut self.net) {
                    Ok(_) => Ok(()),
                    Err(error) => Err(error),
                }
            },
            Terminator::Switch { targets } => self.call_stack.top().switch_int(
                targets,
                &mut self.net,
            ),
            Terminator::Call { callee, args, destination, target, cleanup } => {
                let function_call = match self.prepare_function_call(
                    *callee,
                    args,
                    *destination,
                    *target,
                    *cleanup,
                ) {
                    Ok(function_call) => function_call,
                    Err(error) => {
                        return Err(error);
                    },
                };
                return self.call_function(function_call);
            },
            Terminator::Return => {
                match self.call_stack.top().return_statement(&mut self.net) {
                    Ok(_) => Ok(()),
                    Err(error) => Err(error),
                }
            },
            Terminator::Unwind => {
                match self.call_stack.top().unwind(&mut self.net) {
                    Ok(_) => Ok(()),
                    Err(error) => Err(error),
                }
            },
            Terminator::Unreachable => Ok(()),
        };
        // The number of transitions fits in a `usize`.
        let _ = self.net.transition_count();
        proof {
            if outcome.is_ok() {
                self.lemma_frames_kept(old(self)@);
            }
        }
        outcome
    }
}

} // verus!
