//! The walk through the blocks of the function on top of the call stack.

use crate::error_handling::TranslationError;
use crate::petri_net_interface::{agrees, lemma_extends_transitive};
use crate::translator::model::{lemma_tidy_step, TranslatorView};
use crate::translator::Translator;
use vstd::prelude::*;

verus! {

broadcast use lemma_extends_transitive;

impl<'a> Translator<'a> {
    /// Main translation loop.
    /// Translates the function from the top of the call stack, block by block.
    /// When a call to another function happens, this method will be called again
    /// to jump to the new function. Eventually a "leaf function" will be reached,
    /// the functions will exit and the elements from the stack will be popped in order.
    pub(super) fn translate_top_call_stack(&mut self) -> (result: Result<(), TranslationError>)
        requires
            old(self).wf(),
            old(self)@.call_stack.len() >= 1,
            old(self)@.call_stack.len() <= old(self).program().functions@.len(),
            old(self).program().wf(),
        ensures
            final(self).program() == old(self).program(),
            final(self).err() == old(self).err(),
            agrees(
                old(self)@.translate_top_call_stack(
                    old(self).program(),
                    old(self)@.top().def_id,
                    old(self)@.call_stack.len(),
                ),
                result,
                final(self)@,
            ),
            result.is_ok() ==> final(self).wf()
                && final(self)@.grown(old(self)@)
                && final(self)@.call_stack == old(self)@.call_stack.drop_last(),
        decreases
            old(self).program().functions@.len() - old(self)@.call_stack.len(),
            4nat,
            0nat,
    {
        let program = self.program;
        let function = self.call_stack.top().def_id;
        let ghost depth = self@.call_stack.len();
        let mut block: usize = 0;
        while block < program.functions[function].blocks.len()
            invariant
                self.wf(),
                self.program() == old(self).program(),
                self.program() == *program,
                program.wf(),
                self.err() == old(self).err(),
                function < program.functions@.len(),
                block <= program.functions@[function as int].blocks@.len(),
                self@.walking(function, depth),
                depth == old(self)@.call_stack.len(),
                depth <= program.functions@.len(),
                self@.follows(old(self)@),
                old(self)@.translate_blocks(*program, function, 0, depth)
                    == self@.translate_blocks(*program, function, block as nat, depth),
            decreases program.functions@[function as int].blocks@.len() - block,
        {
            let ghost before = self@;
            if let Err(error) = self.translate_block(block) {
                return Err(error);
            }
            block += 1;
        }
        let ghost done = self@;
        self.call_stack.pop();
        proof {
            assert(self@.call_stack =~= done.call_stack.drop_last());
            assert(done.call_stack.drop_last() =~= old(self)@.call_stack.drop_last());
            assert(done.translate_blocks(*program, function, block as nat, depth) == Ok::<
                (TranslatorView, ()),
                TranslationError,
            >((done, ())));
            assert forall|k: int| 0 <= k < self@.call_stack.len() implies (
            #[trigger] self@.call_stack[k]).wf(self@.net) && self@.call_stack[k].def_id
                < program.functions@.len() && self@.call_stack[k].block_places.len()
                == program.functions@[self@.call_stack[k].def_id as int].blocks@.len() by {
                assert(done.call_stack[k].wf(done.net));
            }
            lemma_tidy_step(self@, done);
        }
        Ok(())
    }
}

} // verus!
