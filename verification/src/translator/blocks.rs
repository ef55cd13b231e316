//! The translation of a block of the function on top of the call stack.

use crate::control_flow::Statement;
use crate::error_handling::TranslationError;
use crate::petri_net_interface::{agrees, lemma_extends_transitive};
use crate::translator::mir_function::MirFunctionView;
use crate::translator::model::{lemma_seals_kept, lemma_tidy_step, TranslatorView};
use crate::translator::Translator;
use vstd::prelude::*;

verus! {

broadcast use lemma_extends_transitive;

impl<'a> Translator<'a> {
    /// Translates a block of the function on top of the call stack: its statements,
    /// then its terminator.
    pub(super) fn translate_block(&mut self, block: usize) -> (result: Result<(), TranslationError>)
        requires
            old(self).wf(),
            old(self).program().wf(),
            old(self)@.call_stack.len() >= 1,
            old(self)@.call_stack.len() <= old(self).program().functions@.len(),
            block < old(self).program().functions@[old(self)@.top().def_id as int].blocks@.len(),
        ensures
            final(self).program() == old(self).program(),
            final(self).err() == old(self).err(),
            agrees(
                old(self)@.translate_block(
                    old(self).program(),
                    old(self)@.top().def_id,
                    block,
                    old(self)@.call_stack.len(),
                ),
                result,
                final(self)@,
            ),
            result.is_ok() ==> final(self).wf() && final(self)@.follows(old(self)@),
        decreases
            old(self).program().functions@.len() - old(self)@.call_stack.len(),
            2nat,
            0nat,
    {
        let program = self.program;
        let function = self.call_stack.top().def_id;
        self.call_stack.peek_mut().start_basic_block(block);
        let ghost started = self@;
        proof {
            assert(started.call_stack =~= old(self)@.with_top(
                old(self)@.top().start_basic_block(block),
            ).call_stack);
            assert forall|i: int| 0 <= i < started.call_stack.len() implies (
            #[trigger] started.call_stack[i]).wf(started.net) by {
                assert(old(self)@.call_stack[i].wf(old(self)@.net));
            }
            assert(started.top().active_place == old(self)@.top().block_places[block as int]);
            lemma_seals_kept(started, old(self)@);
            lemma_tidy_step(started, old(self)@);
            assert(started.follows(old(self)@));
        }
        let statements = &program.functions[function].blocks[block].statements;
        let mut i: usize = 0;
        while i < statements.len()
            invariant
                self.wf(),
                self.program() == old(self).program(),
                self.program() == *program,
                self.err() == old(self).err(),
                i <= statements@.len(),
                function == old(self)@.top().def_id,
                started == old(self)@.with_top(old(self)@.top().start_basic_block(block)),
                statements@ == program.functions@[function as int].blocks@[block as int].statements@,
                self@.follows(started),
                started.follows(old(self)@),
                self@.call_stack.len() >= 1,
                started.translate_statements(statements@, 0) == self@.translate_statements(
                    statements@,
                    i as int,
                ),
            decreases statements@.len() - i,
        {
            let ghost before = self@;
            let current_function = self.call_stack.peek_mut();
            let added = current_function.add_statement(i, &mut self.net);
            if let Err(error) = added {
                proof {
                    assert(before.top().add_statement(i, before.net) is Err);
                    assert(before.translate_statements(statements@, i as int) is Err);
                }
                return Err(error);
            }
            match statements[i] {
                Statement::Alias { target, source } => {
                    current_function.memory.link_alias(target, source);
                },
                Statement::Other => {},
            }
            // The numbers of places and of transitions fit in a `usize`.
            let _ = self.net.place_count();
            let _ = self.net.transition_count();
            proof {
                let (function_view, net) = before.top().add_statement(i, before.net).unwrap().0;
                let memory = match statements@[i as int] {
                    Statement::Alias { target, source } => function_view.memory.alias(
                        target,
                        source,
                    ),
                    Statement::Other => function_view.memory,
                };
                assert(self@.call_stack =~= before.with_net(net).with_top(
                    MirFunctionView { memory, ..function_view },
                ).call_stack);
                assert forall|k: int| 0 <= k < self@.call_stack.len() implies (
                #[trigger] self@.call_stack[k]).wf(self@.net) by {
                    assert(before.call_stack[k].wf(before.net));
                }
                lemma_seals_kept(self@, before);
                lemma_tidy_step(self@, before);
                assert(self@.follows(before));
            }
            i += 1;
        }
        proof {
            assert(self@.top().same_call(started.top()));
            assert(self@.translate_statements(statements@, statements@.len() as int) == Ok::<
                (TranslatorView, ()),
                TranslationError,
            >((self@, ())));
        }
        self.translate_terminator(block)
    }
}

} // verus!
