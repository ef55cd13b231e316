//! Submodule for the main translation logic.
//!
//! The `Translator` translates the functions of a program in approximately the order
//! they are called. For this purpose a call stack is used to represent the functions
//! being translated, similar to how the processor executes the code.
//!
//! Each function consists of one or more basic blocks.
//! Each basic block consists of 0 or more statements and exactly one terminator.
//!
//! Each call of a function receives a name of its own, made of the name of the
//! function and the number of calls of it that came before. The labels of the
//! places and transitions of the call are made from this name, so that each call,
//! block and statement receives a different label.
//!
//! What each step of the translation does to the net is said in the `model`
//! submodule. The functions of this module do what the model says.

pub mod function_call;
mod blocks;
mod frames;
mod functions;
mod calls;
mod handlers;
mod roots;
mod terminators;
mod threads;
pub mod mir_function;
pub mod model;
pub mod special_function;
pub mod sync;
pub mod thread;

use crate::control_flow::Program;
use crate::error_handling::TranslationError;
use crate::naming::decimal;
use crate::naming::program::{PROGRAM_END, PROGRAM_PANIC, PROGRAM_START};
use crate::petri_net_interface::{agrees, lemma_extends_transitive, Net, NetView, PlaceId};
use crate::stack::Stack;
use crate::translator::mir_function::MirFunction;
use crate::translator::model::{
    instance_name_spec,
    lemma_initial_marking,
    lemma_marking_kept,
    only_marked_place,
    TranslatorView,
};
use crate::translator::sync::arc_manager::ArcManager;
use crate::translator::sync::condvar_manager::CondvarManager;
use crate::translator::sync::mutex_manager::MutexManager;
use crate::translator::sync::thread_manager::ThreadManager;
use vstd::prelude::*;
use vstd::string::*;

verus! {

broadcast use lemma_extends_transitive;

/// The translation of one program: the net, the calls that are being translated and
/// the synchronization primitives found so far.
pub struct Translator<'a> {
    program: &'a Program,
    err: Option<TranslationError>,
    net: Net,
    program_start: PlaceId,
    program_end: PlaceId,
    program_panic: PlaceId,
    call_stack: Stack<MirFunction>,
    call_counter: Vec<usize>,
    mutex_manager: MutexManager,
    thread_manager: ThreadManager,
    condvar_manager: CondvarManager,
    arc_manager: ArcManager,
}

impl<'a> View for Translator<'a> {
    type V = TranslatorView;

    closed spec fn view(&self) -> TranslatorView {
        TranslatorView {
            net: self.net@,
            program_start: self.program_start,
            program_end: self.program_end,
            program_panic: self.program_panic,
            call_stack: self.call_stack@.map_values(|function: MirFunction| function@),
            call_counter: self.call_counter@,
            mutex_manager: self.mutex_manager@,
            thread_manager: self.thread_manager@,
            condvar_manager: self.condvar_manager@,
            arc_manager: self.arc_manager@,
        }
    }
}

/// Makes the name of one call of a function.
pub fn instance_name(function_name: &str, index: usize) -> (name: String)
    ensures
        name@ == instance_name_spec(function_name@, index),
{
    let mut name = String::from_str(function_name);
    name.append("_");
    name.append(decimal(index).as_str());
    name
}

impl<'a> Translator<'a> {
    /// The program that is translated.
    pub closed spec fn program(&self) -> Program {
        *self.program
    }

    /// The error with which the translation failed, if it did.
    pub closed spec fn err(&self) -> Option<TranslationError> {
        self.err
    }

    /// The state of the translator is well formed.
    pub closed spec fn wf(&self) -> bool {
        self.net.wf() && self@.wf(*self.program)
    }

    /// Creates a new `Translator` for a program.
    /// The initial Petri net contains three places representing the program start state,
    /// the program end state and the abnormal end state after a panic. Only the
    /// first of them holds a token.
    pub fn new(program: &'a Program) -> (translator: Self)
        ensures
            translator.wf(),
            translator.program() == *program,
            translator.err().is_none(),
            translator@ == TranslatorView::initial(program.functions@.len()),
            only_marked_place(translator@.net, translator@.program_start),
            translator@.tidy(),
    {
        proof {
            reveal_strlit("PROGRAM_PANIC");
            reveal_strlit("PROGRAM_END");
            reveal_strlit("PROGRAM_START");
            assert(PROGRAM_PANIC@[8] != PROGRAM_START@[8]);
            assert(PROGRAM_PANIC@.len() != PROGRAM_END@.len());
            assert(PROGRAM_START@.len() != PROGRAM_END@.len());
        }
        let mut net = Net::new();
        let program_panic = net.add_place(PROGRAM_PANIC);
        let program_end = net.add_place(PROGRAM_END);
        let program_start = net.add_place(PROGRAM_START);
        net.add_token(&program_start, 1);
        let mut call_counter: Vec<usize> = Vec::new();
        let mut function: usize = 0;
        while function < program.functions.len()
            invariant
                function <= program.functions@.len(),
                call_counter@ == Seq::new(function as nat, |i: int| 0usize),
            decreases program.functions@.len() - function,
        {
            call_counter.push(0);
            assert(call_counter@ =~= Seq::new((function + 1) as nat, |i: int| 0usize));
            function += 1;
        }
        let translator = Self {
            program,
            err: None,
            net,
            program_start,
            program_end,
            program_panic,
            call_stack: Stack::new(),
            call_counter,
            mutex_manager: MutexManager::new(),
            thread_manager: ThreadManager::new(),
            condvar_manager: CondvarManager::new(),
            arc_manager: ArcManager::new(),
        };
        proof {
            translator.net.lemma_labels_distinct();
            assert(translator@.call_stack =~= Seq::empty());
            lemma_initial_marking(program.functions@.len());
        }
        translator
    }

    /// Returns the result of the translation, i.e. the Petri net.
    /// The ownership is transferred to the caller, and an empty net is left behind.
    ///
    /// # Errors
    ///
    /// If the translation failed, then its error is returned.
    pub fn get_result(&mut self) -> (result: Result<Net, TranslationError>)
        ensures
            match old(self).err() {
                Some(error) => result matches Err(failure) && failure == error && final(self)@
                    == old(self)@,
                None => result matches Ok(net) && net@ == old(self)@.net && final(self)@
                    == old(self)@.with_net(NetView::empty()) && (old(self).wf() ==> net.wf()
                    && net@.wf()),
            },
            final(self).err() == old(self).err(),
            final(self).program() == old(self).program(),
    {
        match self.err {
            Some(error) => Err(error),
            None => {
                let mut net = Net::new();
                core::mem::swap(&mut self.net, &mut net);
                Ok(net)
            },
        }
    }

    /// Translates the program to a Petri net.
    ///
    /// When the translation is done, no call is being translated and no thread is
    /// left to translate. The net has only grown: its labels are still pairwise
    /// distinct, and the start place of the program is still the only place with a
    /// token. The net holds the end place of every thread that was translated, and
    /// the only arc that leaves it leads to the join transition of the thread; no
    /// arc leaves the end place of a thread that is never joined. The spawn
    /// transition of every thread takes a token from one place and puts a token on
    /// two: the place at which the spawning function goes on and the start place of
    /// the thread. The join transition of a thread puts a token on one place and
    /// takes a token from two: the place at which the join is called and the end
    /// place of the thread.
    ///
    /// # Errors
    ///
    /// If the translation fails, then its error is set, and the net is given up.
    /// Where the program has no entry function, or names a function or a block that
    /// it does not have, nothing is translated: the net, the call stack and the
    /// synchronization primitives stay as they were.
    pub fn run(&mut self)
        requires
            old(self).wf(),
            old(self)@.call_stack.len() == 0,
        ensures
            final(self).program() == old(self).program(),
            match old(self)@.run(old(self).program()) {
                Ok((state, _)) => {
                    &&& final(self).err() == old(self).err()
                    &&& final(self)@ == state
                    &&& final(self).wf()
                    &&& state.net.wf()
                    &&& state.net.extends(old(self)@.net)
                    &&& state.call_stack.len() == 0
                    &&& state.thread_manager.translated == state.thread_manager.threads.len()
                    &&& forall|k: int|
                        old(self)@.thread_manager.translated <= k
                            < state.thread_manager.threads.len()
                            ==> #[trigger] state.thread_is_wired(k)
                    &&& old(self)@.tidy() ==> state.tidy()
                    &&& state.program_start == old(self)@.program_start
                    &&& only_marked_place(old(self)@.net, old(self)@.program_start)
                        ==> only_marked_place(state.net, state.program_start)
                },
                Err(error) => final(self).err() == Some(error),
            },
            old(self).program().entry.is_none() || !old(self).program().wf() ==> final(self)@
                == old(self)@ && final(self).wf(),
    {
        let outcome = self.run_to_completion();
        proof {
            if outcome.is_ok() && only_marked_place(old(self)@.net, old(self)@.program_start) {
                lemma_marking_kept(self@.net, old(self)@.net, old(self)@.program_start);
            }
        }
        if let Err(error) = outcome {
            self.err = Some(error);
        }
    }

    /// Translates the entry function of the program, then the threads.
    fn run_to_completion(&mut self) -> (result: Result<(), TranslationError>)
        requires
            old(self).wf(),
            old(self)@.call_stack.len() == 0,
        ensures
            final(self).program() == old(self).program(),
            final(self).err() == old(self).err(),
            agrees(old(self)@.run(old(self).program()), result, final(self)@),
            result.is_ok() ==> final(self).wf() && final(self)@.call_stack.len() == 0
                && final(self)@.net.extends(old(self)@.net)
                && final(self)@.program_start == old(self)@.program_start
                && final(self)@.thread_manager.translated
                == final(self)@.thread_manager.threads.len(),
            result.is_ok() ==> forall|k: int|
                old(self)@.thread_manager.translated <= k
                    < final(self)@.thread_manager.threads.len()
                    ==> #[trigger] final(self)@.thread_is_wired(k),
            result.is_ok() && old(self)@.tidy() ==> final(self)@.tidy(),
            old(self).program().entry.is_none() || !old(self).program().wf() ==> final(self)@
                == old(self)@ && final(self).wf(),
    {
        let program = self.program;
        let Some(main_function_id) = program.entry else {
            return Err(TranslationError::NoEntryFunction);
        };
        if !program.check() {
            return Err(TranslationError::MalformedProgram);
        }
        if let Err(error) = self.translate_root(
            main_function_id,
            self.program_start,
            self.program_end,
            None,
        ) {
            return Err(error);
        }
        self.translate_threads()
    }
}

} // verus!
