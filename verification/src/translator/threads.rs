//! The translation of the threads, once the program entry has been translated.

use crate::error_handling::TranslationError;
use crate::petri_net_interface::{agrees, lemma_extends_transitive};
use crate::translator::model::TranslatorView;
use crate::translator::Translator;
use vstd::prelude::*;

verus! {

broadcast use lemma_extends_transitive;

impl<'a> Translator<'a> {
    /// Main translation loop for the threads.
    /// Gets a thread from the thread manager and translates it, until no thread is
    /// left. In the end the net holds the end place of every thread that was
    /// translated, and the only arc that leaves it leads to the join transition of
    /// the thread, if it has one.
    pub(super) fn translate_threads(&mut self) -> (result: Result<(), TranslationError>)
        requires
            old(self).wf(),
            old(self).program().wf(),
            old(self)@.call_stack.len() == 0,
        ensures
            final(self).program() == old(self).program(),
            final(self).err() == old(self).err(),
            agrees(
                old(self)@.translate_threads(
                    old(self).program(),
                    (usize::MAX - old(self)@.thread_manager.translated) as nat,
                ),
                result,
                final(self)@,
            ),
            result.is_ok() ==> final(self).wf()
                && final(self)@.call_stack.len() == 0
                && final(self)@.net.extends(old(self)@.net)
                && final(self)@.program_start == old(self)@.program_start
                && final(self)@.thread_manager.translated
                == final(self)@.thread_manager.threads.len(),
            result.is_ok() ==> forall|k: int|
                old(self)@.thread_manager.translated <= k
                    < final(self)@.thread_manager.threads.len()
                    ==> #[trigger] final(self)@.thread_is_wired(k),
            result.is_ok() && old(self)@.tidy() ==> final(self)@.tidy(),
    {
        let ghost mut ends: Seq<int> = Seq::empty();
        loop
            invariant
                self.wf(),
                old(self)@.tidy() ==> self@.tidy(),
                old(self)@.thread_manager.translated <= self@.thread_manager.translated,
                ends.len() == self@.thread_manager.translated
                    - old(self)@.thread_manager.translated,
                forall|j: int|
                    0 <= j < ends.len() ==> self@.end_place_wired(
                        self@.thread_manager.threads[old(self)@.thread_manager.translated + j],
                        #[trigger] ends[j],
                    ) && self@.apart(set![ends[j]]),
                self.program() == old(self).program(),
                self.program().wf(),
                self.err() == old(self).err(),
                self@.call_stack.len() == 0,
                self@.net.extends(old(self)@.net),
                self@.program_start == old(self)@.program_start,
                old(self)@.translate_threads(
                    old(self).program(),
                    (usize::MAX - old(self)@.thread_manager.translated) as nat,
                ) == self@.translate_threads(
                    self.program(),
                    (usize::MAX - self@.thread_manager.translated) as nat,
                ),
            decreases usize::MAX - self@.thread_manager.translated,
        {
            let ghost before = self@;
            let Some(thread) = self.thread_manager.pop_thread() else {
                proof {
                    assert forall|k: int|
                        old(self)@.thread_manager.translated <= k
                            < self@.thread_manager.threads.len() implies
                        #[trigger] self@.thread_is_wired(k) by {
                        let j = k - old(self)@.thread_manager.translated;
                        assert(self@.end_place_wired(self@.thread_manager.threads[k], ends[j]));
                    }
                }
                return Ok(());
            };
            proof {
                assert(before.thread_manager.threads[before.thread_manager.translated as int].span.wf(
                    before.net,
                ));
                self.lemma_popped(before);
            }
            let ghost popped = self@;
            proof {
                let done = before.thread_manager.translated as int;
                if before.tidy() {
                    assert forall|k: int|
                        0 <= k < popped.thread_manager.threads.len() implies
                        #[trigger] popped.thread_tidy(k, done) by {
                        assert(before.thread_tidy(k, done));
                        let (a, c, s) = choose|a: int, c: int, s: int| #[trigger]
                            before.spawn_arcs(k, a, c, s, done);
                        assert(popped.spawn_arcs(k, a, c, s, done));
                        if let Some(join) = popped.thread_manager.threads[k].span.join_transition {
                            let (b, d, e) = choose|b: int, d: int, e: int| #[trigger]
                                before.join_arcs(k, join.index as int, b, d, e, done);
                            assert(popped.join_arcs(k, join.index as int, b, d, e, done));
                        }
                    }
                    assert(popped.tidy_at(done));
                }
            }
            let translated = self.translate_thread(thread);
            proof {
                let fuel = (usize::MAX - before.thread_manager.translated) as nat;
                assert(fuel > 0);
                assert(before.thread_manager.pop_thread().1 == Some(thread@));
                assert(before.translate_threads(self.program(), fuel) == match popped.translate_thread(
                    self.program(),
                    thread@,
                ) {
                    Err(error) => Err(error),
                    Ok((done, _)) => done.translate_threads(self.program(), (fuel - 1) as nat),
                });
            }
            if let Err(error) = translated {
                return Err(error);
            }
            proof {
                let first = old(self)@.thread_manager.translated;
                let end: int = popped.net.places.len() as int + 1;
                assert forall|j: int| 0 <= j < ends.len() implies self@.end_place_wired(
                    self@.thread_manager.threads[first + j],
                    #[trigger] ends[j],
                ) && self@.apart(set![ends[j]]) by {
                    let sealed = set![ends[j]];
                    assert(before.apart(sealed));
                    assert(popped.apart(sealed));
                    assert(self@.apart(sealed) && self@.keeps(popped, sealed));
                    assert(before.end_place_wired(before.thread_manager.threads[first + j], ends[j]));
                    assert(self@.thread_manager.threads[first + j]
                        == popped.thread_manager.threads[first + j]);
                    assert forall|t: int| #[trigger]
                        self@.net.arcs_in.contains((ends[j], t)) <==> before.net.arcs_in.contains(
                            (ends[j], t),
                        ) by {}
                }
                assert(self@.thread_manager.threads[before.thread_manager.translated as int]
                    == popped.thread_manager.threads[before.thread_manager.translated as int]);
                assert(popped.thread_manager.threads[before.thread_manager.translated as int]
                    == thread@);
                ends = ends.push(end);
            }
        }
    }

    /// Where only a thread has been handed out, the state is still well formed.
    proof fn lemma_popped(&self, before: TranslatorView)
        requires
            before.wf(self.program()),
            self.net.wf(),
            before.thread_manager.translated < before.thread_manager.threads.len(),
            self@ == (TranslatorView {
                thread_manager: before.thread_manager.pop_thread().0,
                ..before
            }),
        ensures
            self.wf(),
    {
        assert forall|i: int| 0 <= i < self@.thread_manager.threads.len() implies (
        #[trigger] self@.thread_manager.threads[i]).span.wf(self@.net)
            && self@.thread_manager.threads[i].span.index == i by {
            assert(before.thread_manager.threads[i].span.wf(before.net));
        }
    }
}

} // verus!
