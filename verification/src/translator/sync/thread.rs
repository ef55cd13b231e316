//! Representation of a thread to be translated later.
//!
//! A thread is a thread span together with the mutexes that the spawning
//! function handed to it. When the thread is translated, the mutexes move into
//! the memory of the function that the thread runs.

use crate::control_flow::Location;
use crate::error_handling::TranslationError;
use crate::petri_net_interface::{agrees, Net, PlaceId, TransitionId};
use crate::translator::mir_function::memory::{
    lemma_link_then_lookup,
    lookup,
    Memory,
    MemoryView,
    MutexEntries,
};
use crate::translator::sync::mutex_manager::MutexRef;
use crate::translator::thread::thread_span::ThreadSpan;
use vstd::prelude::*;

verus! {

#[derive(Debug)]
pub struct Thread {
    /// The spawn transition, the function, the join transition and the index.
    pub span: ThreadSpan,
    /// The mutexes passed to the thread.
    pub mutexes: MutexEntries,
}

/// The mathematical model of a [`Thread`].
pub struct ThreadView {
    pub span: ThreadSpan,
    pub mutexes: Seq<MutexRef>,
}

impl View for Thread {
    type V = ThreadView;

    open spec fn view(&self) -> ThreadView {
        ThreadView { span: self.span, mutexes: self.mutexes@ }
    }
}

/// The local variable in which a function that runs as a thread finds what its
/// closure captured.
pub const CAPTURES_LOCAL: usize = 1;

/// Of the places of a function that hold a mutex, those that lie in what the
/// closure captured, in the same order.
pub open spec fn captured_places(places: Seq<Location>) -> Seq<Location>
    decreases places.len(),
{
    if places.len() == 0 {
        Seq::empty()
    } else if places.last().local == CAPTURES_LOCAL {
        captured_places(places.drop_last()).push(places.last())
    } else {
        captured_places(places.drop_last())
    }
}

/// The memory after the mutexes have moved to the places from the given position
/// on: the place at a position receives the mutex at the same position. There are
/// at least as many mutexes as places.
pub open spec fn move_mutexes_spec(
    mutexes: Seq<MutexRef>,
    memory: MemoryView,
    captures: Seq<Location>,
    from: int,
) -> MemoryView
    decreases captures.len() - from,
{
    if from < 0 || from >= captures.len() {
        memory
    } else {
        move_mutexes_spec(
            mutexes,
            memory.link_mutex(captures[from], mutexes[from]),
            captures,
            from + 1,
        )
    }
}

/// Moving mutexes to places changes nothing but the links to mutexes of these
/// places, and a place that does not occur again behind its position is linked
/// to the mutex at its position.
pub proof fn lemma_move_mutexes_links(
    mutexes: Seq<MutexRef>,
    memory: MemoryView,
    captures: Seq<Location>,
    from: int,
)
    requires
        0 <= from <= captures.len() <= mutexes.len(),
    ensures
        move_mutexes_spec(mutexes, memory, captures, from).lock_guards == memory.lock_guards,
        move_mutexes_spec(mutexes, memory, captures, from).join_handles == memory.join_handles,
        move_mutexes_spec(mutexes, memory, captures, from).condvars == memory.condvars,
        forall|place: Location|
            (forall|i: int| from <= i < captures.len() ==> captures[i] != place) ==> lookup(
                move_mutexes_spec(mutexes, memory, captures, from).mutexes,
                place,
            ) == lookup(memory.mutexes, place),
        forall|i: int|
            from <= i < captures.len() && (forall|j: int|
                i < j < captures.len() ==> captures[j] != captures[i]) ==> lookup(
                move_mutexes_spec(mutexes, memory, captures, from).mutexes,
                #[trigger] captures[i],
            ) == Some(mutexes[i]),
    decreases captures.len() - from,
{
    if from < captures.len() {
        let linked = memory.link_mutex(captures[from], mutexes[from]);
        lemma_move_mutexes_links(mutexes, linked, captures, from + 1);
        let moved = move_mutexes_spec(mutexes, memory, captures, from);
        assert forall|place: Location|
            (forall|i: int| from <= i < captures.len() ==> captures[i] != place) implies lookup(
            moved.mutexes,
            place,
        ) == lookup(memory.mutexes, place) by {
            lemma_link_then_lookup(memory.mutexes, captures[from], mutexes[from], place);
        }
        assert forall|i: int|
            from <= i < captures.len() && (forall|j: int|
                i < j < captures.len() ==> captures[j] != captures[i]) implies lookup(
            moved.mutexes,
            #[trigger] captures[i],
        ) == Some(mutexes[i]) by {
            if i == from {
                lemma_link_then_lookup(
                    memory.mutexes,
                    captures[from],
                    mutexes[from],
                    captures[from],
                );
            }
        }
    }
}

/// Picks, of the places of a function that hold a mutex, those that lie in what
/// the closure captured.
pub fn closure_captures(places: &Vec<Location>) -> (captures: Vec<Location>)
    ensures
        captures@ == captured_places(places@),
{
    let mut captures: Vec<Location> = Vec::new();
    let mut i: usize = 0;
    assert(places@.take(0) =~= Seq::empty());
    while i < places.len()
        invariant
            i <= places@.len(),
            captures@ == captured_places(places@.take(i as int)),
        decreases places@.len() - i,
    {
        let ghost prefix = places@.take(i + 1);
        assert(prefix.drop_last() =~= places@.take(i as int));
        assert(prefix.last() == places@[i as int]);
        if places[i].local == CAPTURES_LOCAL {
            captures.push(places[i]);
        }
        i += 1;
    }
    assert(places@.take(i as int) =~= places@);
    captures
}

/// Copies a list of mutex references.
pub fn copy_mutex_entries(entries: &MutexEntries) -> (copy: MutexEntries)
    ensures
        copy@ == entries@,
{
    let mut copy: MutexEntries = Vec::new();
    let mut i: usize = 0;
    while i < entries.len()
        invariant
            i <= entries@.len(),
            copy@ == entries@.take(i as int),
        decreases entries@.len() - i,
    {
        copy.push(entries[i]);
        assert(copy@ =~= entries@.take(i + 1));
        i += 1;
    }
    assert(entries@.take(i as int) =~= entries@);
    copy
}

/// Moves mutexes to the places of a memory, one to each place: the first place
/// receives the first mutex, and so on. The mutexes that are left over stay.
/// There are at least as many mutexes as places.
pub fn move_mutex_entries(
    mutexes: &mut MutexEntries,
    memory: &mut Memory,
    captures: &Vec<Location>,
)
    requires
        captures@.len() <= old(mutexes)@.len(),
    ensures
        final(memory)@ == move_mutexes_spec(old(mutexes)@, old(memory)@, captures@, 0),
        final(mutexes)@ == old(mutexes)@.skip(captures@.len() as int),
        old(memory)@.wf() ==> final(memory)@.wf(),
{
    let mut i: usize = 0;
    while i < captures.len()
        invariant
            i <= captures@.len() <= mutexes@.len(),
            mutexes@ == old(mutexes)@,
            old(memory)@.wf() ==> memory@.wf(),
            move_mutexes_spec(old(mutexes)@, old(memory)@, captures@, 0) == move_mutexes_spec(
                mutexes@,
                memory@,
                captures@,
                i as int,
            ),
        decreases captures@.len() - i,
    {
        memory.link_place_to_mutex(captures[i], mutexes[i]);
        i += 1;
    }
    let mut left: MutexEntries = Vec::new();
    let mut k: usize = captures.len();
    assert(mutexes@.subrange(k as int, k as int) =~= Seq::empty());
    while k < mutexes.len()
        invariant
            captures@.len() <= k <= mutexes@.len(),
            mutexes@ == old(mutexes)@,
            left@ == mutexes@.subrange(captures@.len() as int, k as int),
        decreases mutexes@.len() - k,
    {
        left.push(mutexes[k]);
        assert(left@ =~= mutexes@.subrange(captures@.len() as int, k + 1));
        k += 1;
    }
    assert(left@ =~= old(mutexes)@.skip(captures@.len() as int));
    *mutexes = left;
}

impl Thread {
    /// Creates a new thread without a join transition.
    /// The join transition must be set later.
    pub fn new(
        spawn_transition: TransitionId,
        thread_function_def_id: usize,
        mutexes: MutexEntries,
        index: usize,
    ) -> (thread: Self)
        ensures
            thread@ == (ThreadView {
                span: ThreadSpan {
                    spawn_transition,
                    thread_function_def_id,
                    join_transition: None,
                    index,
                },
                mutexes: mutexes@,
            }),
    {
        Self { span: ThreadSpan::new(spawn_transition, thread_function_def_id, index), mutexes }
    }

    /// Sets the transition that models joining this thread.
    pub fn set_join_transition(&mut self, join_transition: TransitionId)
        ensures
            final(self)@ == (ThreadView {
                span: ThreadSpan { join_transition: Some(join_transition), ..old(self).span },
                mutexes: old(self)@.mutexes,
            }),
    {
        self.span.set_join_transition(join_transition);
    }

    /// Moves the memory entries corresponding to the mutexes to the new function's memory.
    /// Of the places of the function that hold a mutex, those that lie in what the
    /// closure captured receive a mutex each: the first of them the first mutex
    /// of the thread, and so on. The thread keeps the mutexes that are left over.
    /// The thread holds at least as many mutexes as there are such places.
    ///
    /// Which mutex goes to which place is an approximation: the mutexes come in the
    /// order in which the spawning function linked them, and a closure with several
    /// mutexes may declare them in another order.
    pub fn move_mutexes(&mut self, memory: &mut Memory, places: &Vec<Location>)
        requires
            captured_places(places@).len() <= old(self)@.mutexes.len(),
        ensures
            final(self).span == old(self).span,
            final(memory)@ == move_mutexes_spec(
                old(self)@.mutexes,
                old(memory)@,
                captured_places(places@),
                0,
            ),
            final(self)@.mutexes == old(self)@.mutexes.skip(
                captured_places(places@).len() as int,
            ),
            old(memory)@.wf() ==> final(memory)@.wf(),
    {
        let captures = closure_captures(places);
        move_mutex_entries(&mut self.mutexes, memory, &captures);
    }

    /// Prepares the thread for translation.
    /// Adds a start and end place for the thread to the Petri net.
    /// Connects the spawn transition to the start place and the end place to the
    /// join transition (if available).
    /// Returns a 3-tuple containing the function of the thread, the start place and the end place.
    pub fn prepare_for_translation(&self, net: &mut Net) -> (result: Result<
        (usize, PlaceId, PlaceId),
        TranslationError,
    >)
        requires
            old(net).wf(),
            self.span.wf(old(net)@),
        ensures
            final(net).wf(),
            final(net)@.extends(old(net)@),
            agrees(self.span.prepare_for_translation_spec(old(net)@), result, final(net)@),
            result matches Ok((_, start, end)) ==> final(net)@.has_place(start)
                && final(net)@.has_place(end),
    {
        self.span.prepare_for_translation(net)
    }
}

} // verus!
