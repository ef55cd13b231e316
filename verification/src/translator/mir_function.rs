//! The translation state of one function call.
//!
//! Every block of the function has a place of its own, which stands for the entry
//! of the block. A transition leads from the start place of the call to the place
//! of the first block. The statements of a block form a chain that starts at the
//! place of the block: each statement is a transition to a new place. The
//! terminator of the block starts at the end of the chain.

pub mod memory;

use crate::error_handling::TranslationError;
use crate::naming::basic_block::{
    block_place_label,
    block_place_label_spec,
    goto_transition_label,
    goto_transition_label_spec,
    statement_end_place_label,
    statement_end_place_label_spec,
    statement_transition_label,
    statement_transition_label_spec,
    switch_transition_label,
    switch_transition_label_spec,
    unwind_transition_label,
    unwind_transition_label_spec,
};
use crate::naming::function::{
    entry_transition_label,
    entry_transition_label_spec,
    return_transition_label,
    return_transition_label_spec,
};
use crate::petri_net_interface::{
    agrees,
    lemma_extends_transitive,
    Net,
    NetView,
    PlaceId,
    TransitionId,
};
use crate::translator::function_call::FunctionPlaces;
use crate::translator::mir_function::memory::{Memory, MemoryView};
use crate::translator::model::old_arcs_kept;
use vstd::prelude::*;

verus! {

broadcast use lemma_extends_transitive;

/// One call of a function with blocks, while it is translated: the function, the
/// places between which the call lies, the places of its blocks, where the
/// translation has got to, and the handles in its locations.
pub struct MirFunction {
    /// The function that is called.
    pub def_id: usize,
    /// The name of this call of the function, from which its labels are made.
    pub name: String,
    /// The place at which the call starts.
    pub start_place: PlaceId,
    /// The place that the call reaches when it returns.
    pub end_place: PlaceId,
    /// The place that the call reaches when it unwinds.
    pub cleanup_place: PlaceId,
    /// The place of every block.
    pub block_places: Vec<PlaceId>,
    /// The block that is being translated.
    pub active_block: usize,
    /// The end of the chain of statements of the block that is being translated.
    pub active_place: PlaceId,
    /// The synchronization handles in the locations of this call.
    pub memory: Memory,
}

/// The mathematical model of a [`MirFunction`].
pub struct MirFunctionView {
    pub def_id: usize,
    pub name: Seq<char>,
    pub start_place: PlaceId,
    pub end_place: PlaceId,
    pub cleanup_place: PlaceId,
    pub block_places: Seq<PlaceId>,
    pub active_block: usize,
    pub active_place: PlaceId,
    pub memory: MemoryView,
}

/// The net with a place for each of the first blocks of a function, and these
/// places.
pub open spec fn block_places_spec(net: NetView, name: Seq<char>, blocks: nat) -> Result<
    (NetView, Seq<PlaceId>),
    TranslationError,
>
    decreases blocks,
{
    if blocks == 0 {
        Ok((net, Seq::empty()))
    } else {
        match block_places_spec(net, name, (blocks - 1) as nat) {
            Err(error) => Err(error),
            Ok((before, places)) => match before.try_add_place(
                block_place_label_spec(name, (blocks - 1) as nat),
            ) {
                Err(error) => Err(error),
                Ok((added, place)) => Ok((added, places.push(place))),
            },
        }
    }
}

/// Whether a block occurs among the first targets of a branch.
pub open spec fn occurs_before(targets: Seq<usize>, position: int) -> bool {
    exists|k: int| 0 <= k < position && targets[k] == targets[position]
}

impl MirFunctionView {
    /// The places of the call belong to the net, and the active block is one of
    /// the function.
    pub open spec fn wf(self, net: NetView) -> bool {
        &&& net.has_place(self.start_place)
        &&& net.has_place(self.end_place)
        &&& net.has_place(self.cleanup_place)
        &&& net.has_place(self.active_place)
        &&& forall|b: int|
            0 <= b < self.block_places.len() ==> net.has_place(#[trigger] self.block_places[b])
    }

    /// Whether two states are states of the same call: they differ at most in the
    /// active block, in the place that it has got to and in the memory.
    pub open spec fn same_call(self, other: MirFunctionView) -> bool {
        &&& self.def_id == other.def_id
        &&& self.name == other.name
        &&& self.start_place == other.start_place
        &&& self.end_place == other.end_place
        &&& self.cleanup_place == other.cleanup_place
        &&& self.block_places == other.block_places
    }

    /// Whether none of the given places is one from which the call may still draw
    /// an arc: its start place, the place that it has got to and the places of its
    /// blocks.
    pub open spec fn apart(self, sealed: Set<int>) -> bool {
        &&& !sealed.contains(self.start_place.index as int)
        &&& !sealed.contains(self.active_place.index as int)
        &&& forall|b: int|
            0 <= b < self.block_places.len() ==> !sealed.contains(
                (#[trigger] self.block_places[b]).index as int,
            )
    }

    /// Whether this state has come out of an earlier state of the same call in a
    /// net that has grown: the call has got to where it was, to the place of one of
    /// its blocks or to a place that the net did not have.
    pub open spec fn moved_on(self, earlier: MirFunctionView, places: nat) -> bool {
        &&& self.start_place == earlier.start_place
        &&& self.block_places == earlier.block_places
        &&& {
            ||| self.active_place == earlier.active_place
            ||| self.active_place.index >= places
            ||| exists|b: int|
                0 <= b < earlier.block_places.len() && self.active_place
                    == #[trigger] earlier.block_places[b]
        }
    }

    /// The net with the places of the blocks and the entry transition of a new
    /// call, and the state of the call.
    pub open spec fn new_spec(
        def_id: usize,
        name: Seq<char>,
        start_place: PlaceId,
        end_place: PlaceId,
        cleanup_place: PlaceId,
        blocks: nat,
        net: NetView,
    ) -> Result<(NetView, MirFunctionView), TranslationError> {
        match block_places_spec(net, name, blocks) {
            Err(error) => Err(error),
            Ok((added, block_places)) => {
                let function = MirFunctionView {
                    def_id,
                    name,
                    start_place,
                    end_place,
                    cleanup_place,
                    block_places,
                    active_block: 0,
                    active_place: start_place,
                    memory: MemoryView::empty(),
                };
                if blocks == 0 {
                    Ok((added, function))
                } else {
                    match added.connect(
                        start_place,
                        block_places[0],
                        entry_transition_label_spec(name),
                    ) {
                        Err(error) => Err(error),
                        Ok((entered, _)) => Ok((entered, function)),
                    }
                }
            },
        }
    }

    /// The call when the translation of a block starts.
    pub open spec fn start_basic_block(self, block: usize) -> MirFunctionView {
        MirFunctionView {
            active_block: block,
            active_place: self.block_places[block as int],
            ..self
        }
    }

    /// The places between which a call in the active block lies.
    pub open spec fn get_place_refs_for_function_call(
        self,
        return_block: usize,
        cleanup_block: Option<usize>,
    ) -> FunctionPlaces {
        FunctionPlaces {
            start_place: self.active_place,
            end_place: self.block_places[return_block as int],
            cleanup_place: match cleanup_block {
                Some(block) => Some(self.block_places[block as int]),
                None => None,
            },
        }
    }

    /// The net and the call after a statement of the active block: a transition
    /// leads from the end of the chain to a new place, which is the new end.
    pub open spec fn add_statement(self, statement: usize, net: NetView) -> Result<
        ((MirFunctionView, NetView), ()),
        TranslationError,
    > {
        match net.try_add_place(
            statement_end_place_label_spec(self.name, self.active_block as nat, statement as nat),
        ) {
            Err(error) => Err(error),
            Ok((added, place)) => match added.connect(
                self.active_place,
                place,
                statement_transition_label_spec(
                    self.name,
                    self.active_block as nat,
                    statement as nat,
                ),
            ) {
                Err(error) => Err(error),
                Ok((connected, _)) => Ok(
                    ((MirFunctionView { active_place: place, ..self }, connected), ()),
                ),
            },
        }
    }

    /// The net after the active block has gone to another block.
    pub open spec fn goto(self, target: usize, net: NetView) -> Result<
        (NetView, TransitionId),
        TranslationError,
    > {
        net.connect(
            self.active_place,
            self.block_places[target as int],
            goto_transition_label_spec(self.name, self.active_block as nat),
        )
    }

    /// The net after the active block has branched to the targets from the given
    /// position on: one transition for every block among them that does not occur
    /// before in the list.
    pub open spec fn switch_int(self, targets: Seq<usize>, from: int, net: NetView) -> Result<
        (NetView, ()),
        TranslationError,
    >
        decreases targets.len() - from,
    {
        if from < 0 || from >= targets.len() {
            Ok((net, ()))
        } else if occurs_before(targets, from) {
            self.switch_int(targets, from + 1, net)
        } else {
            match net.connect(
                self.active_place,
                self.block_places[targets[from] as int],
                switch_transition_label_spec(
                    self.name,
                    self.active_block as nat,
                    targets[from] as nat,
                ),
            ) {
                Err(error) => Err(error),
                Ok((connected, _)) => self.switch_int(targets, from + 1, connected),
            }
        }
    }

    /// The net after the active block has returned from the function.
    pub open spec fn return_statement(self, net: NetView) -> Result<
        (NetView, TransitionId),
        TranslationError,
    > {
        net.connect(self.active_place, self.end_place, return_transition_label_spec(self.name))
    }

    /// The net after the active block has gone on unwinding.
    pub open spec fn unwind(self, net: NetView) -> Result<(NetView, TransitionId), TranslationError> {
        net.connect(
            self.active_place,
            self.cleanup_place,
            unwind_transition_label_spec(self.name, self.active_block as nat),
        )
    }
}

impl View for MirFunction {
    type V = MirFunctionView;

    open spec fn view(&self) -> MirFunctionView {
        MirFunctionView {
            def_id: self.def_id,
            name: self.name@,
            start_place: self.start_place,
            end_place: self.end_place,
            cleanup_place: self.cleanup_place,
            block_places: self.block_places@,
            active_block: self.active_block,
            active_place: self.active_place,
            memory: self.memory@,
        }
    }
}

impl MirFunction {
    /// Starts the translation of a call: adds a place for every block of the
    /// function and a transition from the start place to the place of the first
    /// block.
    pub fn new(
        def_id: usize,
        name: String,
        start_place: PlaceId,
        end_place: PlaceId,
        cleanup_place: PlaceId,
        blocks: usize,
        net: &mut Net,
    ) -> (result: Result<MirFunction, TranslationError>)
        requires
            old(net).wf(),
            old(net)@.has_place(start_place),
            old(net)@.has_place(end_place),
            old(net)@.has_place(cleanup_place),
        ensures
            final(net).wf(),
            final(net)@.extends(old(net)@),
            match MirFunctionView::new_spec(
                def_id,
                name@,
                start_place,
                end_place,
                cleanup_place,
                blocks as nat,
                old(net)@,
            ) {
                Ok((view, function)) => result matches Ok(started) && started@ == function
                    && final(net)@ == view && function.wf(view) && function.block_places.len()
                    == blocks && (forall|b: int|
                    0 <= b < function.block_places.len() ==> (
                    #[trigger] function.block_places[b]).index >= old(net)@.places.len())
                    && (forall|p: int, t: int| #[trigger]
                    view.arcs_in.contains((p, t)) && !old(net)@.arcs_in.contains((p, t)) ==> p
                        == start_place.index && t >= old(net)@.transitions.len())
                    && (forall|t: int, p: int| #[trigger]
                    view.arcs_out.contains((t, p)) && !old(net)@.arcs_out.contains((t, p)) ==> t
                        >= old(net)@.transitions.len()),
                Err(error) => result matches Err(failure) && failure == error,
            },
    {
        let mut block_places: Vec<PlaceId> = Vec::new();
        let mut block: usize = 0;
        while block < blocks
            invariant
                block <= blocks,
                net.wf(),
                net@.extends(old(net)@),
                block_places_spec(old(net)@, name@, block as nat) == Ok::<
                    (NetView, Seq<PlaceId>),
                    TranslationError,
                >((net@, block_places@)),
                block_places@.len() == block,
                forall|b: int| 0 <= b < block ==> net@.has_place(#[trigger] block_places@[b]),
                forall|b: int|
                    0 <= b < block ==> (#[trigger] block_places@[b]).index >= old(net)@.places.len(),
                net@.arcs_in == old(net)@.arcs_in,
                net@.arcs_out == old(net)@.arcs_out,
                net@.transitions == old(net)@.transitions,
                block_places_spec(old(net)@, name@, blocks as nat).is_err()
                    ==> block_places_spec(old(net)@, name@, block as nat).is_err()
                    || blocks > block,
            decreases blocks - block,
        {
            let place = match net.try_add_place(block_place_label(name.as_str(), block).as_str()) {
                Ok(place) => place,
                Err(error) => {
                    proof {
                        lemma_block_places_failure(
                            old(net)@,
                            name@,
                            (block + 1) as nat,
                            blocks as nat,
                        );
                    }
                    return Err(error);
                },
            };
            block_places.push(place);
            // The number of places fits in a `usize`.
            let _ = net.place_count();
            block += 1;
        }
        // The number of transitions fits in a `usize`.
        let _ = net.transition_count();
        if blocks > 0 {
            if let Err(error) = net.connect_places(
                &start_place,
                &block_places[0],
                entry_transition_label(name.as_str()).as_str(),
            ) {
                return Err(error);
            }
        }
        Ok(
            MirFunction {
                def_id,
                name,
                start_place,
                end_place,
                cleanup_place,
                block_places,
                active_block: 0,
                active_place: start_place,
                memory: Memory::new(),
            },
        )
    }

    /// Prepares the translation of a block of the function.
    pub fn start_basic_block(&mut self, block: usize)
        requires
            block < old(self)@.block_places.len(),
        ensures
            final(self)@ == old(self)@.start_basic_block(block),
    {
        self.active_block = block;
        self.active_place = self.block_places[block];
    }

    /// The place at which a call in the active block starts.
    pub fn get_start_place_for_function_call(&self) -> (place: PlaceId)
        ensures
            place == self@.active_place,
    {
        self.active_place
    }

    /// The places between which a call in the active block lies: it starts where
    /// the block has got to, returns to the place of the return block and unwinds
    /// to the place of the cleanup block, if it has one.
    pub fn get_place_refs_for_function_call(
        &self,
        return_block: usize,
        cleanup_block: Option<usize>,
    ) -> (places: FunctionPlaces)
        requires
            return_block < self@.block_places.len(),
            cleanup_block matches Some(block) ==> block < self@.block_places.len(),
        ensures
            places == self@.get_place_refs_for_function_call(return_block, cleanup_block),
    {
        FunctionPlaces {
            start_place: self.active_place,
            end_place: self.block_places[return_block],
            cleanup_place: match cleanup_block {
                Some(block) => Some(self.block_places[block]),
                None => None,
            },
        }
    }

    /// Translates a statement of the active block.
    pub fn add_statement(&mut self, statement: usize, net: &mut Net) -> (result: Result<
        (),
        TranslationError,
    >)
        requires
            old(net).wf(),
            old(self)@.wf(old(net)@),
        ensures
            final(net).wf(),
            final(net)@.extends(old(net)@),
            final(self)@.wf(final(net)@),
            agrees(
                old(self)@.add_statement(statement, old(net)@),
                result,
                (final(self)@, final(net)@),
            ),
    {
        let place = match net.try_add_place(
            statement_end_place_label(self.name.as_str(), self.active_block, statement).as_str(),
        ) {
            Ok(place) => place,
            Err(error) => {
                return Err(error);
            },
        };
        if let Err(error) = net.connect_places(
            &self.active_place,
            &place,
            statement_transition_label(self.name.as_str(), self.active_block, statement).as_str(),
        ) {
            return Err(error);
        }
        self.active_place = place;
        Ok(())
    }

    /// Translates the terminator that goes to another block.
    pub fn goto(&self, target: usize, net: &mut Net) -> (result: Result<
        TransitionId,
        TranslationError,
    >)
        requires
            old(net).wf(),
            self@.wf(old(net)@),
            target < self@.block_places.len(),
        ensures
            final(net).wf(),
            final(net)@.extends(old(net)@),
            agrees(self@.goto(target, old(net)@), result, final(net)@),
    {
        net.connect_places(
            &self.active_place,
            &self.block_places[target],
            goto_transition_label(self.name.as_str(), self.active_block).as_str(),
        )
    }

    /// Translates the terminator that branches to one of several blocks: one
    /// transition for every distinct block. The transitions compete for the token
    /// at the end of the active block.
    pub fn switch_int(&self, targets: &Vec<usize>, net: &mut Net) -> (result: Result<
        (),
        TranslationError,
    >)
        requires
            old(net).wf(),
            self@.wf(old(net)@),
            forall|i: int| 0 <= i < targets@.len() ==> targets@[i] < self@.block_places.len(),
        ensures
            final(net).wf(),
            final(net)@.extends(old(net)@),
            agrees(self@.switch_int(targets@, 0, old(net)@), result, final(net)@),
            result.is_ok() ==> forall|p: int, t: int| #[trigger]
                final(net)@.arcs_in.contains((p, t)) && !old(net)@.arcs_in.contains((p, t)) ==> p
                    == self@.active_place.index,
            result.is_ok() ==> old_arcs_kept(final(net)@, old(net)@),
    {
        let mut i: usize = 0;
        while i < targets.len()
            invariant
                i <= targets@.len(),
                net.wf(),
                net@.extends(old(net)@),
                forall|p: int, t: int| #[trigger]
                    net@.arcs_in.contains((p, t)) && !old(net)@.arcs_in.contains((p, t)) ==> p
                        == self@.active_place.index,
                old_arcs_kept(net@, old(net)@),
                self@.wf(net@),
                forall|k: int| 0 <= k < targets@.len() ==> targets@[k] < self@.block_places.len(),
                self@.switch_int(targets@, 0, old(net)@) == self@.switch_int(
                    targets@,
                    i as int,
                    net@,
                ),
            decreases targets@.len() - i,
        {
            let mut seen = false;
            let mut k: usize = 0;
            while k < i
                invariant
                    k <= i,
                    i < targets@.len(),
                    seen == (exists|m: int| 0 <= m < k && targets@[m] == targets@[i as int]),
                decreases i - k,
            {
                if targets[k] == targets[i] {
                    seen = true;
                }
                k += 1;
            }
            // The number of transitions fits in a `usize`.
            let _ = net.transition_count();
            if !seen {
                if let Err(error) = net.connect_places(
                    &self.active_place,
                    &self.block_places[targets[i]],
                    switch_transition_label(
                        self.name.as_str(),
                        self.active_block,
                        targets[i],
                    ).as_str(),
                ) {
                    return Err(error);
                }
            }
            i += 1;
        }
        Ok(())
    }

    /// Translates the terminator that returns from the function.
    pub fn return_statement(&self, net: &mut Net) -> (result: Result<
        TransitionId,
        TranslationError,
    >)
        requires
            old(net).wf(),
            self@.wf(old(net)@),
        ensures
            final(net).wf(),
            final(net)@.extends(old(net)@),
            agrees(self@.return_statement(old(net)@), result, final(net)@),
    {
        net.connect_places(
            &self.active_place,
            &self.end_place,
            return_transition_label(self.name.as_str()).as_str(),
        )
    }

    /// Translates the terminator that goes on unwinding.
    pub fn unwind(&self, net: &mut Net) -> (result: Result<TransitionId, TranslationError>)
        requires
            old(net).wf(),
            self@.wf(old(net)@),
        ensures
            final(net).wf(),
            final(net)@.extends(old(net)@),
            agrees(self@.unwind(old(net)@), result, final(net)@),
    {
        net.connect_places(
            &self.active_place,
            &self.cleanup_place,
            unwind_transition_label(self.name.as_str(), self.active_block).as_str(),
        )
    }
}

/// Where the places of the first blocks cannot be added, those of more blocks
/// cannot be added either.
proof fn lemma_block_places_failure(net: NetView, name: Seq<char>, failed: nat, blocks: nat)
    requires
        failed <= blocks,
        block_places_spec(net, name, failed).is_err(),
    ensures
        block_places_spec(net, name, blocks) == block_places_spec(net, name, failed),
    decreases blocks,
{
    if failed < blocks {
        lemma_block_places_failure(net, name, failed, (blocks - 1) as nat);
    }
}

} // verus!
