//! Labels for the places and transitions that model the blocks of a function,
//! their statements and their terminators.

use super::{decimal_spec, indexed, indexed_spec, lemma_indexed_injective, sanitize, sanitize_spec};
use vstd::prelude::*;
use vstd::string::*;

verus! {

/// A cleaned function name, a middle part and an index.
pub open spec fn block_label_spec(function_name: Seq<char>, kind: Seq<char>, block: nat) -> Seq<
    char,
> {
    sanitize_spec(function_name) + kind + decimal_spec(block)
}

pub open spec fn block_place_label_spec(function_name: Seq<char>, block: nat) -> Seq<char> {
    block_label_spec(function_name, "_BLOCK_"@, block)
}

pub open spec fn statement_transition_label_spec(
    function_name: Seq<char>,
    block: nat,
    statement: nat,
) -> Seq<char> {
    block_place_label_spec(function_name, block) + "_STATEMENT_"@ + decimal_spec(statement)
}

pub open spec fn statement_end_place_label_spec(
    function_name: Seq<char>,
    block: nat,
    statement: nat,
) -> Seq<char> {
    statement_transition_label_spec(function_name, block, statement) + "_END"@
}

pub open spec fn goto_transition_label_spec(function_name: Seq<char>, block: nat) -> Seq<char> {
    block_label_spec(function_name, "_GOTO_"@, block)
}

pub open spec fn switch_transition_label_spec(
    function_name: Seq<char>,
    block: nat,
    target: nat,
) -> Seq<char> {
    block_label_spec(function_name, "_SWITCH_"@, block) + "_"@ + decimal_spec(target)
}

pub open spec fn unwind_transition_label_spec(function_name: Seq<char>, block: nat) -> Seq<char> {
    block_label_spec(function_name, "_UNWIND_"@, block)
}

fn block_label(function_name: &str, kind: &str, block: usize) -> (label: String)
    ensures
        label@ == block_label_spec(function_name@, kind@, block as nat),
{
    let mut label = sanitize(function_name);
    label.append(indexed(kind, block).as_str());
    assert(label@ =~= block_label_spec(function_name@, kind@, block as nat));
    label
}

/// Label of the place that stands for the entry of a block.
pub fn block_place_label(function_name: &str, block: usize) -> (label: String)
    ensures
        label@ == block_place_label_spec(function_name@, block as nat),
{
    block_label(function_name, "_BLOCK_", block)
}

/// Label of the transition that stands for a statement of a block.
pub fn statement_transition_label(function_name: &str, block: usize, statement: usize) -> (label:
    String)
    ensures
        label@ == statement_transition_label_spec(function_name@, block as nat, statement as nat),
{
    let mut label = block_place_label(function_name, block);
    label.append(indexed("_STATEMENT_", statement).as_str());
    assert(label@ =~= statement_transition_label_spec(
        function_name@,
        block as nat,
        statement as nat,
    ));
    label
}

/// Label of the place that is reached when a statement of a block is done.
pub fn statement_end_place_label(function_name: &str, block: usize, statement: usize) -> (label:
    String)
    ensures
        label@ == statement_end_place_label_spec(function_name@, block as nat, statement as nat),
{
    let mut label = statement_transition_label(function_name, block, statement);
    label.append("_END");
    label
}

/// Label of the transition that leads from a block to the one it goes to.
pub fn goto_transition_label(function_name: &str, block: usize) -> (label: String)
    ensures
        label@ == goto_transition_label_spec(function_name@, block as nat),
{
    block_label(function_name, "_GOTO_", block)
}

/// Label of the transition that leads from a block to one of the blocks it
/// branches to.
pub fn switch_transition_label(function_name: &str, block: usize, target: usize) -> (label:
    String)
    ensures
        label@ == switch_transition_label_spec(function_name@, block as nat, target as nat),
{
    let mut label = block_label(function_name, "_SWITCH_", block);
    label.append(indexed("_", target).as_str());
    assert(label@ =~= switch_transition_label_spec(function_name@, block as nat, target as nat));
    label
}

/// Label of the transition that leads from a block to where unwinding continues.
pub fn unwind_transition_label(function_name: &str, block: usize) -> (label: String)
    ensures
        label@ == unwind_transition_label_spec(function_name@, block as nat),
{
    block_label(function_name, "_UNWIND_", block)
}

/// The label of the place of a block depends on nothing but the function and the
/// block: whoever asks for the label of the same block of the same function gets
/// the same string, and two blocks of one function never share a label.
pub proof fn lemma_block_place_label_names_one_block(
    function_name: Seq<char>,
    block: nat,
    other_name: Seq<char>,
    other_block: nat,
)
    ensures
        function_name == other_name && block == other_block ==> block_place_label_spec(
            function_name,
            block,
        ) == block_place_label_spec(other_name, other_block),
        function_name == other_name && block_place_label_spec(function_name, block)
            == block_place_label_spec(other_name, other_block) ==> block == other_block,
{
    if function_name == other_name && block_place_label_spec(function_name, block)
        == block_place_label_spec(other_name, other_block) {
        let beginning = sanitize_spec(function_name) + "_BLOCK_"@;
        assert(block_place_label_spec(function_name, block) =~= indexed_spec(beginning, block));
        assert(block_place_label_spec(other_name, other_block) =~= indexed_spec(
            beginning,
            other_block,
        ));
        lemma_indexed_injective(beginning, block, other_block);
    }
}

} // verus!
