//! The basic blocks of an instruction stream.

use vstd::prelude::*;
use crate::disassembler::{models_of, Instruction, InstructionModel};
use crate::opcodes::{ends_block, is_block_end};

verus! {

/// The opcode that marks a jump target.
pub const JUMPDEST: u8 = 0x5b;

/// A run of instructions that is entered at its first and left at its last:
/// those at the positions from `first` up to, not including, `end`.
#[derive(Clone, Copy, Debug, PartialEq, Eq)]
pub struct BasicBlock {
    pub entry_pc: u32,
    pub first: usize,
    pub end: usize,
}

/// Whether a block begins at position `k`: at the first instruction, at every
/// jump target, and behind every instruction that ends a block.
pub open spec fn begins_block(instructions: Seq<InstructionModel>, k: int) -> bool {
    k == 0 || instructions[k].opcode == JUMPDEST || ends_block(instructions[k - 1].opcode)
}

/// Whether one of `blocks` holds position `k`.
pub open spec fn in_a_block(blocks: Seq<BasicBlock>, k: int) -> bool {
    exists|b: int| 0 <= b < blocks.len() && (#[trigger] blocks[b]).first <= k < blocks[b].end
}

/// Whether `blocks` are the blocks of the first `upto` instructions: they
/// follow each other without gap from the first instruction on, none is
/// empty, and a block begins exactly where one of them does.
pub open spec fn blocks_cover(
    instructions: Seq<InstructionModel>,
    blocks: Seq<BasicBlock>,
    upto: int,
) -> bool {
    &&& forall|b: int|
        0 <= b < blocks.len() ==> {
            &&& (#[trigger] blocks[b]).first < blocks[b].end <= upto
            &&& blocks[b].first == if b == 0 {
                0
            } else {
                blocks[b - 1].end as int
            }
            &&& blocks[b].entry_pc == instructions[blocks[b].first as int].pc
            &&& forall|k: int|
                blocks[b].first < k < blocks[b].end ==> !begins_block(instructions, k)
        }
    &&& forall|b: int|
        0 < b < blocks.len() ==> begins_block(instructions, (#[trigger] blocks[b]).first as int)
    &&& upto == if blocks.len() == 0 {
        0
    } else {
        blocks.last().end as int
    }
    &&& forall|k: int| 0 <= k < upto ==> #[trigger] in_a_block(blocks, k)
}

/// Whether `blocks` are the blocks of `instructions`.
pub open spec fn is_partition(instructions: Seq<InstructionModel>, blocks: Seq<BasicBlock>) -> bool {
    blocks_cover(instructions, blocks, instructions.len() as int)
}

/// Cuts an instruction stream into its basic blocks, in order.
pub fn split_blocks(instructions: &Vec<Instruction>) -> (blocks: Vec<BasicBlock>)
    ensures
        is_partition(models_of(instructions@), blocks@),
{
    let n: usize = instructions.len();
    let ghost models = models_of(instructions@);
    let mut blocks: Vec<BasicBlock> = Vec::new();
    if n == 0 {
        return blocks;
    }
    let mut first: usize = 0;
    let mut k: usize = 1;
    while k < n
        invariant
            n == instructions.len(),
            models == models_of(instructions@),
            first < k <= n,
            blocks_cover(models, blocks@, first as int),
            first > 0 ==> begins_block(models, first as int),
            forall|j: int| first < j < k ==> !begins_block(models, j),
        decreases n - k,
    {
        if instructions[k].opcode == JUMPDEST || is_block_end(instructions[k - 1].opcode) {
            let block = BasicBlock { entry_pc: instructions[first].pc, first, end: k };
            proof {
                extend_cover(models, blocks@, block, first as int);
            }
            blocks.push(block);
            first = k;
        }
        k = k + 1;
    }
    let block = BasicBlock { entry_pc: instructions[first].pc, first, end: n };
    proof {
        extend_cover(models, blocks@, block, first as int);
    }
    blocks.push(block);
    blocks
}

/// A cover with the next block behind it covers up to that block's end.
proof fn extend_cover(
    instructions: Seq<InstructionModel>,
    blocks: Seq<BasicBlock>,
    block: BasicBlock,
    upto: int,
)
    requires
        blocks_cover(instructions, blocks, upto),
        block.first == upto,
        block.first < block.end,
        block.entry_pc == instructions[upto].pc,
        upto > 0 ==> begins_block(instructions, upto),
        forall|k: int| block.first < k < block.end ==> !begins_block(instructions, k),
    ensures
        blocks_cover(instructions, blocks.push(block), block.end as int),
{
    let longer = blocks.push(block);
    assert forall|b: int| 0 <= b < longer.len() implies {
        &&& (#[trigger] longer[b]).first < longer[b].end <= block.end
        &&& longer[b].first == if b == 0 {
            0
        } else {
            longer[b - 1].end as int
        }
        &&& longer[b].entry_pc == instructions[longer[b].first as int].pc
        &&& forall|k: int| longer[b].first < k < longer[b].end ==> !begins_block(instructions, k)
    } by {
        if b < blocks.len() {
            assert(longer[b] == blocks[b]);
            if b > 0 {
                assert(longer[b - 1] == blocks[b - 1]);
            }
        } else if b > 0 {
            assert(longer[b - 1] == blocks.last());
        }
    }
    assert forall|b: int| 0 < b < longer.len() implies begins_block(
        instructions,
        (#[trigger] longer[b]).first as int,
    ) by {
        if b < blocks.len() {
            assert(longer[b] == blocks[b]);
        }
    }
    assert forall|k: int| 0 <= k < block.end implies #[trigger] in_a_block(longer, k) by {
        if k < upto {
            assert(in_a_block(blocks, k));
            let b = choose|b: int|
                0 <= b < blocks.len() && (#[trigger] blocks[b]).first <= k < blocks[b].end;
            assert(longer[b] == blocks[b]);
        } else {
            assert(longer[blocks.len() as int] == block);
        }
    }
}

/// Every jump target is the entry of a block.
pub proof fn jump_target_enters_a_block(
    instructions: Seq<InstructionModel>,
    blocks: Seq<BasicBlock>,
    k: int,
)
    requires
        is_partition(instructions, blocks),
        0 <= k < instructions.len(),
        instructions[k].opcode == JUMPDEST,
    ensures
        exists|b: int|
            0 <= b < blocks.len() && (#[trigger] blocks[b]).first == k && blocks[b].entry_pc
                == instructions[k].pc,
{
    assert(in_a_block(blocks, k));
    let b = choose|b: int|
        0 <= b < blocks.len() && (#[trigger] blocks[b]).first <= k < blocks[b].end;
    assert(begins_block(instructions, k));
    assert(blocks[b].first == k);
}

/// An instruction that ends a block is the last of its block: no block goes
/// on behind a jump, a halt or an unknown byte.
pub proof fn block_end_is_last(
    instructions: Seq<InstructionModel>,
    blocks: Seq<BasicBlock>,
    k: int,
)
    requires
        is_partition(instructions, blocks),
        0 <= k < instructions.len(),
        ends_block(instructions[k].opcode),
    ensures
        exists|b: int| 0 <= b < blocks.len() && (#[trigger] blocks[b]).end == k + 1,
{
    assert(in_a_block(blocks, k));
    let b = choose|b: int|
        0 <= b < blocks.len() && (#[trigger] blocks[b]).first <= k < blocks[b].end;
    if k + 1 < blocks[b].end {
        assert(begins_block(instructions, k + 1));
    }
}

/// Every block but the last ends with an instruction that ends a block, or
/// runs into a jump target.
pub proof fn block_ends_where_it_must(
    instructions: Seq<InstructionModel>,
    blocks: Seq<BasicBlock>,
    b: int,
)
    requires
        is_partition(instructions, blocks),
        0 <= b < blocks.len() - 1,
    ensures
        ends_block(instructions[blocks[b].end - 1].opcode) || instructions[blocks[b].end as int].opcode
            == JUMPDEST,
{
    assert(blocks[b + 1].first == blocks[b].end);
    assert(begins_block(instructions, blocks[b + 1].first as int));
}

} // verus!
