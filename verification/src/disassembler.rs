//! Linear decoding of bytecode into instructions, and back.

use vstd::prelude::*;
use crate::opcodes::{mnemonic, mnemonic_of};
use crate::output::{hex_digit, is_hex_digit};

verus! {

/// The first of the opcodes that push an immediate: it pushes one byte.
pub const PUSH1: u8 = 0x60;

/// The last of the opcodes that push an immediate: it pushes thirty-two bytes.
pub const PUSH32: u8 = 0x7f;

/// One decoded instruction. `pc` is the offset of its opcode in the code; a
/// push holds the bytes that follow its opcode as its immediate, padded with
/// zeros and marked `truncated` where the code ends too early; any other
/// instruction has no immediate.
#[derive(Clone, Debug, PartialEq, Eq)]
pub struct Instruction {
    pub pc: u32,
    pub opcode: u8,
    pub mnemonic: String,
    pub immediate: Vec<u8>,
    pub truncated: bool,
}

/// An instruction as contracts speak of it.
pub struct InstructionModel {
    pub pc: int,
    pub opcode: u8,
    pub mnemonic: Seq<char>,
    pub immediate: Seq<u8>,
    pub truncated: bool,
}

impl View for Instruction {
    type V = InstructionModel;

    open spec fn view(&self) -> InstructionModel {
        InstructionModel {
            pc: self.pc as int,
            opcode: self.opcode,
            mnemonic: self.mnemonic@,
            immediate: self.immediate@,
            truncated: self.truncated,
        }
    }
}

/// The models of a list of instructions.
pub open spec fn models_of(instructions: Seq<Instruction>) -> Seq<InstructionModel> {
    instructions.map_values(|i: Instruction| i@)
}

/// How many bytes an opcode takes as its immediate: `n` for PUSH`n`, else none.
pub open spec fn immediate_len(opcode: u8) -> nat {
    if 0x60 <= opcode <= 0x7f {
        (opcode - 0x5f) as nat
    } else {
        0
    }
}

/// The byte of `code` at `at`, or zero behind its end.
pub open spec fn byte_or_zero(code: Seq<u8>, at: int) -> u8 {
    if 0 <= at < code.len() {
        code[at]
    } else {
        0
    }
}

/// The instruction whose opcode stands at `pc`.
pub open spec fn instruction_at(code: Seq<u8>, pc: int) -> InstructionModel {
    let n = immediate_len(code[pc]);
    InstructionModel {
        pc,
        opcode: code[pc],
        mnemonic: mnemonic_of(code[pc]),
        immediate: Seq::new(n, |j: int| byte_or_zero(code, pc + 1 + j)),
        truncated: pc + 1 + n > code.len(),
    }
}

/// The offset behind the instruction at `pc`: the end of the code where the
/// instruction is truncated.
pub open spec fn offset_after(code: Seq<u8>, pc: int) -> int {
    let next = pc + 1 + immediate_len(code[pc]);
    if next <= code.len() {
        next
    } else {
        code.len() as int
    }
}

/// The instructions of `code` from `pc` on: each begins where the one before
/// it ends.
pub open spec fn decode_from(code: Seq<u8>, pc: int) -> Seq<InstructionModel>
    decreases code.len() - pc,
{
    if 0 <= pc < code.len() {
        seq![instruction_at(code, pc)] + decode_from(code, offset_after(code, pc))
    } else {
        Seq::empty()
    }
}

/// The instructions of `code`.
pub open spec fn decoded(code: Seq<u8>) -> Seq<InstructionModel> {
    decode_from(code, 0)
}

/// The bytes of one instruction: its opcode, then its immediate.
pub open spec fn bytes_of(instruction: InstructionModel) -> Seq<u8> {
    seq![instruction.opcode] + instruction.immediate
}

/// The bytes of a list of instructions, one after the other.
pub open spec fn encoded(instructions: Seq<InstructionModel>) -> Seq<u8>
    decreases instructions.len(),
{
    if instructions.len() == 0 {
        Seq::empty()
    } else {
        encoded(instructions.drop_last()) + bytes_of(instructions.last())
    }
}

/// Whether no instruction of the list is truncated.
pub open spec fn none_truncated(instructions: Seq<InstructionModel>) -> bool {
    forall|k: int| 0 <= k < instructions.len() ==> !(#[trigger] instructions[k]).truncated
}

/// How many bytes `opcode` takes as its immediate.
pub fn immediate_size(opcode: u8) -> (n: usize)
    ensures
        n == immediate_len(opcode),
        n <= 32,
{
    if PUSH1 <= opcode && opcode <= PUSH32 {
        (opcode - 0x5f) as usize
    } else {
        0
    }
}

/// Decodes `code` into its instructions, in the order of their offsets.
/// Every byte is decoded: one that is no known opcode stands as an
/// instruction of its own.
pub fn disassemble(code: &Vec<u8>) -> (instructions: Vec<Instruction>)
    requires
        code@.len() <= u32::MAX,
    ensures
        models_of(instructions@) == decoded(code@),
{
    let len: usize = code.len();
    let mut instructions: Vec<Instruction> = Vec::new();
    let mut pc: usize = 0;
    proof {
        assert(models_of(instructions@) + decode_from(code@, 0) =~= decoded(code@));
    }
    while pc < len
        invariant
            len == code@.len(),
            len <= u32::MAX,
            decoded(code@) == models_of(instructions@) + decode_from(code@, pc as int),
        decreases len - pc,
    {
        let opcode: u8 = code[pc];
        let n: usize = immediate_size(opcode);
        let mut immediate: Vec<u8> = Vec::new();
        let mut j: usize = 0;
        while j < n
            invariant
                j <= n,
                n <= 32,
                pc < len,
                len == code@.len(),
                len <= u32::MAX,
                immediate@.len() == j,
                forall|k: int|
                    0 <= k < j ==> #[trigger] immediate@[k] == byte_or_zero(code@, pc + 1 + k),
            decreases n - j,
        {
            if j < len - pc - 1 {
                immediate.push(code[pc + 1 + j]);
            } else {
                immediate.push(0);
            }
            j = j + 1;
        }
        let truncated: bool = n > len - pc - 1;
        let instruction = Instruction {
            pc: pc as u32,
            opcode,
            mnemonic: mnemonic(opcode),
            immediate,
            truncated,
        };
        proof {
            assert(instruction@.immediate =~= instruction_at(code@, pc as int).immediate);
            assert(instruction@ == instruction_at(code@, pc as int));
            assert(models_of(instructions@.push(instruction)) =~= models_of(instructions@).push(
                instruction@,
            ));
            assert(models_of(instructions@).push(instruction@) + decode_from(
                code@,
                offset_after(code@, pc as int),
            ) =~= models_of(instructions@) + decode_from(code@, pc as int));
        }
        instructions.push(instruction);
        if truncated {
            pc = len;
        } else {
            pc = pc + 1 + n;
        }
    }
    proof {
        assert(models_of(instructions@) + Seq::<InstructionModel>::empty() =~= models_of(
            instructions@,
        ));
    }
    instructions
}

/// Writes instructions back as bytes: each opcode followed by its immediate.
pub fn assemble(instructions: &Vec<Instruction>) -> (code: Vec<u8>)
    ensures
        code@ == encoded(models_of(instructions@)),
{
    let mut code: Vec<u8> = Vec::new();
    let mut i: usize = 0;
    proof {
        assert(models_of(instructions@).subrange(0, 0) =~= Seq::<InstructionModel>::empty());
    }
    while i < instructions.len()
        invariant
            i <= instructions.len(),
            code@ == encoded(models_of(instructions@).subrange(0, i as int)),
        decreases instructions.len() - i,
    {
        let ghost before = code@;
        let instruction = &instructions[i];
        code.push(instruction.opcode);
        let mut j: usize = 0;
        while j < instruction.immediate.len()
            invariant
                j <= instruction.immediate.len(),
                code@ == before + seq![instruction.opcode] + instruction.immediate@.subrange(
                    0,
                    j as int,
                ),
            decreases instruction.immediate.len() - j,
        {
            code.push(instruction.immediate[j]);
            proof {
                assert(instruction.immediate@.subrange(0, j + 1) =~= instruction.immediate@.subrange(
                    0,
                    j as int,
                ).push(instruction.immediate@[j as int]));
            }
            j = j + 1;
        }
        proof {
            let upto = models_of(instructions@).subrange(0, i + 1);
            assert(upto.drop_last() =~= models_of(instructions@).subrange(0, i as int));
            assert(upto.last() == instruction@);
            assert(instruction.immediate@.subrange(0, j as int) =~= instruction.immediate@);
            assert(code@ =~= before + bytes_of(instruction@));
        }
        i = i + 1;
    }
    proof {
        assert(models_of(instructions@).subrange(0, instructions.len() as int) =~= models_of(
            instructions@,
        ));
    }
    code
}

/// The bytes of a list with one more instruction in front.
proof fn encoded_after_first(first: InstructionModel, others: Seq<InstructionModel>)
    ensures
        encoded(seq![first] + others) == bytes_of(first) + encoded(others),
    decreases others.len(),
{
    let all = seq![first] + others;
    if others.len() == 0 {
        assert(all.drop_last() =~= Seq::<InstructionModel>::empty());
        assert(all.last() == first);
        assert(encoded(all.drop_last()) =~= Seq::<u8>::empty());
        assert(encoded(others) =~= Seq::<u8>::empty());
        assert(encoded(all) =~= bytes_of(first) + encoded(others));
    } else {
        assert(all.drop_last() =~= seq![first] + others.drop_last());
        assert(all.last() == others.last());
        encoded_after_first(first, others.drop_last());
        assert(encoded(all) =~= bytes_of(first) + encoded(others));
    }
}

/// From any offset on, the instructions of a code without truncated push
/// hold exactly its bytes.
proof fn decode_then_encode_from(code: Seq<u8>, pc: int)
    requires
        0 <= pc <= code.len(),
        none_truncated(decode_from(code, pc)),
    ensures
        encoded(decode_from(code, pc)) == code.subrange(pc, code.len() as int),
    decreases code.len() - pc,
{
    if pc < code.len() {
        let first = instruction_at(code, pc);
        let next = offset_after(code, pc);
        let others = decode_from(code, next);
        assert(decode_from(code, pc)[0] == first);
        assert(!first.truncated);
        assert forall|k: int| 0 <= k < others.len() implies !(#[trigger] others[k]).truncated by {
            assert(decode_from(code, pc)[k + 1] == others[k]);
        }
        decode_then_encode_from(code, next);
        encoded_after_first(first, others);
        assert(bytes_of(first) =~= code.subrange(pc, next));
        assert(code.subrange(pc, next) + code.subrange(next, code.len() as int) =~= code.subrange(
            pc,
            code.len() as int,
        ));
    } else {
        assert(code.subrange(pc, code.len() as int) =~= Seq::<u8>::empty());
    }
}

/// Decoding loses nothing: the instructions of a code in which no push is
/// truncated, written back one after the other, are the code.
pub proof fn decode_then_encode(code: Seq<u8>)
    requires
        none_truncated(decoded(code)),
    ensures
        encoded(decoded(code)) == code,
{
    decode_then_encode_from(code, 0);
    assert(code.subrange(0, code.len() as int) =~= code);
}

/// The offsets of the instructions rise strictly, and each instruction begins
/// where the one before it ends.
pub proof fn offsets_follow(code: Seq<u8>, pc: int, k: int)
    requires
        0 <= pc,
        0 <= k < decode_from(code, pc).len(),
    ensures
        pc <= decode_from(code, pc)[k].pc < code.len(),
        decode_from(code, pc)[k].opcode == code[decode_from(code, pc)[k].pc],
        k + 1 < decode_from(code, pc).len() ==> decode_from(code, pc)[k + 1].pc == decode_from(
            code,
            pc,
        )[k].pc + 1 + decode_from(code, pc)[k].immediate.len(),
    decreases k,
{
    let next = offset_after(code, pc);
    let others = decode_from(code, next);
    if k > 0 {
        assert(decode_from(code, pc)[k] == others[k - 1]);
        offsets_follow(code, next, k - 1);
        if k + 1 < decode_from(code, pc).len() {
            assert(decode_from(code, pc)[k + 1] == others[k]);
        }
    } else {
        if 1 < decode_from(code, pc).len() {
            assert(decode_from(code, pc)[1] == others[0]);
            assert(others[0] == instruction_at(code, next));
        }
    }
}

/// Why a text is refused as bytecode.
#[derive(Clone, Copy, Debug, PartialEq, Eq, Structural)]
pub enum AnalysisError {
    /// The text is empty, or is no hexadecimal text of even length.
    InvalidBytecode,
}

/// A text that holds bytecode: an even number of hexadecimal digits, and at
/// least two.
pub open spec fn is_hex_code(text: Seq<char>) -> bool {
    &&& text.len() > 0
    &&& text.len() % 2 == 0
    &&& forall|i: int| 0 <= i < text.len() ==> is_hex_digit(#[trigger] text[i])
}

/// The value of a hexadecimal digit.
pub open spec fn digit_value(c: char) -> int {
    if '0' <= c && c <= '9' {
        c as int - '0' as int
    } else if 'a' <= c && c <= 'f' {
        c as int - 'a' as int + 10
    } else {
        c as int - 'A' as int + 10
    }
}

/// The bytes that a hexadecimal text holds: one for each two digits, the
/// first digit the higher.
pub open spec fn hex_bytes(text: Seq<char>) -> Seq<u8> {
    Seq::new(
        text.len() / 2,
        |i: int| (16 * digit_value(text[2 * i]) + digit_value(text[2 * i + 1])) as u8,
    )
}

/// The value of a hexadecimal digit.
pub fn hex_digit_value(c: char) -> (value: u8)
    requires
        is_hex_digit(c),
    ensures
        value == digit_value(c),
        value < 16,
{
    let code: u32 = c as u32;
    if '0' <= c && c <= '9' {
        (code - 0x30) as u8
    } else if 'a' <= c && c <= 'f' {
        (code - 0x61 + 10) as u8
    } else {
        (code - 0x41 + 10) as u8
    }
}

/// Reads bytecode from its hexadecimal text. The empty text, a text of odd
/// length and a text with any other character are refused.
pub fn decode_hex(text: &str) -> (code: Result<Vec<u8>, AnalysisError>)
    ensures
        match code {
            Ok(bytes) => is_hex_code(text@) && bytes@ == hex_bytes(text@),
            Err(error) => !is_hex_code(text@) && error == AnalysisError::InvalidBytecode,
        },
{
    let n: usize = text.unicode_len();
    if n == 0 || n % 2 != 0 {
        return Err(AnalysisError::InvalidBytecode);
    }
    let mut bytes: Vec<u8> = Vec::new();
    let mut i: usize = 0;
    while i < n
        invariant
            n == text@.len(),
            n % 2 == 0,
            i <= n,
            i % 2 == 0,
            bytes@.len() == i / 2,
            forall|k: int| 0 <= k < i ==> is_hex_digit(#[trigger] text@[k]),
            forall|k: int| 0 <= k < i / 2 ==> #[trigger] bytes@[k] == hex_bytes(text@)[k],
        decreases n - i,
    {
        let high: char = text.get_char(i);
        let low: char = text.get_char(i + 1);
        if !hex_digit(high) || !hex_digit(low) {
            return Err(AnalysisError::InvalidBytecode);
        }
        let byte: u8 = 16 * hex_digit_value(high) + hex_digit_value(low);
        bytes.push(byte);
        i = i + 2;
    }
    proof {
        assert(bytes@ =~= hex_bytes(text@));
    }
    Ok(bytes)
}

} // verus!
