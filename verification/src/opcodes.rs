//! The names of the opcodes.

use vstd::prelude::*;

verus! {

/// The name of a known opcode; `None` for a byte that is none.
#[verifier::opaque]
pub open spec fn known_mnemonic_of(opcode: u8) -> Option<Seq<char>> {
    match opcode {
        0x00 => Some("STOP"@),
        0x01 => Some("ADD"@),
        0x02 => Some("MUL"@),
        0x03 => Some("SUB"@),
        0x04 => Some("DIV"@),
        0x05 => Some("SDIV"@),
        0x06 => Some("MOD"@),
        0x07 => Some("SMOD"@),
        0x08 => Some("ADDMOD"@),
        0x09 => Some("MULMOD"@),
        0x0a => Some("EXP"@),
        0x0b => Some("SIGNEXTEND"@),
        0x10 => Some("LT"@),
        0x11 => Some("GT"@),
        0x12 => Some("SLT"@),
        0x13 => Some("SGT"@),
        0x14 => Some("EQ"@),
        0x15 => Some("ISZERO"@),
        0x16 => Some("AND"@),
        0x17 => Some("OR"@),
        0x18 => Some("XOR"@),
        0x19 => Some("NOT"@),
        0x1a => Some("BYTE"@),
        0x1b => Some("SHL"@),
        0x1c => Some("SHR"@),
        0x1d => Some("SAR"@),
        0x20 => Some("SHA3"@),
        0x30 => Some("ADDRESS"@),
        0x31 => Some("BALANCE"@),
        0x32 => Some("ORIGIN"@),
        0x33 => Some("CALLER"@),
        0x34 => Some("CALLVALUE"@),
        0x35 => Some("CALLDATALOAD"@),
        0x36 => Some("CALLDATASIZE"@),
        0x37 => Some("CALLDATACOPY"@),
        0x38 => Some("CODESIZE"@),
        0x39 => Some("CODECOPY"@),
        0x3a => Some("GASPRICE"@),
        0x3b => Some("EXTCODESIZE"@),
        0x3c => Some("EXTCODECOPY"@),
        0x3d => Some("RETURNDATASIZE"@),
        0x3e => Some("RETURNDATACOPY"@),
        0x3f => Some("EXTCODEHASH"@),
        0x40 => Some("BLOCKHASH"@),
        0x41 => Some("COINBASE"@),
        0x42 => Some("TIMESTAMP"@),
        0x43 => Some("NUMBER"@),
        0x44 => Some("DIFFICULTY"@),
        0x45 => Some("GASLIMIT"@),
        0x46 => Some("CHAINID"@),
        0x47 => Some("SELFBALANCE"@),
        0x48 => Some("BASEFEE"@),
        0x50 => Some("POP"@),
        0x51 => Some("MLOAD"@),
        0x52 => Some("MSTORE"@),
        0x53 => Some("MSTORE8"@),
        0x54 => Some("SLOAD"@),
        0x55 => Some("SSTORE"@),
        0x56 => Some("JUMP"@),
        0x57 => Some("JUMPI"@),
        0x58 => Some("PC"@),
        0x59 => Some("MSIZE"@),
        0x5a => Some("GAS"@),
        0x5b => Some("JUMPDEST"@),
        0x60 => Some("PUSH1"@),
        0x61 => Some("PUSH2"@),
        0x62 => Some("PUSH3"@),
        0x63 => Some("PUSH4"@),
        0x64 => Some("PUSH5"@),
        0x65 => Some("PUSH6"@),
        0x66 => Some("PUSH7"@),
        0x67 => Some("PUSH8"@),
        0x68 => Some("PUSH9"@),
        0x69 => Some("PUSH10"@),
        0x6a => Some("PUSH11"@),
        0x6b => Some("PUSH12"@),
        0x6c => Some("PUSH13"@),
        0x6d => Some("PUSH14"@),
        0x6e => Some("PUSH15"@),
        0x6f => Some("PUSH16"@),
        0x70 => Some("PUSH17"@),
        0x71 => Some("PUSH18"@),
        0x72 => Some("PUSH19"@),
        0x73 => Some("PUSH20"@),
        0x74 => Some("PUSH21"@),
        0x75 => Some("PUSH22"@),
        0x76 => Some("PUSH23"@),
        0x77 => Some("PUSH24"@),
        0x78 => Some("PUSH25"@),
        0x79 => Some("PUSH26"@),
        0x7a => Some("PUSH27"@),
        0x7b => Some("PUSH28"@),
        0x7c => Some("PUSH29"@),
        0x7d => Some("PUSH30"@),
        0x7e => Some("PUSH31"@),
        0x7f => Some("PUSH32"@),
        0x80 => Some("DUP1"@),
        0x81 => Some("DUP2"@),
        0x82 => Some("DUP3"@),
        0x83 => Some("DUP4"@),
        0x84 => Some("DUP5"@),
        0x85 => Some("DUP6"@),
        0x86 => Some("DUP7"@),
        0x87 => Some("DUP8"@),
        0x88 => Some("DUP9"@),
        0x89 => Some("DUP10"@),
        0x8a => Some("DUP11"@),
        0x8b => Some("DUP12"@),
        0x8c => Some("DUP13"@),
        0x8d => Some("DUP14"@),
        0x8e => Some("DUP15"@),
        0x8f => Some("DUP16"@),
        0x90 => Some("SWAP1"@),
        0x91 => Some("SWAP2"@),
        0x92 => Some("SWAP3"@),
        0x93 => Some("SWAP4"@),
        0x94 => Some("SWAP5"@),
        0x95 => Some("SWAP6"@),
        0x96 => Some("SWAP7"@),
        0x97 => Some("SWAP8"@),
        0x98 => Some("SWAP9"@),
        0x99 => Some("SWAP10"@),
        0x9a => Some("SWAP11"@),
        0x9b => Some("SWAP12"@),
        0x9c => Some("SWAP13"@),
        0x9d => Some("SWAP14"@),
        0x9e => Some("SWAP15"@),
        0x9f => Some("SWAP16"@),
        0xa0 => Some("LOG0"@),
        0xa1 => Some("LOG1"@),
        0xa2 => Some("LOG2"@),
        0xa3 => Some("LOG3"@),
        0xa4 => Some("LOG4"@),
        0xf0 => Some("CREATE"@),
        0xf1 => Some("CALL"@),
        0xf2 => Some("CALLCODE"@),
        0xf3 => Some("RETURN"@),
        0xf4 => Some("DELEGATECALL"@),
        0xf5 => Some("CREATE2"@),
        0xfa => Some("STATICCALL"@),
        0xfd => Some("REVERT"@),
        0xfe => Some("INVALID"@),
        0xff => Some("SELFDESTRUCT"@),
        _ => None,
    }
}

/// The hexadecimal digit of a value below sixteen, as a text.
pub open spec fn hex_digit_of(value: u8) -> Seq<char> {
    match value {
        0 => "0"@,
        1 => "1"@,
        2 => "2"@,
        3 => "3"@,
        4 => "4"@,
        5 => "5"@,
        6 => "6"@,
        7 => "7"@,
        8 => "8"@,
        9 => "9"@,
        10 => "a"@,
        11 => "b"@,
        12 => "c"@,
        13 => "d"@,
        14 => "e"@,
        _ => "f"@,
    }
}

/// The name under which an instruction is shown: that of its opcode, or
/// `INVALID(0x..)` with the byte in two hexadecimal digits where the byte is
/// no known opcode.
pub open spec fn mnemonic_of(opcode: u8) -> Seq<char> {
    match known_mnemonic_of(opcode) {
        Some(name) => name,
        None => "INVALID(0x"@ + hex_digit_of(opcode / 16) + hex_digit_of(opcode % 16) + ")"@,
    }
}

/// Whether an instruction with this opcode ends its block: a jump, a halt,
/// or a byte that is no known opcode.
pub open spec fn ends_block(opcode: u8) -> bool {
    opcode == 0x56 || opcode == 0x57 || opcode == 0x00 || opcode == 0xf3 || opcode == 0xfd
        || opcode == 0xfe || opcode == 0xff || known_mnemonic_of(opcode).is_none()
}

/// The name of a known opcode.
pub fn known_mnemonic(opcode: u8) -> (name: Option<&'static str>)
    ensures
        match known_mnemonic_of(opcode) {
            Some(expected) => name.is_some() && name.unwrap()@ == expected,
            None => name.is_none(),
        },
{
    reveal(known_mnemonic_of);
    match opcode {
        0x00 => Some("STOP"),
        0x01 => Some("ADD"),
        0x02 => Some("MUL"),
        0x03 => Some("SUB"),
        0x04 => Some("DIV"),
        0x05 => Some("SDIV"),
        0x06 => Some("MOD"),
        0x07 => Some("SMOD"),
        0x08 => Some("ADDMOD"),
        0x09 => Some("MULMOD"),
        0x0a => Some("EXP"),
        0x0b => Some("SIGNEXTEND"),
        0x10 => Some("LT"),
        0x11 => Some("GT"),
        0x12 => Some("SLT"),
        0x13 => Some("SGT"),
        0x14 => Some("EQ"),
        0x15 => Some("ISZERO"),
        0x16 => Some("AND"),
        0x17 => Some("OR"),
        0x18 => Some("XOR"),
        0x19 => Some("NOT"),
        0x1a => Some("BYTE"),
        0x1b => Some("SHL"),
        0x1c => Some("SHR"),
        0x1d => Some("SAR"),
        0x20 => Some("SHA3"),
        0x30 => Some("ADDRESS"),
        0x31 => Some("BALANCE"),
        0x32 => Some("ORIGIN"),
        0x33 => Some("CALLER"),
        0x34 => Some("CALLVALUE"),
        0x35 => Some("CALLDATALOAD"),
        0x36 => Some("CALLDATASIZE"),
        0x37 => Some("CALLDATACOPY"),
        0x38 => Some("CODESIZE"),
        0x39 => Some("CODECOPY"),
        0x3a => Some("GASPRICE"),
        0x3b => Some("EXTCODESIZE"),
        0x3c => Some("EXTCODECOPY"),
        0x3d => Some("RETURNDATASIZE"),
        0x3e => Some("RETURNDATACOPY"),
        0x3f => Some("EXTCODEHASH"),
        0x40 => Some("BLOCKHASH"),
        0x41 => Some("COINBASE"),
        0x42 => Some("TIMESTAMP"),
        0x43 => Some("NUMBER"),
        0x44 => Some("DIFFICULTY"),
        0x45 => Some("GASLIMIT"),
        0x46 => Some("CHAINID"),
        0x47 => Some("SELFBALANCE"),
        0x48 => Some("BASEFEE"),
        0x50 => Some("POP"),
        0x51 => Some("MLOAD"),
        0x52 => Some("MSTORE"),
        0x53 => Some("MSTORE8"),
        0x54 => Some("SLOAD"),
        0x55 => Some("SSTORE"),
        0x56 => Some("JUMP"),
        0x57 => Some("JUMPI"),
        0x58 => Some("PC"),
        0x59 => Some("MSIZE"),
        0x5a => Some("GAS"),
        0x5b => Some("JUMPDEST"),
        0x60 => Some("PUSH1"),
        0x61 => Some("PUSH2"),
        0x62 => Some("PUSH3"),
        0x63 => Some("PUSH4"),
        0x64 => Some("PUSH5"),
        0x65 => Some("PUSH6"),
        0x66 => Some("PUSH7"),
        0x67 => Some("PUSH8"),
        0x68 => Some("PUSH9"),
        0x69 => Some("PUSH10"),
        0x6a => Some("PUSH11"),
        0x6b => Some("PUSH12"),
        0x6c => Some("PUSH13"),
        0x6d => Some("PUSH14"),
        0x6e => Some("PUSH15"),
        0x6f => Some("PUSH16"),
        0x70 => Some("PUSH17"),
        0x71 => Some("PUSH18"),
        0x72 => Some("PUSH19"),
        0x73 => Some("PUSH20"),
        0x74 => Some("PUSH21"),
        0x75 => Some("PUSH22"),
        0x76 => Some("PUSH23"),
        0x77 => Some("PUSH24"),
        0x78 => Some("PUSH25"),
        0x79 => Some("PUSH26"),
        0x7a => Some("PUSH27"),
        0x7b => Some("PUSH28"),
        0x7c => Some("PUSH29"),
        0x7d => Some("PUSH30"),
        0x7e => Some("PUSH31"),
        0x7f => Some("PUSH32"),
        0x80 => Some("DUP1"),
        0x81 => Some("DUP2"),
        0x82 => Some("DUP3"),
        0x83 => Some("DUP4"),
        0x84 => Some("DUP5"),
        0x85 => Some("DUP6"),
        0x86 => Some("DUP7"),
        0x87 => Some("DUP8"),
        0x88 => Some("DUP9"),
        0x89 => Some("DUP10"),
        0x8a => Some("DUP11"),
        0x8b => Some("DUP12"),
        0x8c => Some("DUP13"),
        0x8d => Some("DUP14"),
        0x8e => Some("DUP15"),
        0x8f => Some("DUP16"),
        0x90 => Some("SWAP1"),
        0x91 => Some("SWAP2"),
        0x92 => Some("SWAP3"),
        0x93 => Some("SWAP4"),
        0x94 => Some("SWAP5"),
        0x95 => Some("SWAP6"),
        0x96 => Some("SWAP7"),
        0x97 => Some("SWAP8"),
        0x98 => Some("SWAP9"),
        0x99 => Some("SWAP10"),
        0x9a => Some("SWAP11"),
        0x9b => Some("SWAP12"),
        0x9c => Some("SWAP13"),
        0x9d => Some("SWAP14"),
        0x9e => Some("SWAP15"),
        0x9f => Some("SWAP16"),
        0xa0 => Some("LOG0"),
        0xa1 => Some("LOG1"),
        0xa2 => Some("LOG2"),
        0xa3 => Some("LOG3"),
        0xa4 => Some("LOG4"),
        0xf0 => Some("CREATE"),
        0xf1 => Some("CALL"),
        0xf2 => Some("CALLCODE"),
        0xf3 => Some("RETURN"),
        0xf4 => Some("DELEGATECALL"),
        0xf5 => Some("CREATE2"),
        0xfa => Some("STATICCALL"),
        0xfd => Some("REVERT"),
        0xfe => Some("INVALID"),
        0xff => Some("SELFDESTRUCT"),
        _ => None,
    }
}

/// The hexadecimal digit of a value below sixteen.
pub fn hex_digit_text(value: u8) -> (digit: &'static str)
    ensures
        digit@ == hex_digit_of(value),
{
    match value {
        0 => "0",
        1 => "1",
        2 => "2",
        3 => "3",
        4 => "4",
        5 => "5",
        6 => "6",
        7 => "7",
        8 => "8",
        9 => "9",
        10 => "a",
        11 => "b",
        12 => "c",
        13 => "d",
        14 => "e",
        _ => "f",
    }
}

/// The name under which an instruction with this opcode is shown.
pub fn mnemonic(opcode: u8) -> (name: String)
    ensures
        name@ == mnemonic_of(opcode),
{
    match known_mnemonic(opcode) {
        Some(name) => String::from_str(name),
        None => String::from_str("INVALID(0x").concat(hex_digit_text(opcode / 16)).concat(
            hex_digit_text(opcode % 16),
        ).concat(")"),
    }
}

/// Whether an instruction with this opcode ends its block.
pub fn is_block_end(opcode: u8) -> (ends: bool)
    ensures
        ends == ends_block(opcode),
{
    opcode == 0x56 || opcode == 0x57 || opcode == 0x00 || opcode == 0xf3 || opcode == 0xfd
        || opcode == 0xfe || opcode == 0xff || known_mnemonic(opcode).is_none()
}

} // verus!
