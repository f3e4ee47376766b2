//! Forensics on EVM bytecode: decoding bytecode into instructions and basic
//! blocks, looking up the candidate text signatures of a selector, ranking
//! candidates, and laying out the results of a run.

pub mod blocks;
pub mod disassembler;
pub mod json;
pub mod opcodes;
pub mod output;
pub mod ranking;
pub mod score;
pub mod signatures;
pub mod text;
