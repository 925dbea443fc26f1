//! Opcode bytes of the instruction set.
//!
//! Operands follow the opcode inline: a short index is one byte, a long index
//! or a jump offset is two bytes, big-endian.
use vstd::prelude::*;

verus! {

pub const ADD: u8 = 0x00;
pub const SUB: u8 = 0x01;
pub const MULT: u8 = 0x03;
pub const DIV: u8 = 0x04;
pub const TRUE: u8 = 0x05;
pub const FALSE: u8 = 0x06;
pub const NIL: u8 = 0x07;
pub const NOT: u8 = 0x08;
pub const EQ: u8 = 0x09;
pub const GT: u8 = 0x0A;
pub const LT: u8 = 0x0B;
pub const RETURN: u8 = 0x0C;
/// Followed by a one-byte constant index.
pub const CONSTANT: u8 = 0x0D;
/// Followed by a two-byte constant index.
pub const CONSTANT_LONG: u8 = 0x0E;
pub const POP: u8 = 0x0F;
/// Followed by a one-byte global slot.
pub const DEFINE_GLOBAL: u8 = 0x10;
/// Followed by a two-byte global slot.
pub const DEFINE_GLOBAL_LONG: u8 = 0x11;
/// Followed by a one-byte global slot.
pub const GET_GLOBAL: u8 = 0x12;
/// Followed by a two-byte global slot.
pub const GET_GLOBAL_LONG: u8 = 0x13;
/// Followed by a one-byte count of locals to discard below the top value.
pub const COLLAPSE_LOCALS: u8 = 0x14;
/// Followed by a one-byte local slot.
pub const GET_LOCAL: u8 = 0x17;
/// Followed by a two-byte local slot.
pub const GET_LOCAL_LONG: u8 = 0x18;
/// Followed by a two-byte forward offset.
pub const JUMP: u8 = 0x19;
/// Followed by a two-byte forward offset; pops the test.
pub const JUMP_IF_FALSE: u8 = 0x1A;

} // verus!
