//! The opcode table: the bidirectional mapping between a 4-bit operation
//! code and its semantic operation. The 4-bit code space has exactly 12
//! defined codes; the remaining 4 never occur in a validly assembled
//! program.

use vstd::prelude::*;

verus! {

/// One of the 12 defined operations.
#[derive(Clone, Copy, Debug, PartialEq, Eq, Structural)]
pub enum Opcode {
    AddA,
    AddB,
    MovA,
    MovB,
    MovA2B,
    MovB2A,
    Jmp,
    Jnc,
    InA,
    InB,
    OutB,
    OutIm,
}

/// The 4-bit code that encodes each operation.
pub open spec fn nibble_of_opcode(op: Opcode) -> u8 {
    match op {
        Opcode::AddA => 0b0000,
        Opcode::MovA2B => 0b0001,
        Opcode::InA => 0b0010,
        Opcode::MovA => 0b0011,
        Opcode::MovB2A => 0b0100,
        Opcode::AddB => 0b0101,
        Opcode::InB => 0b0110,
        Opcode::MovB => 0b0111,
        Opcode::OutB => 0b1001,
        Opcode::OutIm => 0b1011,
        Opcode::Jnc => 0b1110,
        Opcode::Jmp => 0b1111,
    }
}

/// The operation a 4-bit code stands for, or `None` for the 4 codes the
/// table does not define (0b1000, 0b1010, 0b1100, 0b1101) and for values
/// past the 4-bit range.
pub open spec fn opcode_of_nibble(n: u8) -> Option<Opcode> {
    if n == 0b0000 {
        Some(Opcode::AddA)
    } else if n == 0b0001 {
        Some(Opcode::MovA2B)
    } else if n == 0b0010 {
        Some(Opcode::InA)
    } else if n == 0b0011 {
        Some(Opcode::MovA)
    } else if n == 0b0100 {
        Some(Opcode::MovB2A)
    } else if n == 0b0101 {
        Some(Opcode::AddB)
    } else if n == 0b0110 {
        Some(Opcode::InB)
    } else if n == 0b0111 {
        Some(Opcode::MovB)
    } else if n == 0b1001 {
        Some(Opcode::OutB)
    } else if n == 0b1011 {
        Some(Opcode::OutIm)
    } else if n == 0b1110 {
        Some(Opcode::Jnc)
    } else if n == 0b1111 {
        Some(Opcode::Jmp)
    } else {
        None
    }
}

/// Whether the low nibble of an encoded instruction is kept as the
/// operand at decode time. The operations that take no operand have
/// their immediate forced to zero instead.
pub open spec fn keeps_immediate(op: Opcode) -> bool {
    match op {
        Opcode::InA | Opcode::InB | Opcode::OutB => false,
        _ => true,
    }
}

/// The operand a decoded instruction carries: the low nibble of the byte
/// for the operations that use one, zero for the rest.
pub open spec fn decoded_immediate(op: Opcode, low_nibble: u8) -> u8 {
    if keeps_immediate(op) {
        low_nibble
    } else {
        0
    }
}

/// The two directions of the opcode table invert each other: every
/// operation's code maps back to that operation.
pub proof fn lemma_opcode_table_bijective(op: Opcode)
    ensures
        opcode_of_nibble(nibble_of_opcode(op)) == Some(op),
        nibble_of_opcode(op) < 16,
{
}

} // verus!
