//! The register file: the four pieces of mutable architectural state.

use vstd::prelude::*;

verus! {

/// The architectural registers of the machine: two 4-bit data registers,
/// a 1-bit carry flag, and the program counter.
///
/// Every write masks its value so that each data register always holds a
/// nibble (0..=15) and the carry flag a single bit. The program counter
/// ranges over 0..=16: it is 4-bit architecturally, but advancing past the
/// last slot of a full 16-byte program leaves it at 16, the halted position.
pub struct Register {
    pub register_a: u8,
    pub register_b: u8,
    pub carry_flag: u8,
    pub pc: u8,
}

impl Register {
    /// All fields in range: data registers 4-bit, carry a single bit,
    /// pc at most one past the last slot of a full 16-byte memory.
    pub open spec fn wf(self) -> bool {
        &&& self.register_a < 16
        &&& self.register_b < 16
        &&& self.carry_flag < 2
        &&& self.pc <= 16
    }

    /// A fresh register file with every field zero.
    pub fn new() -> (r: Self)
        ensures
            r.register_a == 0,
            r.register_b == 0,
            r.carry_flag == 0,
            r.pc == 0,
            r.wf(),
    {
        Self { register_a: 0, register_b: 0, carry_flag: 0, pc: 0 }
    }

    pub fn pc(&self) -> (r: u8)
        ensures
            r == self.pc,
    {
        self.pc
    }

    /// Writes the program counter, masked to 4 bits.
    pub fn set_pc(&mut self, new_value: u8)
        ensures
            final(self).pc == new_value % 16,
            final(self).register_a == old(self).register_a,
            final(self).register_b == old(self).register_b,
            final(self).carry_flag == old(self).carry_flag,
    {
        proof {
            assert(new_value & 0x0f == new_value % 16) by (bit_vector);
        }
        self.pc = new_value & 0x0f;
    }

    /// Advances the program counter by one slot.
    pub fn incr_pc(&mut self)
        requires
            old(self).pc < 16,
        ensures
            final(self).pc == old(self).pc + 1,
            final(self).register_a == old(self).register_a,
            final(self).register_b == old(self).register_b,
            final(self).carry_flag == old(self).carry_flag,
    {
        self.pc = self.pc + 1;
    }

    pub fn carry_flag(&self) -> (r: u8)
        ensures
            r == self.carry_flag,
    {
        self.carry_flag
    }

    /// Writes the carry flag, masked to a single bit.
    pub fn set_carry_flag(&mut self, new_value: u8)
        ensures
            final(self).carry_flag == new_value % 2,
            final(self).register_a == old(self).register_a,
            final(self).register_b == old(self).register_b,
            final(self).pc == old(self).pc,
    {
        proof {
            assert(new_value & 1 == new_value % 2) by (bit_vector);
        }
        self.carry_flag = new_value & 1;
    }

    pub fn register_a(&self) -> (r: u8)
        ensures
            r == self.register_a,
    {
        self.register_a
    }

    /// Writes register A, masked to 4 bits.
    pub fn set_register_a(&mut self, new_value: u8)
        ensures
            final(self).register_a == new_value % 16,
            final(self).register_b == old(self).register_b,
            final(self).carry_flag == old(self).carry_flag,
            final(self).pc == old(self).pc,
    {
        proof {
            assert(new_value & 0x0f == new_value % 16) by (bit_vector);
        }
        self.register_a = new_value & 0x0f;
    }

    pub fn register_b(&self) -> (r: u8)
        ensures
            r == self.register_b,
    {
        self.register_b
    }

    /// Writes register B, masked to 4 bits.
    pub fn set_register_b(&mut self, new_value: u8)
        ensures
            final(self).register_b == new_value % 16,
            final(self).register_a == old(self).register_a,
            final(self).carry_flag == old(self).carry_flag,
            final(self).pc == old(self).pc,
    {
        proof {
            assert(new_value & 0x0f == new_value % 16) by (bit_vector);
        }
        self.register_b = new_value & 0x0f;
    }
}

} // verus!
