//! The instruction memory: an ordered sequence of up to 16 encoded
//! instruction bytes, immutable once built.

use vstd::prelude::*;

verus! {

/// The instruction memory. Holding at most 16 bytes is a construction-time
/// invariant; the contents are never written after construction.
pub struct Rom {
    pub memory_array: Vec<u8>,
}

impl Rom {
    /// The memory fits the 4-bit address space.
    pub open spec fn wf(self) -> bool {
        self.memory_array@.len() <= 16
    }

    /// Builds the memory from assembler output or literal bytes.
    /// The 4-bit program counter can address at most 16 slots, so a longer
    /// program is rejected at construction.
    pub fn new(memory_array: Vec<u8>) -> (r: Self)
        requires
            memory_array@.len() <= 16,
        ensures
            r.memory_array@ == memory_array@,
            r.wf(),
    {
        Self { memory_array }
    }

    /// Reads the byte at the given program-counter position.
    pub fn read(&self, pc: u8) -> (r: u8)
        requires
            pc < self.memory_array@.len(),
        ensures
            r == self.memory_array@[pc as int],
    {
        self.memory_array[pc as usize]
    }

    /// The number of instruction bytes held.
    pub fn size(&self) -> (r: u8)
        requires
            self.wf(),
        ensures
            r == self.memory_array@.len(),
    {
        self.memory_array.len() as u8
    }
}

} // verus!
