//! The input/output port: one externally supplied input nibble and one
//! externally observed output nibble.

use vstd::prelude::*;

verus! {

/// The machine's single port. The input half is fixed at construction;
/// the output half is written only by the OUT instructions.
pub struct Port {
    pub input: u8,
    pub output: u8,
}

impl Port {
    /// Both halves hold a nibble.
    pub open spec fn wf(self) -> bool {
        &&& self.input < 16
        &&& self.output < 16
    }

    /// A port with the given input and output values, each masked to 4 bits.
    pub fn new(input: u8, output: u8) -> (r: Self)
        ensures
            r.input == input % 16,
            r.output == output % 16,
            r.wf(),
    {
        proof {
            assert(input & 0x0f == input % 16 && input & 0x0f < 16) by (bit_vector);
            assert(output & 0x0f == output % 16 && output & 0x0f < 16) by (bit_vector);
        }
        Self { input: input & 0x0f, output: output & 0x0f }
    }

    pub fn input(&self) -> (r: u8)
        ensures
            r == self.input,
    {
        self.input
    }

    pub fn output(&self) -> (r: u8)
        ensures
            r == self.output,
    {
        self.output
    }

    /// Writes the output nibble, masked to 4 bits.
    pub fn set_output(&mut self, im: u8)
        ensures
            final(self).output == im % 16,
            final(self).input == old(self).input,
    {
        proof {
            assert(im & 0x0f == im % 16) by (bit_vector);
        }
        self.output = im & 0x0f;
    }
}

} // verus!
