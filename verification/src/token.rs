//! The in-memory representation of one parsed assembly instruction.

use vstd::prelude::*;

verus! {

/// One of the two 4-bit data registers an instruction can name.
#[derive(Clone, Copy, Debug, PartialEq, Eq, Structural)]
pub enum Register {
    A,
    B,
}

/// The register an operand word names: exactly `"A"` or `"B"`, anything
/// else naming none.
pub open spec fn reg_of(w: Seq<char>) -> Option<Register> {
    if w == "A"@ {
        Some(Register::A)
    } else if w == "B"@ {
        Some(Register::B)
    } else {
        None
    }
}

impl Register {
    /// The register named by an operand word: exactly `"A"` or `"B"`.
    pub fn from_name(name: &str) -> (r: Option<Register>)
        ensures
            r == reg_of(name@),
    {
        if str_eq(name, "A") {
            Some(Register::A)
        } else if str_eq(name, "B") {
            Some(Register::B)
        } else {
            None
        }
    }
}

/// One parsed instruction: a mnemonic together with its operands.
/// Immediate operands are 4-bit values; `token_wf` states that bound.
#[derive(Clone, Copy, Debug, PartialEq, Eq, Structural)]
pub enum Token {
    Mov(Register, u8),
    MovAB,
    MovBA,
    Add(Register, u8),
    Jmp(u8),
    Jnc(u8),
    In(Register),
    OutIm(u8),
    OutB,
}

/// Every immediate operand carried by the token is a nibble.
pub open spec fn token_wf(t: Token) -> bool {
    match t {
        Token::Mov(_, im) => im < 16,
        Token::Add(_, im) => im < 16,
        Token::Jmp(im) => im < 16,
        Token::Jnc(im) => im < 16,
        Token::OutIm(im) => im < 16,
        Token::MovAB | Token::MovBA | Token::In(_) | Token::OutB => true,
    }
}

/// Compares two words character by character.
pub fn str_eq(a: &str, b: &str) -> (r: bool)
    ensures
        r == (a@ == b@),
{
    let a_len = a.unicode_len();
    let b_len = b.unicode_len();
    if a_len != b_len {
        assert(a@ != b@) by {
            assert(a@.len() != b@.len());
        }
        return false;
    }
    let mut i: usize = 0;
    while i < a_len
        invariant
            i <= a_len,
            a_len == a@.len(),
            a_len == b@.len(),
            forall|j: int| 0 <= j < i ==> a@[j] == b@[j],
        decreases a_len - i,
    {
        if a.get_char(i) != b.get_char(i) {
            assert(a@ != b@) by {
                assert(a@[i as int] != b@[i as int]);
            }
            return false;
        }
        i = i + 1;
    }
    proof {
        assert(a@ =~= b@);
    }
    true
}

} // verus!
