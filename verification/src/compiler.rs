//! The assembler: maps each parsed token to one encoded instruction byte.
//! The encoding puts the operation's 4-bit code in the high nibble and the
//! immediate operand (or zero, for operations without one) in the low
//! nibble.

use vstd::prelude::*;

use crate::error::EmulatorErr;
use crate::op::{
    decoded_immediate, lemma_opcode_table_bijective, nibble_of_opcode, opcode_of_nibble, Opcode,
};
use crate::token::{token_wf, Register, Token};

verus! {

/// The operation that encodes each kind of token.
pub open spec fn token_opcode(t: Token) -> Opcode {
    match t {
        Token::Mov(Register::A, _) => Opcode::MovA,
        Token::Mov(Register::B, _) => Opcode::MovB,
        Token::MovAB => Opcode::MovA2B,
        Token::MovBA => Opcode::MovB2A,
        Token::Add(Register::A, _) => Opcode::AddA,
        Token::Add(Register::B, _) => Opcode::AddB,
        Token::Jmp(_) => Opcode::Jmp,
        Token::Jnc(_) => Opcode::Jnc,
        Token::In(Register::A) => Opcode::InA,
        Token::In(Register::B) => Opcode::InB,
        Token::OutB => Opcode::OutB,
        Token::OutIm(_) => Opcode::OutIm,
    }
}

/// The immediate operand a token carries, or zero for the tokens that
/// carry none.
pub open spec fn token_immediate(t: Token) -> u8 {
    match t {
        Token::Mov(_, im) => im,
        Token::Add(_, im) => im,
        Token::Jmp(im) => im,
        Token::Jnc(im) => im,
        Token::OutIm(im) => im,
        Token::MovAB | Token::MovBA | Token::In(_) | Token::OutB => 0,
    }
}

/// The instruction byte a token assembles to: the operation's code in the
/// high nibble, the immediate (masked to 4 bits) in the low nibble.
pub open spec fn encode_token(t: Token) -> u8 {
    (nibble_of_opcode(token_opcode(t)) * 16 + token_immediate(t) % 16) as u8
}

/// Per-instruction encoding is a bijection: decoding an assembled byte
/// recovers the token's operation and immediate exactly.
pub proof fn lemma_assemble_decode_roundtrip(t: Token)
    requires
        token_wf(t),
    ensures
        opcode_of_nibble(encode_token(t) / 16) == Some(token_opcode(t)),
        decoded_immediate(token_opcode(t), encode_token(t) % 16) == token_immediate(t),
{
    let nib = nibble_of_opcode(token_opcode(t));
    let im = token_immediate(t);
    assert(nib < 16 && im < 16);
    assert((nib * 16 + im) / 16 == nib && (nib * 16 + im) % 16 == im) by (nonlinear_arith)
        requires
            nib < 16,
            im < 16,
    ;
    lemma_opcode_table_bijective(token_opcode(t));
}

/// The assembler. It holds no state: each token maps to its byte
/// independently, in input order, with no label resolution or fix-up.
pub struct Compiler;

impl Default for Compiler {
    fn default() -> (r: Self)
        ensures
            r == (Compiler {}),
    {
        Self
    }
}

impl Compiler {
    pub fn new() -> (r: Self)
        ensures
            r == (Compiler {}),
    {
        Self::default()
    }

    /// Emits one encoded byte per token, in input order. An empty token
    /// list is rejected before any byte is emitted; every non-empty list
    /// assembles successfully.
    pub fn compile(&self, tokens: Vec<Token>) -> (r: Result<Vec<u8>, EmulatorErr>)
        ensures
            match r {
                Ok(bytes) => {
                    &&& tokens@.len() > 0
                    &&& bytes@.len() == tokens@.len()
                    &&& forall|i: int|
                        0 <= i < tokens@.len() ==> bytes@[i] == encode_token(tokens@[i])
                },
                Err(_) => tokens@.len() == 0,
            },
    {
        if tokens.is_empty() {
            return Err(
                EmulatorErr::new("Failed to start to compile because token list is empty."),
            );
        }

        let mut result: Vec<u8> = Vec::new();

        let mut i: usize = 0;
        while i < tokens.len()
            invariant
                i <= tokens@.len(),
                result@.len() == i,
                forall|j: int| 0 <= j < i ==> result@[j] == encode_token(tokens@[j]),
            decreases tokens@.len() - i,
        {
            let token = tokens[i];
            let program = match token {
                Token::Mov(Register::A, im) => self.gen_bin_code(0b0011, im),
                Token::Mov(Register::B, im) => self.gen_bin_code(0b0111, im),
                Token::MovAB => self.gen_bin_code_with_zero_padding(0b0001),
                Token::MovBA => self.gen_bin_code_with_zero_padding(0b0100),
                Token::Add(Register::A, im) => self.gen_bin_code(0b0000, im),
                Token::Add(Register::B, im) => self.gen_bin_code(0b0101, im),
                Token::Jmp(im) => self.gen_bin_code(0b1111, im),
                Token::Jnc(im) => self.gen_bin_code(0b1110, im),
                Token::In(Register::A) => self.gen_bin_code_with_zero_padding(0b0010),
                Token::In(Register::B) => self.gen_bin_code_with_zero_padding(0b0110),
                Token::OutB => self.gen_bin_code_with_zero_padding(0b1001),
                Token::OutIm(im) => self.gen_bin_code(0b1011, im),
            };
            result.push(program);
            i = i + 1;
        }

        Ok(result)
    }

    /// One instruction byte from an operation code and its immediate.
    fn gen_bin_code(&self, op: u8, im: u8) -> (r: u8)
        requires
            op < 16,
        ensures
            r == op * 16 + im % 16,
    {
        proof {
            assert((op << 4) | (im & 0x0f) == op * 16 + im % 16) by (bit_vector)
                requires
                    op < 16,
            ;
        }
        let shift_op = op << 4;
        let shift_data = im & 0x0f;
        shift_op | shift_data
    }

    /// One instruction byte for an operation that carries no immediate:
    /// the low nibble is zero.
    fn gen_bin_code_with_zero_padding(&self, op: u8) -> (r: u8)
        requires
            op < 16,
        ensures
            r == op * 16,
    {
        proof {
            assert((op << 4) | (0b0000u8 & 0x0f) == op * 16) by (bit_vector)
                requires
                    op < 16,
            ;
        }
        let shift_op = op << 4;
        let zero_padding = 0b0000 & 0x0f;
        shift_op | zero_padding
    }
}

} // verus!
