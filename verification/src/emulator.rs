//! The execution engine: fetches, decodes, and executes a byte program
//! against the architectural state, one FETCH / DECODE / EXECUTE / ADVANCE
//! cycle per step, until the program counter runs past the end of memory.

use vstd::prelude::*;

use crate::compiler::encode_token;
use crate::error::EmulatorErr;
use crate::op::{decoded_immediate, opcode_of_nibble, Opcode};
use crate::port::Port;
use crate::register::Register;
use crate::rom::Rom;
use crate::token::Token;

verus! {

/// A snapshot of everything one instruction can read or write: the two
/// data registers, the carry flag, the program counter, and the two halves
/// of the port. The instruction memory is carried separately because it
/// never changes.
pub struct MachineState {
    pub a: u8,
    pub b: u8,
    pub carry: u8,
    pub pc: u8,
    pub input: u8,
    pub output: u8,
}

/// Every component in range: nibbles throughout, a 1-bit carry, and a
/// program counter at most one past the last slot of a full memory.
pub open spec fn state_wf(s: MachineState) -> bool {
    &&& s.a < 16
    &&& s.b < 16
    &&& s.carry < 2
    &&& s.pc <= 16
    &&& s.input < 16
    &&& s.output < 16
}

/// The machine has halted: the program counter points past the end of
/// memory. Reaching this position is the sole termination condition; the
/// architecture has no explicit halt instruction.
pub open spec fn halted(s: MachineState, rom: Seq<u8>) -> bool {
    s.pc >= rom.len()
}

/// The masked 4-bit result of adding an immediate to a register.
pub open spec fn add_result(x: u8, im: u8) -> u8 {
    (((x + im) % 16) as u8)
}

/// The carry an addition leaves behind: set exactly when the true sum
/// does not fit in 4 bits.
pub open spec fn add_carry(x: u8, im: u8) -> u8 {
    if x + im > 15 {
        1
    } else {
        0
    }
}

/// The EXECUTE and ADVANCE phases of one cycle: the effect of one decoded
/// operation on the state. Every operation rewrites the carry flag: the
/// additions set it exactly on overflow, everything else resets it to
/// zero. The program counter advances by one except for JMP and a taken
/// JNC, which assign it directly.
pub open spec fn apply_op(s: MachineState, op: Opcode, im: u8) -> MachineState {
    let advanced = MachineState { carry: 0, pc: ((s.pc + 1) as u8), ..s };
    match op {
        Opcode::MovA => MachineState { a: (im % 16) as u8, ..advanced },
        Opcode::MovB => MachineState { b: (im % 16) as u8, ..advanced },
        Opcode::MovA2B => MachineState { a: (s.b % 16) as u8, ..advanced },
        Opcode::MovB2A => MachineState { b: (s.a % 16) as u8, ..advanced },
        Opcode::AddA => MachineState {
            a: add_result(s.a, im),
            carry: add_carry(s.a, im),
            pc: ((s.pc + 1) as u8),
            ..s
        },
        Opcode::AddB => MachineState {
            b: add_result(s.b, im),
            carry: add_carry(s.b, im),
            pc: ((s.pc + 1) as u8),
            ..s
        },
        Opcode::Jmp => MachineState { carry: 0, pc: (im % 16) as u8, ..s },
        Opcode::Jnc => MachineState {
            carry: 0,
            pc: if s.carry == 0 {
                (im % 16) as u8
            } else {
                ((s.pc + 1) as u8)
            },
            ..s
        },
        Opcode::InA => MachineState { a: (s.input % 16) as u8, ..advanced },
        Opcode::InB => MachineState { b: (s.input % 16) as u8, ..advanced },
        Opcode::OutB => MachineState { output: (s.b % 16) as u8, ..advanced },
        Opcode::OutIm => MachineState { output: (im % 16) as u8, ..advanced },
    }
}

/// One full cycle of a machine that has not halted: fetch the byte under
/// the program counter, split it into its nibbles, look the operation up,
/// and apply it. `None` when the high nibble is one of the 4 codes the
/// opcode table does not define.
pub open spec fn step_spec(s: MachineState, rom: Seq<u8>) -> Option<MachineState>
    recommends
        !halted(s, rom),
{
    let byte = rom[s.pc as int];
    match opcode_of_nibble(byte / 16) {
        Some(op) => Some(apply_op(s, op, decoded_immediate(op, byte % 16))),
        None => None,
    }
}

/// The state after `n` cycles, or `None` if the machine halted or hit an
/// undefined opcode before completing them.
pub open spec fn steps(s: MachineState, rom: Seq<u8>, n: nat) -> Option<MachineState>
    decreases n,
{
    if n == 0 {
        Some(s)
    } else {
        match steps(s, rom, (n - 1) as nat) {
            Some(t) => if halted(t, rom) {
                None
            } else {
                step_spec(t, rom)
            },
            None => None,
        }
    }
}

/// A halted machine takes no further step: once the program counter
/// reaches or exceeds the memory length, no later state exists, so no
/// further mutation can happen.
pub proof fn lemma_halted_machine_takes_no_step(s: MachineState, rom: Seq<u8>, n: nat)
    requires
        halted(s, rom),
        n >= 1,
    ensures
        steps(s, rom, n) is None,
    decreases n,
{
    if n == 1 {
        assert(steps(s, rom, 0) == Some(s));
    } else {
        lemma_halted_machine_takes_no_step(s, rom, (n - 1) as nat);
    }
}

/// More cycles than the machine has distinct states. The recurring state
/// is (a, b, carry, pc, output) with the input and the memory fixed:
/// 16 * 16 * 2 * 17 * 16 configurations. A run that has not halted within
/// that many cycles has revisited a state, and the machine is
/// deterministic, so it will never halt.
pub const STEP_BUDGET: u64 = 16 * 16 * 2 * 17 * 16 + 1;

/// The execution engine: exclusive owner of the register file, the port,
/// and the instruction memory for the duration of a run.
pub struct CpuEmulator {
    pub register: Register,
    pub port: Port,
    pub rom: Rom,
}

impl CpuEmulator {
    /// Every component well formed.
    pub open spec fn wf(self) -> bool {
        &&& self.register.wf()
        &&& self.port.wf()
        &&& self.rom.wf()
    }

    /// The snapshot of the mutable architectural state.
    pub open spec fn state(self) -> MachineState {
        MachineState {
            a: self.register.register_a,
            b: self.register.register_b,
            carry: self.register.carry_flag,
            pc: self.register.pc,
            input: self.port.input,
            output: self.port.output,
        }
    }

    /// The instruction bytes held in memory.
    pub open spec fn prog(self) -> Seq<u8> {
        self.rom.memory_array@
    }

    /// An engine over the given state and program. The memory bound is a
    /// construction-time invariant of `Rom`; the register and port bounds
    /// hold of every value their constructors and setters produce.
    pub fn with(register: Register, port: Port, rom: Rom) -> (r: Self)
        requires
            register.wf(),
            port.wf(),
            rom.wf(),
        ensures
            r.register == register,
            r.port == port,
            r.rom == rom,
            r.wf(),
    {
        Self { register, port, rom }
    }

    /// FETCH: the byte under the program counter.
    fn fetch(&self) -> (r: u8)
        requires
            self.wf(),
            !halted(self.state(), self.prog()),
        ensures
            r == self.prog()[self.state().pc as int],
    {
        let pc = self.register.pc();
        self.rom.read(pc)
    }

    /// DECODE: split a byte into its nibbles and look the operation up.
    /// The operand is the low nibble for the operations that use one and
    /// zero for IN and OUT B. An undefined code is structurally
    /// unreachable in an assembled program but still rejected, as a
    /// defensive invariant check.
    fn decode(&self, data: u8) -> (r: Result<(Opcode, u8), EmulatorErr>)
        ensures
            match r {
                Ok(decoded) => {
                    &&& opcode_of_nibble(data / 16) == Some(decoded.0)
                    &&& decoded.1 == decoded_immediate(decoded.0, data % 16)
                    &&& decoded.1 < 16
                },
                Err(_) => opcode_of_nibble(data / 16) is None,
            },
    {
        let op = data >> 4;
        let im = data & 0x0f;
        proof {
            assert(data >> 4 == data / 16 && data & 0x0f == data % 16 && data & 0x0f < 16)
                by (bit_vector);
        }

        match op {
            0b0000 => Ok((Opcode::AddA, im)),
            0b0001 => Ok((Opcode::MovA2B, im)),
            0b0010 => Ok((Opcode::InA, 0)),
            0b0011 => Ok((Opcode::MovA, im)),
            0b0100 => Ok((Opcode::MovB2A, im)),
            0b0101 => Ok((Opcode::AddB, im)),
            0b0110 => Ok((Opcode::InB, 0)),
            0b0111 => Ok((Opcode::MovB, im)),
            0b1001 => Ok((Opcode::OutB, 0)),
            0b1011 => Ok((Opcode::OutIm, im)),
            0b1110 => Ok((Opcode::Jnc, im)),
            0b1111 => Ok((Opcode::Jmp, im)),
            _ => Err(EmulatorErr::new("No match for opcode")),
        }
    }

    /// The machine has halted: the program counter points past the end of
    /// memory.
    pub fn does_halt(&self) -> (r: bool)
        requires
            self.rom.wf(),
        ensures
            r == halted(self.state(), self.prog()),
    {
        self.register.pc() >= self.rom.size()
    }

    /// One FETCH / DECODE / EXECUTE / ADVANCE cycle of a machine that has
    /// not halted. Returns the operation that was executed, so a driver
    /// can observe OUT effects, or the decode error, which leaves the
    /// state untouched.
    pub fn step(&mut self) -> (r: Result<Opcode, EmulatorErr>)
        requires
            old(self).wf(),
            !halted(old(self).state(), old(self).prog()),
        ensures
            final(self).wf(),
            final(self).prog() == old(self).prog(),
            final(self).port.input == old(self).port.input,
            match r {
                Ok(op) => {
                    &&& opcode_of_nibble(
                        old(self).prog()[old(self).state().pc as int] / 16,
                    ) == Some(op)
                    &&& Some(final(self).state()) == step_spec(
                        old(self).state(),
                        old(self).prog(),
                    )
                },
                Err(_) => {
                    &&& step_spec(old(self).state(), old(self).prog()) is None
                    &&& final(self).state() == old(self).state()
                },
            },
    {
        let data = self.fetch();
        let decoded = self.decode(data);
        match decoded {
            Err(e) => Err(e),
            Ok((opcode, im)) => {
                let branch_taken = match opcode {
                    Opcode::Jmp => true,
                    Opcode::Jnc => self.register.carry_flag() == 0,
                    _ => false,
                };
                match opcode {
                    Opcode::MovA => self.mov_a(im),
                    Opcode::MovB => self.mov_b(im),
                    Opcode::AddA => self.add_a(im),
                    Opcode::AddB => self.add_b(im),
                    Opcode::MovA2B => self.mov_a2b(),
                    Opcode::MovB2A => self.mov_b2a(),
                    Opcode::Jmp => self.jmp(im),
                    Opcode::Jnc => self.jnc(im),
                    Opcode::InA => self.in_a(),
                    Opcode::InB => self.in_b(),
                    Opcode::OutB => self.out_b(),
                    Opcode::OutIm => self.out_im(im),
                }
                if !branch_taken {
                    self.register.incr_pc();
                }
                Ok(opcode)
            },
        }
    }

    /// Runs cycles until the machine halts. A program that halts does so
    /// within `STEP_BUDGET - 1` cycles, because a longer run must revisit
    /// a state; a run that exhausts the budget therefore never halts, and
    /// is reported as an error instead of looping forever.
    pub fn exec(&mut self) -> (r: Result<(), EmulatorErr>)
        requires
            old(self).wf(),
        ensures
            final(self).wf(),
            final(self).prog() == old(self).prog(),
            final(self).port.input == old(self).port.input,
            match r {
                Ok(_) => exists|n: nat|
                    #![trigger steps(old(self).state(), old(self).prog(), n)]
                    {
                        &&& n <= STEP_BUDGET
                        &&& steps(old(self).state(), old(self).prog(), n) == Some(
                            final(self).state(),
                        )
                        &&& halted(final(self).state(), final(self).prog())
                    },
                Err(_) => {
                    ||| exists|n: nat|
                        #![trigger steps(old(self).state(), old(self).prog(), n)]
                        {
                            &&& n < STEP_BUDGET
                            &&& steps(old(self).state(), old(self).prog(), n) == Some(
                                final(self).state(),
                            )
                            &&& !halted(final(self).state(), final(self).prog())
                            &&& step_spec(final(self).state(), final(self).prog()) is None
                        }
                    ||| {
                        &&& steps(
                            old(self).state(),
                            old(self).prog(),
                            STEP_BUDGET as nat,
                        ) == Some(final(self).state())
                        &&& !halted(final(self).state(), final(self).prog())
                    }
                },
            },
            halted(old(self).state(), old(self).prog()) ==> r is Ok && final(self).state()
                == old(self).state(),
    {
        let ghost s0 = self.state();
        let ghost program = self.prog();
        let mut count: u64 = 0;
        loop
            invariant
                self.wf(),
                s0 == old(self).state(),
                program == old(self).prog(),
                self.prog() == program,
                self.port.input == s0.input,
                count <= STEP_BUDGET,
                steps(s0, program, count as nat) == Some(self.state()),
            decreases STEP_BUDGET - count,
        {
            if self.does_halt() {
                proof {
                    if halted(s0, program) && count >= 1 {
                        lemma_halted_machine_takes_no_step(s0, program, count as nat);
                    }
                }
                return Ok(());
            }
            if count == STEP_BUDGET {
                proof {
                    if halted(s0, program) {
                        lemma_halted_machine_takes_no_step(s0, program, count as nat);
                    }
                }
                return Err(EmulatorErr::new("Program cannot halt: it has outrun every halting run"));
            }
            let stepped = self.step();
            match stepped {
                Ok(_) => {},
                Err(e) => {
                    proof {
                        if halted(s0, program) && count >= 1 {
                            lemma_halted_machine_takes_no_step(s0, program, count as nat);
                        }
                    }
                    return Err(e);
                },
            }
            count = count + 1;
        }
    }

    /// MOV A,im: register A takes the immediate.
    fn mov_a(&mut self, im: u8)
        ensures
            final(self).register.register_a == im % 16,
            final(self).register.register_b == old(self).register.register_b,
            final(self).register.carry_flag == 0,
            final(self).register.pc == old(self).register.pc,
            final(self).port == old(self).port,
            final(self).rom == old(self).rom,
    {
        self.register.set_register_a(im);
        self.register.set_carry_flag(0);
    }

    /// MOV B,im: register B takes the immediate.
    fn mov_b(&mut self, im: u8)
        ensures
            final(self).register.register_b == im % 16,
            final(self).register.register_a == old(self).register.register_a,
            final(self).register.carry_flag == 0,
            final(self).register.pc == old(self).register.pc,
            final(self).port == old(self).port,
            final(self).rom == old(self).rom,
    {
        self.register.set_register_b(im);
        self.register.set_carry_flag(0);
    }

    /// MOV A,B: register A takes register B's value.
    fn mov_a2b(&mut self)
        ensures
            final(self).register.register_a == old(self).register.register_b % 16,
            final(self).register.register_b == old(self).register.register_b,
            final(self).register.carry_flag == 0,
            final(self).register.pc == old(self).register.pc,
            final(self).port == old(self).port,
            final(self).rom == old(self).rom,
    {
        let register_b = self.register.register_b();
        self.register.set_register_a(register_b);
        self.register.set_carry_flag(0);
    }

    /// MOV B,A: register B takes register A's value.
    fn mov_b2a(&mut self)
        ensures
            final(self).register.register_b == old(self).register.register_a % 16,
            final(self).register.register_a == old(self).register.register_a,
            final(self).register.carry_flag == 0,
            final(self).register.pc == old(self).register.pc,
            final(self).port == old(self).port,
            final(self).rom == old(self).rom,
    {
        let register_a = self.register.register_a();
        self.register.set_register_b(register_a);
        self.register.set_carry_flag(0);
    }

    /// ADD A,im: 4-bit addition into register A; the carry flag records
    /// whether the true sum overflowed a nibble.
    fn add_a(&mut self, im: u8)
        requires
            old(self).register.register_a < 16,
            im < 16,
        ensures
            final(self).register.register_a == add_result(old(self).register.register_a, im),
            final(self).register.register_b == old(self).register.register_b,
            final(self).register.carry_flag == add_carry(old(self).register.register_a, im),
            final(self).register.pc == old(self).register.pc,
            final(self).port == old(self).port,
            final(self).rom == old(self).rom,
    {
        let existence = self.register.register_a();
        let new_value = existence + im;

        if new_value > 0x0f {
            self.register.set_carry_flag(1);
        } else {
            self.register.set_carry_flag(0);
        }

        proof {
            assert(new_value & 0x0f == new_value % 16) by (bit_vector);
        }
        self.register.set_register_a(new_value & 0x0f);
    }

    /// ADD B,im: 4-bit addition into register B, same carry rule.
    fn add_b(&mut self, im: u8)
        requires
            old(self).register.register_b < 16,
            im < 16,
        ensures
            final(self).register.register_b == add_result(old(self).register.register_b, im),
            final(self).register.register_a == old(self).register.register_a,
            final(self).register.carry_flag == add_carry(old(self).register.register_b, im),
            final(self).register.pc == old(self).register.pc,
            final(self).port == old(self).port,
            final(self).rom == old(self).rom,
    {
        let existence = self.register.register_b();
        let new_value = existence + im;

        if new_value > 0x0f {
            self.register.set_carry_flag(1);
        } else {
            self.register.set_carry_flag(0);
        }

        proof {
            assert(new_value & 0x0f == new_value % 16) by (bit_vector);
        }
        self.register.set_register_b(new_value & 0x0f);
    }

    /// JMP im: the program counter takes the target directly; the ADVANCE
    /// phase is suppressed so the target is not immediately overwritten.
    fn jmp(&mut self, im: u8)
        ensures
            final(self).register.pc == im % 16,
            final(self).register.register_a == old(self).register.register_a,
            final(self).register.register_b == old(self).register.register_b,
            final(self).register.carry_flag == 0,
            final(self).port == old(self).port,
            final(self).rom == old(self).rom,
    {
        self.register.set_pc(im);
        self.register.set_carry_flag(0);
    }

    /// JNC im: branches to the target exactly when the carry flag is
    /// clear; the carry flag is reset either way.
    fn jnc(&mut self, im: u8)
        ensures
            final(self).register.pc == if old(self).register.carry_flag == 0 {
                (im % 16) as u8
            } else {
                old(self).register.pc
            },
            final(self).register.register_a == old(self).register.register_a,
            final(self).register.register_b == old(self).register.register_b,
            final(self).register.carry_flag == 0,
            final(self).port == old(self).port,
            final(self).rom == old(self).rom,
    {
        if self.register.carry_flag() == 0 {
            self.register.set_pc(im);
        }
        self.register.set_carry_flag(0);
    }

    /// IN A: register A takes the input nibble.
    fn in_a(&mut self)
        ensures
            final(self).register.register_a == old(self).port.input % 16,
            final(self).register.register_b == old(self).register.register_b,
            final(self).register.carry_flag == 0,
            final(self).register.pc == old(self).register.pc,
            final(self).port == old(self).port,
            final(self).rom == old(self).rom,
    {
        let input_port = self.port.input();
        self.register.set_register_a(input_port);
        self.register.set_carry_flag(0);
    }

    /// IN B: register B takes the input nibble.
    fn in_b(&mut self)
        ensures
            final(self).register.register_b == old(self).port.input % 16,
            final(self).register.register_a == old(self).register.register_a,
            final(self).register.carry_flag == 0,
            final(self).register.pc == old(self).register.pc,
            final(self).port == old(self).port,
            final(self).rom == old(self).rom,
    {
        let input_port = self.port.input();
        self.register.set_register_b(input_port);
        self.register.set_carry_flag(0);
    }

    /// OUT B: the output nibble takes register B's value; an externally
    /// observable effect.
    fn out_b(&mut self)
        ensures
            final(self).port.output == old(self).register.register_b % 16,
            final(self).port.input == old(self).port.input,
            final(self).register.register_a == old(self).register.register_a,
            final(self).register.register_b == old(self).register.register_b,
            final(self).register.carry_flag == 0,
            final(self).register.pc == old(self).register.pc,
            final(self).rom == old(self).rom,
    {
        let register_b = self.register.register_b();
        self.port.set_output(register_b);
        self.register.set_carry_flag(0);
    }

    /// OUT im: the output nibble takes the immediate; an externally
    /// observable effect.
    fn out_im(&mut self, im: u8)
        ensures
            final(self).port.output == im % 16,
            final(self).port.input == old(self).port.input,
            final(self).register.register_a == old(self).register.register_a,
            final(self).register.register_b == old(self).register.register_b,
            final(self).register.carry_flag == 0,
            final(self).register.pc == old(self).register.pc,
            final(self).rom == old(self).rom,
    {
        self.port.set_output(im);
        self.register.set_carry_flag(0);
    }
}

/// Assembling MOV A,im and executing one cycle loads the immediate into
/// register A, clears the carry flag, and advances the program counter
/// to 1, whatever the rest of the starting state holds.
pub proof fn lemma_mov_a_single_cycle(s: MachineState, n: u8)
    requires
        state_wf(s),
        s.pc == 0,
        n < 16,
    ensures
        step_spec(s, seq![encode_token(Token::Mov(crate::token::Register::A, n))]) == Some(
            (MachineState { a: n, carry: 0, pc: 1, ..s }),
        ),
{
    let t = Token::Mov(crate::token::Register::A, n);
    crate::compiler::lemma_assemble_decode_roundtrip(t);
    let rom = seq![encode_token(t)];
    assert(rom[s.pc as int] == encode_token(t));
}

/// ADD A,im over any starting value of register A: the result is the sum
/// modulo 16, and the carry flag is set exactly when the true sum
/// exceeds 15.
pub proof fn lemma_add_a_single_cycle(s: MachineState, b: u8)
    requires
        state_wf(s),
        s.pc == 0,
        b < 16,
    ensures
        step_spec(s, seq![encode_token(Token::Add(crate::token::Register::A, b))]) == Some(
            (MachineState {
                a: ((s.a + b) % 16) as u8,
                carry: if s.a + b > 15 {
                    1u8
                } else {
                    0u8
                },
                pc: 1,
                ..s
            }),
        ),
{
    let t = Token::Add(crate::token::Register::A, b);
    crate::compiler::lemma_assemble_decode_roundtrip(t);
    let rom = seq![encode_token(t)];
    assert(rom[s.pc as int] == encode_token(t));
}

/// JNC branches to its target exactly when the carry flag is clear at
/// execution time, and the carry flag is zero immediately after, whether
/// or not the branch was taken.
pub proof fn lemma_jnc_branches_iff_no_carry(s: MachineState, rom: Seq<u8>, target: u8)
    requires
        state_wf(s),
        rom.len() <= 16,
        s.pc < rom.len(),
        opcode_of_nibble(rom[s.pc as int] / 16) == Some(Opcode::Jnc),
        target == rom[s.pc as int] % 16,
    ensures
        step_spec(s, rom) == Some(
            (MachineState {
                carry: 0,
                pc: if s.carry == 0 {
                    target
                } else {
                    ((s.pc + 1) as u8)
                },
                ..s
            }),
        ),
{
}

} // verus!
