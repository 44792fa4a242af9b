use cpu_4bit_emulator::compiler::Compiler;
use cpu_4bit_emulator::emulator::CpuEmulator;
use cpu_4bit_emulator::op::Opcode;
use cpu_4bit_emulator::parser::Parser;
use cpu_4bit_emulator::port::Port;
use cpu_4bit_emulator::register::Register;
use cpu_4bit_emulator::rom::Rom;
use cpu_4bit_emulator::token::Token;

#[test]
fn test_compile_empty_fails() {
    let compiler = Compiler::new();
    let program = compiler.compile(vec![]);
    assert!(program.is_err());
}

#[test]
fn test_compile_empty_error_message() {
    let compiler = Compiler::new();
    let err = compiler.compile(vec![]).unwrap_err();
    assert_eq!(err.message(), "Failed to start to compile because token list is empty.");
}

#[test]
fn test_end_to_end_mov_then_add() {
    let source = vec![
        "mov".to_string(),
        "A".to_string(),
        "0001".to_string(),
        "add".to_string(),
        "A".to_string(),
        "0001".to_string(),
    ];
    let mut parser = Parser::new(source);
    let tokens = parser.parse().unwrap();
    let compiler = Compiler::new();
    let program = compiler.compile(tokens).unwrap();
    assert_eq!(program, vec![0b00110001, 0b00000001]);

    let rom = Rom::new(program);
    let register = Register::new();
    let port = Port::new(0b0000, 0b0000);
    let mut emu = CpuEmulator::with(register, port, rom);
    let proceeded = emu.exec();

    assert!(proceeded.is_ok());
    assert_eq!(emu.register.register_a(), 2);
    assert_eq!(emu.register.register_b(), 0);
    assert_eq!(emu.register.carry_flag(), 0);
    assert_eq!(emu.register.pc(), 2);
}

#[test]
fn test_jump_loop_increments_a_forever() {
    // JMP 2; ADD A,3; JMP 1: after the first jump the machine alternates
    // its program counter between 1 and 2, adding 3 to register A on each
    // visit, and never reaches a halting position.
    let rom = Rom::new(vec![0b11110010, 0b00000011, 0b11110001]);
    let register = Register::new();
    let port = Port::new(0b0000, 0b0000);
    let mut emu = CpuEmulator::with(register, port, rom);

    assert_eq!(emu.step().unwrap(), Opcode::Jmp);
    assert_eq!(emu.register.pc(), 2);

    let mut expected_a: u8 = 0;
    for _ in 0..8 {
        assert_eq!(emu.step().unwrap(), Opcode::Jmp);
        assert_eq!(emu.register.pc(), 1);
        assert!(!emu.does_halt());

        assert_eq!(emu.step().unwrap(), Opcode::AddA);
        expected_a = (expected_a + 3) & 0x0f;
        assert_eq!(emu.register.register_a(), expected_a);
        assert_eq!(emu.register.pc(), 2);
        assert!(!emu.does_halt());
    }
}

#[test]
fn test_exec_reports_program_that_never_halts() {
    // A one-instruction tight loop: JMP 0. The engine refuses to spin
    // forever and reports the divergence once the run has outlasted every
    // halting program.
    let rom = Rom::new(vec![0b11110000]);
    let register = Register::new();
    let port = Port::new(0b0000, 0b0000);
    let mut emu = CpuEmulator::with(register, port, rom);
    assert!(emu.exec().is_err());
    assert_eq!(emu.register.pc(), 0);
}

#[test]
fn test_exec_on_empty_rom_halts_untouched() {
    let rom = Rom::new(vec![]);
    let mut register = Register::new();
    register.set_register_a(7);
    register.set_carry_flag(1);
    let port = Port::new(0b0010, 0b0000);
    let mut emu = CpuEmulator::with(register, port, rom);
    let proceeded = emu.exec();

    assert!(proceeded.is_ok());
    assert_eq!(emu.register.register_a(), 7);
    assert_eq!(emu.register.register_b(), 0);
    assert_eq!(emu.register.carry_flag(), 1);
    assert_eq!(emu.register.pc(), 0);
    assert_eq!(emu.port.output(), 0);
}

#[test]
fn test_exec_full_sixteen_byte_program() {
    // The largest program the memory admits: sixteen MOV A,n slots, each
    // loading its own index; the run halts with the counter at 16.
    let mut bytes: Vec<u8> = Vec::new();
    for n in 0..16u8 {
        bytes.push((0b0011 << 4) | n);
    }
    let rom = Rom::new(bytes);
    let register = Register::new();
    let port = Port::new(0b0000, 0b0000);
    let mut emu = CpuEmulator::with(register, port, rom);
    let proceeded = emu.exec();

    assert!(proceeded.is_ok());
    assert_eq!(emu.register.pc(), 16);
    assert_eq!(emu.register.register_a(), 15);
}

#[test]
fn test_exec_fails_on_undefined_opcode() {
    // 0b1000 is one of the 4 nibbles the opcode table does not define.
    let rom = Rom::new(vec![0b10000000]);
    let register = Register::new();
    let port = Port::new(0b0000, 0b0000);
    let mut emu = CpuEmulator::with(register, port, rom);
    assert!(emu.exec().is_err());
    assert_eq!(emu.register.pc(), 0);
}

#[test]
fn test_add_sets_carry_on_overflow() {
    // MOV A,9 then ADD A,8: 17 overflows a nibble, so A wraps to 1 and the
    // carry flag is set.
    let rom = Rom::new(vec![0b00111001, 0b00001000]);
    let register = Register::new();
    let port = Port::new(0b0000, 0b0000);
    let mut emu = CpuEmulator::with(register, port, rom);
    let proceeded = emu.exec();

    assert!(proceeded.is_ok());
    assert_eq!(emu.register.register_a(), 1);
    assert_eq!(emu.register.carry_flag(), 1);
    assert_eq!(emu.register.pc(), 2);
}

#[test]
fn test_add_resets_stale_carry() {
    // A carry left by an earlier ADD is cleared by a later ADD that does
    // not overflow.
    let rom = Rom::new(vec![0b00111111, 0b00000001, 0b00000001]);
    let register = Register::new();
    let port = Port::new(0b0000, 0b0000);
    let mut emu = CpuEmulator::with(register, port, rom);
    let proceeded = emu.exec();

    // MOV A,15; ADD A,1 wraps to 0 with carry; ADD A,1 gives 1, carry clear.
    assert!(proceeded.is_ok());
    assert_eq!(emu.register.register_a(), 1);
    assert_eq!(emu.register.carry_flag(), 0);
    assert_eq!(emu.register.pc(), 3);
}

#[test]
fn test_jnc_taken_when_carry_clear() {
    // MOV A,1 leaves the carry clear, so JNC 3 branches past the end of
    // the two-slot program and the machine halts at 3.
    let rom = Rom::new(vec![0b00110001, 0b11100011]);
    let register = Register::new();
    let port = Port::new(0b0000, 0b0000);
    let mut emu = CpuEmulator::with(register, port, rom);
    let proceeded = emu.exec();

    assert!(proceeded.is_ok());
    assert_eq!(emu.register.pc(), 3);
    assert_eq!(emu.register.carry_flag(), 0);
}

#[test]
fn test_jnc_not_taken_when_carry_set() {
    // MOV A,15; ADD A,1 sets the carry, so JNC 0 falls through, resetting
    // the carry, and the machine halts right after the jump slot.
    let rom = Rom::new(vec![0b00111111, 0b00000001, 0b11100000]);
    let register = Register::new();
    let port = Port::new(0b0000, 0b0000);
    let mut emu = CpuEmulator::with(register, port, rom);
    let proceeded = emu.exec();

    assert!(proceeded.is_ok());
    assert_eq!(emu.register.pc(), 3);
    assert_eq!(emu.register.carry_flag(), 0);
    assert_eq!(emu.register.register_a(), 0);
}

#[test]
fn test_assembled_byte_decodes_back() {
    // High nibble carries the opcode, low nibble the immediate, for every
    // instruction kind.
    let compiler = Compiler::new();
    let tokens = vec![
        Token::Mov(cpu_4bit_emulator::token::Register::A, 5),
        Token::Mov(cpu_4bit_emulator::token::Register::B, 12),
        Token::MovAB,
        Token::MovBA,
        Token::Add(cpu_4bit_emulator::token::Register::A, 9),
        Token::Add(cpu_4bit_emulator::token::Register::B, 2),
        Token::Jmp(14),
        Token::Jnc(7),
        Token::In(cpu_4bit_emulator::token::Register::A),
        Token::In(cpu_4bit_emulator::token::Register::B),
        Token::OutB,
        Token::OutIm(3),
    ];
    let expected: Vec<(u8, u8)> = vec![
        (0b0011, 5),
        (0b0111, 12),
        (0b0001, 0),
        (0b0100, 0),
        (0b0000, 9),
        (0b0101, 2),
        (0b1111, 14),
        (0b1110, 7),
        (0b0010, 0),
        (0b0110, 0),
        (0b1001, 0),
        (0b1011, 3),
    ];
    let program = compiler.compile(tokens).unwrap();
    assert_eq!(program.len(), expected.len());
    for (byte, (opcode, im)) in program.iter().zip(expected.iter()) {
        assert_eq!(byte >> 4, *opcode);
        assert_eq!(byte & 0x0f, *im);
    }
}

#[test]
fn test_port_input_is_masked() {
    let port = Port::new(0xff, 0x3f);
    assert_eq!(port.input(), 0x0f);
    assert_eq!(port.output(), 0x0f);
}

#[test]
fn test_mov_a_every_immediate() {
    // One cycle of MOV A,n loads exactly n for every 4-bit immediate.
    for n in 0..16u8 {
        let rom = Rom::new(vec![(0b0011 << 4) | n]);
        let register = Register::new();
        let port = Port::new(0b0000, 0b0000);
        let mut emu = CpuEmulator::with(register, port, rom);
        assert!(emu.exec().is_ok());
        assert_eq!(emu.register.register_a(), n);
        assert_eq!(emu.register.carry_flag(), 0);
        assert_eq!(emu.register.pc(), 1);
    }
}

#[test]
fn test_add_a_every_pair() {
    // ADD A,b from A=a gives (a+b) mod 16, with the carry set exactly when
    // the sum exceeds 15.
    for a in 0..16u8 {
        for b in 0..16u8 {
            let rom = Rom::new(vec![b]);
            let mut register = Register::new();
            register.set_register_a(a);
            let port = Port::new(0b0000, 0b0000);
            let mut emu = CpuEmulator::with(register, port, rom);
            assert!(emu.exec().is_ok());
            assert_eq!(emu.register.register_a(), (a + b) & 0x0f);
            assert_eq!(emu.register.carry_flag(), if a as u16 + b as u16 > 15 { 1 } else { 0 });
        }
    }
}
