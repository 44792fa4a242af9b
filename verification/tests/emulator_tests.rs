use cpu_4bit_emulator::emulator::CpuEmulator;
use cpu_4bit_emulator::port::Port;
use cpu_4bit_emulator::register::Register;
use cpu_4bit_emulator::rom::Rom;

#[test]
fn test_mov_a() {
    let rom = Rom::new(vec![0b00110001]);
    let register = Register::new();
    let port = Port::new(0b0000, 0b0000);
    let mut emu = CpuEmulator::with(register, port, rom);
    let proceeded = emu.exec();

    assert!(proceeded.is_ok());
    assert_eq!(emu.register.register_a(), 1);
    assert_eq!(emu.register.register_b(), 0);
    assert_eq!(emu.register.pc(), 1);
    assert_eq!(emu.register.carry_flag(), 0);
}

#[test]
fn test_mov_b() {
    let rom = Rom::new(vec![0b01110001]);
    let register = Register::new();
    let port = Port::new(0b0000, 0b0000);
    let mut emu = CpuEmulator::with(register, port, rom);
    let proceeded = emu.exec();

    assert!(proceeded.is_ok());
    assert_eq!(emu.register.register_a(), 0);
    assert_eq!(emu.register.register_b(), 1);
    assert_eq!(emu.register.pc(), 1);
    assert_eq!(emu.register.carry_flag(), 0);
}

#[test]
fn test_mov_a2b() {
    let rom = Rom::new(vec![0b00010000]);
    let mut register = Register::new();
    register.set_register_b(2);
    let port = Port::new(0b0000, 0b0000);
    let mut emu = CpuEmulator::with(register, port, rom);

    assert_eq!(emu.register.register_a(), 0);

    let proceeded = emu.exec();

    assert!(proceeded.is_ok());
    assert_eq!(emu.register.register_a(), 2);
    assert_eq!(emu.register.register_b(), 2);
    assert_eq!(emu.register.carry_flag(), 0);
}

#[test]
fn test_mov_b2a() {
    let rom = Rom::new(vec![0b01000000]);
    let mut register = Register::new();
    register.set_register_a(2);
    let port = Port::new(0b0000, 0b0000);
    let mut emu = CpuEmulator::with(register, port, rom);

    assert_eq!(emu.register.register_b(), 0);

    let proceeded = emu.exec();

    assert!(proceeded.is_ok());
    assert_eq!(emu.register.register_a(), 2);
    assert_eq!(emu.register.register_b(), 2);
    assert_eq!(emu.register.carry_flag(), 0);
}

#[test]
fn test_add_a_without_carrying() {
    let rom = Rom::new(vec![0b00000001]);
    let mut register = Register::new();
    register.set_register_a(1);
    let port = Port::new(0b0000, 0b0000);
    let mut emu = CpuEmulator::with(register, port, rom);
    let proceeded = emu.exec();

    assert!(proceeded.is_ok());
    assert_eq!(emu.register.register_a(), 2);
    assert_eq!(emu.register.register_b(), 0);
    assert_eq!(emu.register.pc(), 1);
    assert_eq!(emu.register.carry_flag(), 0);
}

#[test]
fn test_add_b_without_carrying() {
    let rom = Rom::new(vec![0b01010001]);
    let mut register = Register::new();
    register.set_register_b(1);
    let port = Port::new(0b0000, 0b0000);
    let mut emu = CpuEmulator::with(register, port, rom);
    let proceeded = emu.exec();

    assert!(proceeded.is_ok());
    assert_eq!(emu.register.register_a(), 0);
    assert_eq!(emu.register.register_b(), 2);
    assert_eq!(emu.register.pc(), 1);
    assert_eq!(emu.register.carry_flag(), 0);
}

#[test]
fn test_jmp() {
    let rom = Rom::new(vec![0b11110010, 0b00110001, 0b01110010]);
    let register = Register::new();
    let port = Port::new(0b0000, 0b0000);
    let mut emu = CpuEmulator::with(register, port, rom);
    let proceeded = emu.exec();

    assert!(proceeded.is_ok());
    assert_eq!(emu.register.pc(), 3);
    assert_eq!(emu.register.register_a(), 0);
    assert_eq!(emu.register.register_b(), 2);
}

#[test]
fn test_port_in_a() {
    let rom = Rom::new(vec![0b00100000]);
    let register = Register::new();
    assert_eq!(register.register_a(), 0b0000);
    let port = Port::new(0b0001, 0b0000);
    let mut emu = CpuEmulator::with(register, port, rom);
    let proceeded = emu.exec();

    assert!(proceeded.is_ok());
    assert_eq!(emu.register.register_a(), 1);
    assert_eq!(emu.register.carry_flag(), 0);
}

#[test]
fn test_port_in_b() {
    let rom = Rom::new(vec![0b01100000]);
    let register = Register::new();
    assert_eq!(register.register_b(), 0b0000);
    let port = Port::new(0b0001, 0b0000);
    let mut emu = CpuEmulator::with(register, port, rom);
    let proceeded = emu.exec();

    assert!(proceeded.is_ok());
    assert_eq!(emu.register.register_b(), 1);
    assert_eq!(emu.register.carry_flag(), 0);
}

#[test]
fn test_port_out_b() {
    let rom = Rom::new(vec![0b10010000]);
    let mut register = Register::new();
    register.set_register_b(0b0001);
    let port = Port::new(0b0000, 0b0000);
    let mut emu = CpuEmulator::with(register, port, rom);
    let proceeded = emu.exec();

    assert!(proceeded.is_ok());
    assert_eq!(emu.port.output(), 1);
    assert_eq!(emu.register.carry_flag(), 0);
}

#[test]
fn test_port_out_im() {
    let rom = Rom::new(vec![0b10110001]);
    let register = Register::new();
    let port = Port::new(0b0000, 0b0000);
    let mut emu = CpuEmulator::with(register, port, rom);
    let proceeded = emu.exec();

    assert!(proceeded.is_ok());
    assert_eq!(emu.port.output(), 1);
    assert_eq!(emu.register.carry_flag(), 0);
}
