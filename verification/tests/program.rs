use chip8::processor::Processor;
use chip8::program::{Program, PROGRAM_SIZE_MAX};

#[test]
fn from_bytes_pads_short_programs() {
    let p = Program::from_bytes(String::from("pong"), &[0xAA, 0xBB]);
    assert_eq!(p.name, "pong");
    assert_eq!(p.size, 2);
    assert_eq!(p.rom.len(), PROGRAM_SIZE_MAX);
    assert_eq!(p.rom[0], 0xAA);
    assert_eq!(p.rom[1], 0xBB);
    assert_eq!(p.rom[2], 0x00);
}

#[test]
fn from_bytes_truncates_oversized_programs() {
    let big = vec![0x11u8; PROGRAM_SIZE_MAX + 100];
    let p = Program::from_bytes(String::from("big"), &big);
    assert_eq!(p.size, PROGRAM_SIZE_MAX);
    assert_eq!(p.rom.len(), PROGRAM_SIZE_MAX);
    assert_eq!(p.rom[PROGRAM_SIZE_MAX - 1], 0x11);
}

#[test]
fn a_program_rom_loads_into_the_processor() {
    let program = Program::from_bytes(String::from("demo"), &[0x61, 0x2A]);
    let mut cpu = Processor::new();
    cpu.load_program(&program.rom);
    let keys: Vec<u8> = Vec::new();
    cpu.execute_instruction(&keys);
    assert_eq!(cpu.register(0x1), 0x2A);
}
