use chip8::processor::Processor;

fn run(program: &[u8], steps: usize) -> Processor {
    let mut p = Processor::new();
    p.load_program(program);
    let keys: Vec<u8> = Vec::new();
    for _ in 0..steps {
        p.execute_instruction(&keys);
    }
    p
}

#[test]
fn font_is_loaded_into_low_memory() {
    let p = Processor::new();
    // Digit 0 starts the table; digit F ends it.
    assert_eq!(p.memory_at(0x000), 0xF0);
    assert_eq!(p.memory_at(0x001), 0x90);
    assert_eq!(p.memory_at(0x04F), 0x80);
    assert_eq!(p.memory_at(0x050), 0x00);
}

#[test]
fn load_program_copies_from_program_start() {
    let mut p = Processor::new();
    p.load_program(&[0xAA, 0xBB, 0xCC]);
    assert_eq!(p.memory_at(0x200), 0xAA);
    assert_eq!(p.memory_at(0x201), 0xBB);
    assert_eq!(p.memory_at(0x202), 0xCC);
    assert_eq!(p.memory_at(0x203), 0x00);
}

#[test]
fn load_program_truncates_at_memory_end() {
    let mut p = Processor::new();
    let big = vec![0x77u8; 5000];
    p.load_program(&big);
    assert_eq!(p.memory_at(0xFFF), 0x77);
    // Nothing beyond memory exists; reads there yield 0.
    assert_eq!(p.memory_at(0x1000), 0x00);
}

#[test]
fn set_index_register() {
    let p = run(&[0xA1, 0x23], 1);
    assert_eq!(p.index_register(), 0x123);
}

#[test]
fn add_to_index_register_without_flag() {
    let p = run(&[0xA0, 0xFF, 0x60, 0x05, 0xF0, 0x1E], 3);
    assert_eq!(p.index_register(), 0x104);
    assert_eq!(p.register(0xF), 0);
}

#[test]
fn font_digit_address_is_five_bytes_per_digit() {
    let p = run(&[0x60, 0x0A, 0xF0, 0x29], 2);
    assert_eq!(p.index_register(), 50);
}

#[test]
fn bcd_writes_decimal_digits() {
    // V0 = 123; I = 0x300; Fx33.
    let p = run(&[0x60, 123, 0xA3, 0x00, 0xF0, 0x33], 3);
    assert_eq!(p.memory_at(0x300), 1);
    assert_eq!(p.memory_at(0x301), 2);
    assert_eq!(p.memory_at(0x302), 3);
}

#[test]
fn store_and_reload_registers() {
    // Fill V0..V2, dump them at 0x400, clear them, reload.
    let p = run(
        &[
            0x60, 0x11, // V0
            0x61, 0x22, // V1
            0x62, 0x33, // V2
            0xA4, 0x00, // I = 0x400
            0xF2, 0x55, // dump V0..=V2
            0x60, 0x00, 0x61, 0x00, 0x62, 0x00, // clear
            0xF2, 0x65, // reload V0..=V2
        ],
        9,
    );
    assert_eq!(p.memory_at(0x400), 0x11);
    assert_eq!(p.memory_at(0x401), 0x22);
    assert_eq!(p.memory_at(0x402), 0x33);
    assert_eq!(p.register(0x0), 0x11);
    assert_eq!(p.register(0x1), 0x22);
    assert_eq!(p.register(0x2), 0x33);
    // I itself did not move.
    assert_eq!(p.index_register(), 0x400);
}

#[test]
fn register_dump_does_not_touch_later_registers() {
    let p = run(&[0x63, 0x99, 0xA4, 0x00, 0xF0, 0x55], 3);
    // Only V0 was dumped; memory past I keeps its old bytes.
    assert_eq!(p.memory_at(0x400), 0x00);
    assert_eq!(p.memory_at(0x401), 0x00);
    assert_eq!(p.register(0x3), 0x99);
}

#[test]
fn out_of_range_store_is_dropped() {
    // I = 0xFFF, BCD writes at 0xFFF, 0x1000, 0x1001: only the first
    // lands; the machine neither wraps nor aborts.
    let p = run(&[0x60, 217, 0xAF, 0xFF, 0xF0, 0x33], 3);
    assert_eq!(p.memory_at(0xFFF), 2);
    assert_eq!(p.memory_at(0x000), 0xF0);
    assert_eq!(p.program_counter(), 0x206);
}
