use chip8::processor::Processor;

fn run(program: &[u8], steps: usize) -> Processor {
    let mut p = Processor::new();
    p.load_program(program);
    let keys: Vec<u8> = Vec::new();
    for _ in 0..steps {
        p.execute_instruction(&keys);
    }
    p
}

#[test]
fn add_with_carry_sets_vf_and_wraps() {
    // V0 = 0xF0; V1 = 0x1F; V0 += V1.
    let p = run(&[0x60, 0xF0, 0x61, 0x1F, 0x80, 0x14], 3);
    assert_eq!(p.register(0x0), 0x0F);
    assert_eq!(p.register(0xF), 1);
}

#[test]
fn add_without_carry_clears_vf() {
    let p = run(&[0x60, 0xF0, 0x61, 0x0F, 0x80, 0x14], 3);
    assert_eq!(p.register(0x0), 0xFF);
    assert_eq!(p.register(0xF), 0);
}

#[test]
fn add_immediate_wraps_without_flag() {
    // V0 = 0xFF; V0 += 0x02 wraps to 0x01 and VF stays 0.
    let p = run(&[0x60, 0xFF, 0x70, 0x02], 2);
    assert_eq!(p.register(0x0), 0x01);
    assert_eq!(p.register(0xF), 0);
}

#[test]
fn sub_with_not_borrow_sets_vf() {
    // V0 = 0xFF; V1 = 0x0F; V0 -= V1.
    let p = run(&[0x60, 0xFF, 0x61, 0x0F, 0x80, 0x15], 3);
    assert_eq!(p.register(0x0), 0xF0);
    assert_eq!(p.register(0xF), 1);
}

#[test]
fn sub_with_borrow_clears_vf_and_wraps() {
    let p = run(&[0x60, 0x0F, 0x61, 0xFF, 0x80, 0x15], 3);
    assert_eq!(p.register(0x0), 0x10);
    assert_eq!(p.register(0xF), 0);
}

#[test]
fn subn_uses_reversed_operands() {
    // V0 = 0x0F; V1 = 0xFF; V0 = V1 - V0.
    let p = run(&[0x60, 0x0F, 0x61, 0xFF, 0x80, 0x17], 3);
    assert_eq!(p.register(0x0), 0xF0);
    assert_eq!(p.register(0xF), 1);
}

#[test]
fn shr_reports_low_bit_then_halves() {
    let p = run(&[0x60, 0x05, 0x80, 0x06], 2);
    assert_eq!(p.register(0x0), 0x02);
    assert_eq!(p.register(0xF), 1);
}

#[test]
fn shl_reports_high_bit_then_doubles() {
    let p = run(&[0x60, 0x81, 0x80, 0x0E], 2);
    assert_eq!(p.register(0x0), 0x02);
    assert_eq!(p.register(0xF), 1);
}

#[test]
fn bitwise_or_and_xor() {
    let p = run(&[0x60, 0b1100, 0x61, 0b1010, 0x80, 0x11], 3);
    assert_eq!(p.register(0x0), 0b1110);

    let p = run(&[0x60, 0b1100, 0x61, 0b1010, 0x80, 0x12], 3);
    assert_eq!(p.register(0x0), 0b1000);

    let p = run(&[0x60, 0b1100, 0x61, 0b1010, 0x80, 0x13], 3);
    assert_eq!(p.register(0x0), 0b0110);
}

#[test]
fn load_and_copy_registers() {
    let p = run(&[0x6A, 0x42, 0x8B, 0xA0], 2);
    assert_eq!(p.register(0xA), 0x42);
    assert_eq!(p.register(0xB), 0x42);
}

#[test]
fn random_byte_is_masked() {
    // Cxkk with kk = 0x0F: whatever byte came back, the high nibble is 0.
    let p = run(&[0xC0, 0x0F], 1);
    assert_eq!(p.register(0x0) & 0xF0, 0);
    assert_eq!(p.program_counter(), 0x202);
}
