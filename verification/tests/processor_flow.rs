use chip8::processor::Processor;

fn run(program: &[u8], steps: usize) -> Processor {
    let mut p = Processor::new();
    p.load_program(program);
    let keys: Vec<u8> = Vec::new();
    for _ in 0..steps {
        p.execute_instruction(&keys);
    }
    p
}

#[test]
fn new_processor_starts_at_program_address() {
    let p = Processor::new();
    assert_eq!(p.program_counter(), 0x200);
    assert_eq!(p.stack_pointer(), 0);
    assert_eq!(p.index_register(), 0);
    assert!(!p.is_waiting_for_keypad());
}

#[test]
fn jump_sets_the_program_counter() {
    let p = run(&[0x1A, 0xBC], 1);
    assert_eq!(p.program_counter(), 0xABC);
}

#[test]
fn jump_with_offset_adds_v0() {
    let p = run(&[0x60, 0x05, 0xB3, 0x00], 2);
    assert_eq!(p.program_counter(), 0x305);
}

#[test]
fn call_pushes_return_address_and_return_pops_it() {
    // 0x200: call 0x206; 0x206: return.
    let mut p = Processor::new();
    p.load_program(&[0x22, 0x06, 0x00, 0x00, 0x00, 0x00, 0x00, 0xEE]);
    let keys: Vec<u8> = Vec::new();

    p.execute_instruction(&keys);
    assert_eq!(p.program_counter(), 0x206);
    assert_eq!(p.stack_pointer(), 1);

    p.execute_instruction(&keys);
    // Back at the address immediately after the call instruction.
    assert_eq!(p.program_counter(), 0x202);
    assert_eq!(p.stack_pointer(), 0);
}

#[test]
fn skip_equal_immediate() {
    let p = run(&[0x60, 0x07, 0x30, 0x07], 2);
    assert_eq!(p.program_counter(), 0x206);
    let p = run(&[0x60, 0x07, 0x30, 0x08], 2);
    assert_eq!(p.program_counter(), 0x204);
}

#[test]
fn skip_not_equal_immediate() {
    let p = run(&[0x60, 0x07, 0x40, 0x08], 2);
    assert_eq!(p.program_counter(), 0x206);
    let p = run(&[0x60, 0x07, 0x40, 0x07], 2);
    assert_eq!(p.program_counter(), 0x204);
}

#[test]
fn skip_on_register_comparison() {
    let p = run(&[0x60, 0x05, 0x61, 0x05, 0x50, 0x10], 3);
    assert_eq!(p.program_counter(), 0x208);
    let p = run(&[0x60, 0x05, 0x61, 0x06, 0x50, 0x10], 3);
    assert_eq!(p.program_counter(), 0x206);
    let p = run(&[0x60, 0x05, 0x61, 0x06, 0x90, 0x10], 3);
    assert_eq!(p.program_counter(), 0x208);
    let p = run(&[0x60, 0x05, 0x61, 0x05, 0x90, 0x10], 3);
    assert_eq!(p.program_counter(), 0x206);
}

#[test]
fn unknown_opcode_advances_and_changes_nothing_else() {
    // 0x5xy1 matches no pattern.  Give the machine some state first.
    let mut p = Processor::new();
    p.load_program(&[0x60, 0x11, 0x50, 0x01]);
    let keys: Vec<u8> = Vec::new();
    p.execute_instruction(&keys);

    let v: Vec<u8> = (0..16).map(|x| p.register(x)).collect();
    let mem: Vec<u8> = (0..4096).map(|a| p.memory_at(a)).collect();
    let (i, sp, dt, st) =
        (p.index_register(), p.stack_pointer(), p.delay_timer(), p.sound_timer());

    p.execute_instruction(&keys);
    assert_eq!(p.program_counter(), 0x204);
    let v2: Vec<u8> = (0..16).map(|x| p.register(x)).collect();
    let mem2: Vec<u8> = (0..4096).map(|a| p.memory_at(a)).collect();
    assert_eq!(v, v2);
    assert_eq!(mem, mem2);
    assert_eq!(i, p.index_register());
    assert_eq!(sp, p.stack_pointer());
    assert_eq!(dt, p.delay_timer());
    assert_eq!(st, p.sound_timer());
}

#[test]
fn skip_if_key_pressed() {
    let mut p = Processor::new();
    p.load_program(&[0x60, 0x0A, 0xE0, 0x9E]);
    let keys: Vec<u8> = Vec::new();
    p.execute_instruction(&keys);
    p.execute_instruction(&vec![0x0A]);
    assert_eq!(p.program_counter(), 0x206);

    let mut p = Processor::new();
    p.load_program(&[0x60, 0x0A, 0xE0, 0x9E]);
    p.execute_instruction(&keys);
    p.execute_instruction(&vec![0x0B]);
    assert_eq!(p.program_counter(), 0x204);
}

#[test]
fn skip_if_key_not_pressed() {
    let mut p = Processor::new();
    p.load_program(&[0x60, 0x0A, 0xE0, 0xA1]);
    let keys: Vec<u8> = Vec::new();
    p.execute_instruction(&keys);
    p.execute_instruction(&vec![0x0A]);
    assert_eq!(p.program_counter(), 0x204);

    let mut p = Processor::new();
    p.load_program(&[0x60, 0x0A, 0xE0, 0xA1]);
    p.execute_instruction(&keys);
    p.execute_instruction(&Vec::new());
    assert_eq!(p.program_counter(), 0x206);
}

#[test]
fn wait_for_key_stalls_until_a_key_and_stores_the_lowest() {
    let mut p = Processor::new();
    p.load_program(&[0xF5, 0x0A]);
    let keys: Vec<u8> = Vec::new();

    p.execute_instruction(&keys);
    assert!(p.is_waiting_for_keypad());
    assert_eq!(p.program_counter(), 0x202);

    // No key: the instruction stream does not advance.
    p.execute_instruction(&keys);
    assert!(p.is_waiting_for_keypad());
    assert_eq!(p.program_counter(), 0x202);

    // Keys pressed: the lowest key code lands in V5 and waiting ends.
    p.execute_instruction(&vec![0x07, 0x03, 0x0C]);
    assert!(!p.is_waiting_for_keypad());
    assert_eq!(p.register(0x5), 0x03);
    assert_eq!(p.program_counter(), 0x202);
}
