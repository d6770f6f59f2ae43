use chip8::pc::ProgramCounter;

#[test]
fn new_holds_the_given_address() {
    let pc = ProgramCounter::new(0x200);
    assert_eq!(pc.get_current(), 0x200);
}

#[test]
fn get_next_does_not_move() {
    let pc = ProgramCounter::new(0x200);
    assert_eq!(pc.get_next(), 0x202);
    assert_eq!(pc.get_current(), 0x200);
}

#[test]
fn goto_next_advances_by_one_instruction() {
    let mut pc = ProgramCounter::new(0x200);
    pc.goto_next();
    assert_eq!(pc.get_current(), 0x202);
}

#[test]
fn skip_next_advances_by_two_instructions() {
    let mut pc = ProgramCounter::new(0x200);
    pc.skip_next();
    assert_eq!(pc.get_current(), 0x204);
}

#[test]
fn jump_sets_an_absolute_address() {
    let mut pc = ProgramCounter::new(0x200);
    pc.jump(0xABC);
    assert_eq!(pc.get_current(), 0xABC);
}

#[test]
fn advancing_wraps_in_the_address_space() {
    let mut pc = ProgramCounter::new(0xFFFE);
    pc.goto_next();
    assert_eq!(pc.get_current(), 0x0000);
}

#[test]
fn converts_into_its_address() {
    let pc = ProgramCounter::new(0x321);
    let address: usize = usize::from(pc);
    assert_eq!(address, 0x321);
}
