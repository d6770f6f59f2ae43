use chip8::keypad::KeypadState;
use chip8::processor::Processor;
use chip8::system::{system_step, StepOutcome, CPU_SPEED_FACTOR, FREQUENCY};

#[test]
fn escape_quits_without_touching_the_processor() {
    let mut p = Processor::new();
    p.load_program(&[0x60, 0x55]);
    let r = system_step(&mut p, KeypadState::PressedEscape);
    assert!(matches!(r, StepOutcome::Quit));
    assert_eq!(p.program_counter(), 0x200);
    assert_eq!(p.register(0x0), 0x00);
}

#[test]
fn keycodes_drive_one_processor_step() {
    let mut p = Processor::new();
    p.load_program(&[0x60, 0x55]);
    let r = system_step(&mut p, KeypadState::PressedKeycodes(Vec::new()));
    match r {
        StepOutcome::Ran(out) => {
            assert!(!out.is_sound_on);
            assert!(!out.have_pixels_changed);
        }
        StepOutcome::Quit => unreachable!(),
    }
    assert_eq!(p.program_counter(), 0x202);
    assert_eq!(p.register(0x0), 0x55);
}

#[test]
fn timing_constants_match_the_machine() {
    assert_eq!(FREQUENCY, 60);
    assert_eq!(CPU_SPEED_FACTOR, 9);
}
