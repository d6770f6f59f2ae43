use chip8::keypad::{key_pressed, min_key, KeypadState};

#[test]
fn min_key_finds_the_lowest() {
    assert_eq!(min_key(&vec![0x07, 0x03, 0x0C]), 0x03);
    assert_eq!(min_key(&vec![0x0F]), 0x0F);
    assert_eq!(min_key(&vec![0x02, 0x02, 0x09]), 0x02);
}

#[test]
fn key_pressed_scans_the_set() {
    let keys = vec![0x01, 0x04, 0x0A];
    assert!(key_pressed(&keys, 0x04));
    assert!(!key_pressed(&keys, 0x02));
    assert!(!key_pressed(&Vec::new(), 0x00));
}

#[test]
fn keypad_state_distinguishes_escape() {
    let quit = KeypadState::PressedEscape;
    let keys = KeypadState::PressedKeycodes(vec![0x01]);
    assert!(matches!(quit, KeypadState::PressedEscape));
    assert!(matches!(keys, KeypadState::PressedKeycodes(_)));
}
