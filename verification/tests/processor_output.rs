use chip8::processor::Processor;

#[test]
fn timers_decrement_by_one_and_saturate_at_zero() {
    let mut p = Processor::new();
    p.load_program(&[0x60, 0x02, 0xF0, 0x15, 0xF0, 0x18]);
    let keys: Vec<u8> = Vec::new();
    for _ in 0..3 {
        p.execute_instruction(&keys);
    }
    assert_eq!(p.delay_timer(), 2);
    assert_eq!(p.sound_timer(), 2);

    p.update_timers();
    assert_eq!(p.delay_timer(), 1);
    assert_eq!(p.sound_timer(), 1);
    p.update_timers();
    assert_eq!(p.delay_timer(), 0);
    assert_eq!(p.sound_timer(), 0);
    p.update_timers();
    assert_eq!(p.delay_timer(), 0);
    assert_eq!(p.sound_timer(), 0);
}

#[test]
fn timers_do_not_move_while_waiting_for_keypad() {
    let mut p = Processor::new();
    p.load_program(&[0x60, 0x05, 0xF0, 0x15, 0xF1, 0x0A]);
    let keys: Vec<u8> = Vec::new();
    for _ in 0..3 {
        p.execute_instruction(&keys);
    }
    assert!(p.is_waiting_for_keypad());
    assert_eq!(p.delay_timer(), 5);
    p.update_timers();
    assert_eq!(p.delay_timer(), 5);
}

#[test]
fn delay_timer_can_be_read_back() {
    let mut p = Processor::new();
    p.load_program(&[0x60, 0x09, 0xF0, 0x15, 0xF1, 0x07]);
    let keys: Vec<u8> = Vec::new();
    for _ in 0..3 {
        p.execute_instruction(&keys);
    }
    assert_eq!(p.register(0x1), 9);
}

#[test]
fn output_reports_sound_state_and_pixels() {
    let mut p = Processor::new();
    // Sound timer on; draw digit 0's sprite at (0, 0).
    p.load_program(&[0x60, 0x03, 0xF0, 0x18, 0x61, 0x00, 0xA0, 0x00, 0xD1, 0x15]);
    let keys: Vec<u8> = Vec::new();
    let mut last = p.execute_instruction(&keys);
    assert!(!last.is_sound_on);
    for _ in 0..4 {
        last = p.execute_instruction(&keys);
    }
    assert!(last.is_sound_on);
    assert!(last.have_pixels_changed);
    // Digit 0 is a 4-wide, 5-high ring.
    assert!(last.pixels[0][0] && last.pixels[0][3]);
    assert!(last.pixels[2][0] && !last.pixels[2][1]);
    assert!(last.pixels[4][0] && last.pixels[4][3]);
    assert!(!last.pixels[0][4]);
    // VF reports no erasure on a blank canvas.
    assert_eq!(p.register(0xF), 0);
}

#[test]
fn output_dirty_flag_is_per_step() {
    let mut p = Processor::new();
    // Draw, then run an instruction that touches no pixel.
    p.load_program(&[0xA0, 0x00, 0xD0, 0x05, 0x63, 0x01]);
    let keys: Vec<u8> = Vec::new();
    p.execute_instruction(&keys);
    let after_draw = p.execute_instruction(&keys);
    assert!(after_draw.have_pixels_changed);
    let after_load = p.execute_instruction(&keys);
    assert!(!after_load.have_pixels_changed);
    // The pixels themselves are still there.
    assert!(after_load.pixels[0][0]);
}

#[test]
fn clear_screen_erases_every_pixel() {
    let mut p = Processor::new();
    p.load_program(&[0xA0, 0x00, 0xD0, 0x05, 0x00, 0xE0]);
    let keys: Vec<u8> = Vec::new();
    p.execute_instruction(&keys);
    p.execute_instruction(&keys);
    let out = p.execute_instruction(&keys);
    assert!(out.have_pixels_changed);
    for row in &out.pixels {
        for &px in row {
            assert!(!px);
        }
    }
}

#[test]
fn drawing_twice_erases_and_sets_vf() {
    let mut p = Processor::new();
    p.load_program(&[0xA0, 0x00, 0xD0, 0x05, 0xD0, 0x05]);
    let keys: Vec<u8> = Vec::new();
    p.execute_instruction(&keys);
    p.execute_instruction(&keys);
    assert_eq!(p.register(0xF), 0);
    let out = p.execute_instruction(&keys);
    // The second draw erased everything the first drew.
    assert_eq!(p.register(0xF), 1);
    assert!(out.have_pixels_changed);
    for row in &out.pixels {
        for &px in row {
            assert!(!px);
        }
    }
}
