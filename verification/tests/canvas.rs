use chip8::canvas::Canvas;

fn on_pixels(c: &Canvas) -> Vec<(usize, usize)> {
    let mut out = Vec::new();
    for y in 0..32 {
        for x in 0..64 {
            if c.pixels[y][x] {
                out.push((y, x));
            }
        }
    }
    out
}

#[test]
fn new_canvas_is_blank() {
    let c = Canvas::new();
    assert_eq!(c.pixels.len(), 32);
    for row in &c.pixels {
        assert_eq!(row.len(), 64);
        for &p in row {
            assert!(!p);
        }
    }
    assert!(!c.have_pixels_changed);
}

#[test]
fn draw_one_byte_row() {
    let mut c = Canvas::new();
    let erased = c.draw_sprite(0, 0, &[0b1010_0001]);
    assert!(!erased);
    assert!(c.have_pixels_changed);
    assert!(c.pixels[0][0]);
    assert!(!c.pixels[0][1]);
    assert!(c.pixels[0][2]);
    assert!(!c.pixels[0][3]);
    assert!(c.pixels[0][7]);
    assert_eq!(on_pixels(&c).len(), 3);
}

#[test]
fn draw_all_zero_sprite_changes_nothing() {
    let mut c = Canvas::new();
    let erased = c.draw_sprite(10, 10, &[0x00, 0x00]);
    assert!(!erased);
    assert!(!c.have_pixels_changed);
    assert_eq!(on_pixels(&c).len(), 0);
}

#[test]
fn draw_twice_restores_canvas() {
    let mut c = Canvas::new();
    c.draw_sprite(7, 3, &[0xF0, 0x90, 0x90, 0x90, 0xF0]);
    let before: Vec<(usize, usize)> = on_pixels(&c);
    assert!(!before.is_empty());

    // The first draw lit pixels that were off; drawing again erases
    // exactly those, so the second call reports a collision and the
    // canvas returns to blank.
    let erased = c.draw_sprite(7, 3, &[0xF0, 0x90, 0x90, 0x90, 0xF0]);
    assert!(erased);
    assert_eq!(on_pixels(&c).len(), 0);
}

#[test]
fn collision_reported_only_when_lit_pixel_erased() {
    let mut c = Canvas::new();
    let e1 = c.draw_sprite(0, 0, &[0b1000_0000]);
    assert!(!e1);
    // Disjoint columns of the same row: no erasure.
    let e2 = c.draw_sprite(8, 0, &[0b1000_0000]);
    assert!(!e2);
    // Overlapping the first pixel erases it.
    let e3 = c.draw_sprite(0, 0, &[0b1000_0000]);
    assert!(e3);
    assert!(!c.pixels[0][0]);
    assert!(c.pixels[0][8]);
}

#[test]
fn sprite_wraps_toroidally_across_all_corners() {
    let mut c = Canvas::new();
    // A 5-row, all-on sprite at (60, 30) splits across all four corners.
    let rows = [0xFFu8, 0xFF, 0xFF, 0xFF, 0xFF];
    c.draw_sprite(60, 30, &rows);

    for (y, x) in [(30, 60), (31, 63), (0, 0), (2, 3), (30, 0), (0, 60), (2, 60), (30, 3)] {
        assert!(c.pixels[y][x], "expected pixel at ({y}, {x})");
    }
    for (y, x) in [(3, 0), (0, 4), (29, 60), (3, 63), (15, 15)] {
        assert!(!c.pixels[y][x], "expected no pixel at ({y}, {x})");
    }
    // 5 rows x 8 columns, each on its own wrapped target.
    assert_eq!(on_pixels(&c).len(), 40);
}

#[test]
fn clean_blanks_and_reports_change_only_when_something_was_lit() {
    let mut c = Canvas::new();
    c.clean();
    assert!(!c.have_pixels_changed);

    c.draw_sprite(1, 1, &[0x80]);
    c.reset_pixels_changed();
    assert!(!c.have_pixels_changed);
    c.clean();
    assert!(c.have_pixels_changed);
    assert_eq!(on_pixels(&c).len(), 0);
}

#[test]
fn reset_pixels_changed_keeps_pixels() {
    let mut c = Canvas::new();
    c.draw_sprite(0, 0, &[0xFF]);
    assert!(c.have_pixels_changed);
    c.reset_pixels_changed();
    assert!(!c.have_pixels_changed);
    assert_eq!(on_pixels(&c).len(), 8);
}

#[test]
fn wide_x_offsets_wrap_modulo_width() {
    let mut c = Canvas::new();
    // x = 200 wraps to column 8; y = 100 wraps to row 4.
    c.draw_sprite(200, 100, &[0b1000_0000]);
    assert!(c.pixels[4][8]);
    assert_eq!(on_pixels(&c).len(), 1);
}
