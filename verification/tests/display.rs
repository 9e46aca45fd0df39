use chip8::display::{Display, DISPLAY_HEIGHT, DISPLAY_WIDTH, FONT_SET};

fn lit_cells(d: &Display) -> Vec<(usize, usize)> {
    let mut cells = Vec::new();
    for y in 0..DISPLAY_HEIGHT {
        for x in 0..DISPLAY_WIDTH {
            assert!(d.gfx[y][x] <= 1);
            if d.gfx[y][x] == 1 {
                cells.push((x, y));
            }
        }
    }
    cells
}

#[test]
fn a_new_display_is_blank_and_marked_changed() {
    let d = Display::new();
    assert!(lit_cells(&d).is_empty());
    assert!(d.dirty);
}

#[test]
fn clear_turns_every_cell_off_whatever_was_lit() {
    let mut d = Display::new();
    d.draw(3, 4, &[0xFF, 0x81, 0xFF]);
    d.draw(60, 30, &[0xAA, 0x55, 0xAA, 0x55]);
    assert!(!lit_cells(&d).is_empty());
    d.dirty = false;
    d.clear();
    assert!(lit_cells(&d).is_empty());
    assert!(d.dirty);
}

#[test]
fn draw_sets_the_bits_of_each_row_from_the_left() {
    let mut d = Display::new();
    d.dirty = false;
    let collision = d.draw(2, 1, &[0b1010_0001, 0b0100_0000]);
    assert!(!collision);
    assert!(d.dirty);
    assert_eq!(lit_cells(&d), vec![(2, 1), (4, 1), (9, 1), (3, 2)]);
}

#[test]
fn draw_wraps_around_the_right_and_the_bottom_edge() {
    let mut d = Display::new();
    let collision = d.draw(62, 31, &[0b1111_0000, 0b1000_0001]);
    assert!(!collision);
    assert_eq!(lit_cells(&d), vec![(5, 0), (62, 0), (0, 31), (1, 31), (62, 31), (63, 31)]);
}

#[test]
fn draw_takes_coordinates_beyond_the_display_modulo_its_size() {
    let mut a = Display::new();
    let mut b = Display::new();
    a.draw(64 + 7, 32 * 5 + 3, &[0xC3]);
    b.draw(7, 3, &[0xC3]);
    assert_eq!(lit_cells(&a), lit_cells(&b));
    assert_eq!(lit_cells(&b), vec![(7, 3), (8, 3), (13, 3), (14, 3)]);
    let mut c = Display::new();
    c.draw(usize::MAX, usize::MAX, &[0x80, 0x80]);
    assert_eq!(lit_cells(&c), vec![(63, 0), (63, 31)]);
}

#[test]
fn draw_reports_a_collision_only_where_a_lit_cell_goes_off() {
    let mut d = Display::new();
    assert!(!d.draw(0, 0, &[0b1100_0000]));
    assert!(!d.draw(2, 0, &[0b1100_0000]));
    assert_eq!(lit_cells(&d), vec![(0, 0), (1, 0), (2, 0), (3, 0)]);
    assert!(d.draw(3, 0, &[0b1100_0000]));
    assert_eq!(lit_cells(&d), vec![(0, 0), (1, 0), (2, 0), (4, 0)]);
    assert!(!d.draw(0, 0, &[0b0000_0111]));
}

#[test]
fn drawing_a_sprite_twice_restores_the_display_and_collides() {
    let mut d = Display::new();
    d.draw(10, 10, &[0x3C, 0x42, 0x81]);
    let before = d.gfx;
    let sprite = [0xF0, 0x90, 0x90, 0x90, 0xF0, 0x18, 0xFF];
    let first = d.draw(9, 8, &sprite);
    assert!(first);
    assert_ne!(d.gfx, before);
    let second = d.draw(9, 8, &sprite);
    assert!(second);
    assert_eq!(d.gfx, before);
}

#[test]
fn redrawing_on_a_blank_display_collides_and_leaves_it_blank() {
    let mut d = Display::new();
    assert!(!d.draw(61, 29, &FONT_SET[0..5]));
    assert!(d.draw(61, 29, &FONT_SET[0..5]));
    assert!(lit_cells(&d).is_empty());
}

#[test]
fn an_empty_sprite_changes_no_cell_but_marks_the_display() {
    let mut d = Display::new();
    d.draw(1, 1, &[0xFF]);
    let before = d.gfx;
    d.dirty = false;
    assert!(!d.draw(5, 5, &[]));
    assert_eq!(d.gfx, before);
    assert!(d.dirty);
}

#[test]
fn a_sprite_row_of_zeros_never_collides() {
    let mut d = Display::new();
    d.draw(0, 0, &[0xFF, 0xFF]);
    assert!(!d.draw(0, 0, &[0x00, 0x00]));
}

#[test]
fn a_sprite_taller_than_the_display_meets_its_own_rows() {
    let mut d = Display::new();
    let mut sprite = vec![0u8; 33];
    sprite[0] = 0x80;
    sprite[32] = 0x80;
    let collision = d.draw(0, 0, &sprite);
    assert!(collision);
    assert!(lit_cells(&d).is_empty());
    let mut tall = vec![0u8; 34];
    tall[1] = 0xC0;
    tall[33] = 0x40;
    let mut e = Display::new();
    assert!(e.draw(4, 0, &tall));
    assert_eq!(lit_cells(&e), vec![(4, 1)]);
}

#[test]
fn the_font_holds_sixteen_glyphs_of_five_bytes() {
    assert_eq!(FONT_SET.len(), 80);
    assert_eq!(&FONT_SET[0..5], &[0xF0, 0x90, 0x90, 0x90, 0xF0]);
    assert_eq!(&FONT_SET[5..10], &[0x20, 0x60, 0x20, 0x20, 0x70]);
    assert_eq!(&FONT_SET[35..40], &[0xF0, 0x10, 0x20, 0x40, 0x40]);
    assert_eq!(&FONT_SET[75..80], &[0xF0, 0x80, 0xF0, 0x80, 0x80]);
    let sum: u32 = FONT_SET.iter().map(|b| *b as u32).sum();
    assert_eq!(sum, 0x32D0);
}
