use chip8::display::{draw_sprite, pixel_of};
use chip8::{Chip8, Fault, CHIP8_HEIGHT, CHIP8_WIDTH};

fn loaded(program: &[u8]) -> Chip8 {
    Chip8::new(program.to_vec()).expect("program fits")
}

fn lit(c: &Chip8) -> usize {
    c.gfx.iter().map(|row| row.iter().filter(|&&p| p == 1).count()).sum()
}

#[test]
fn display_dimensions() {
    assert_eq!(CHIP8_HEIGHT, 32);
    assert_eq!(CHIP8_WIDTH, 64);
}

#[test]
fn bits_are_counted_from_the_left() {
    assert_eq!(pixel_of(0b1000_0000, 0), 1);
    assert_eq!(pixel_of(0b1000_0000, 1), 0);
    assert_eq!(pixel_of(0b0000_0001, 7), 1);
    assert_eq!(pixel_of(0b1111_1110, 7), 0);
}

#[test]
fn draws_a_font_glyph() {
    // glyph for 0 at (1, 2): F0 90 90 90 F0
    let mut c = loaded(&[0xD0, 0x15]);
    c.v[0] = 1;
    c.v[1] = 2;
    c.i_reg = 0;
    assert_eq!(c.step_with(0), Ok(false));
    assert!(c.draw_flag);
    assert_eq!(c.v[15], 0);
    assert_eq!(&c.gfx[2][0..6], &[0, 1, 1, 1, 1, 0]);
    assert_eq!(&c.gfx[3][0..6], &[0, 1, 0, 0, 1, 0]);
    assert_eq!(&c.gfx[6][0..6], &[0, 1, 1, 1, 1, 0]);
    assert_eq!(lit(&c), 14);
}

#[test]
fn drawing_twice_restores_the_display() {
    let mut c = loaded(&[0xD0, 0x15, 0xD0, 0x15]);
    c.v[0] = 60;
    c.v[1] = 30;
    c.i_reg = 5 * 0xA;
    c.gfx[31][63] = 1;
    c.gfx[0][0] = 1;
    c.gfx[10][10] = 1;
    let before = c.gfx;
    assert_eq!(c.step_with(0), Ok(false));
    assert_ne!(c.gfx, before);
    assert_eq!(c.step_with(0), Ok(false));
    assert_eq!(c.gfx, before);
    assert_eq!(c.v[15], 1);
}

#[test]
fn full_row_on_a_set_background_collides() {
    let mut c = loaded(&[0xD0, 0x11]);
    c.gfx = [[1; 64]; 32];
    c.memory[0x300] = 0xFF;
    c.i_reg = 0x300;
    assert_eq!(c.step_with(0), Ok(false));
    assert_eq!(c.v[15], 1);
    assert_eq!(&c.gfx[0][0..9], &[0, 0, 0, 0, 0, 0, 0, 0, 1]);
}

#[test]
fn full_row_on_a_clear_background_does_not_collide() {
    let mut c = loaded(&[0xD0, 0x11]);
    c.memory[0x300] = 0xFF;
    c.i_reg = 0x300;
    c.v[15] = 1;
    assert_eq!(c.step_with(0), Ok(false));
    assert_eq!(c.v[15], 0);
    assert_eq!(&c.gfx[0][0..9], &[1, 1, 1, 1, 1, 1, 1, 1, 0]);
    assert_eq!(lit(&c), 8);
}

#[test]
fn a_single_overlap_is_enough() {
    let mut c = loaded(&[0xD1, 0x23]);
    c.v[1] = 8;
    c.v[2] = 4;
    c.memory[0x300] = 0x80;
    c.memory[0x301] = 0x00;
    c.memory[0x302] = 0x01;
    c.i_reg = 0x300;
    c.gfx[6][15] = 1;
    c.gfx[5][8] = 1;
    assert_eq!(c.step_with(0), Ok(false));
    assert_eq!(c.v[15], 1);
    assert_eq!(c.gfx[6][15], 0);
    assert_eq!(c.gfx[4][8], 1);
    assert_eq!(c.gfx[5][8], 1);
}

#[test]
fn clear_bits_on_set_pixels_do_not_collide() {
    let mut c = loaded(&[0xD1, 0x21]);
    c.memory[0x300] = 0xF0;
    c.i_reg = 0x300;
    c.gfx[0][4] = 1;
    c.gfx[0][7] = 1;
    assert_eq!(c.step_with(0), Ok(false));
    assert_eq!(c.v[15], 0);
    assert_eq!(&c.gfx[0][0..8], &[1, 1, 1, 1, 1, 0, 0, 1]);
}

#[test]
fn sprites_wrap_round_both_edges() {
    let mut c = loaded(&[0xD1, 0x22]);
    c.v[1] = 62 + 64;
    c.v[2] = 31 + 32;
    c.memory[0x300] = 0b1111_0000;
    c.memory[0x301] = 0b0011_0000;
    c.i_reg = 0x300;
    assert_eq!(c.step_with(0), Ok(false));
    assert_eq!(c.gfx[31][62], 1);
    assert_eq!(c.gfx[31][63], 1);
    assert_eq!(c.gfx[31][0], 1);
    assert_eq!(c.gfx[31][1], 1);
    assert_eq!(c.gfx[31][2], 0);
    assert_eq!(c.gfx[0][62], 0);
    assert_eq!(c.gfx[0][0], 1);
    assert_eq!(c.gfx[0][1], 1);
    assert_eq!(lit(&c), 6);
}

#[test]
fn position_in_the_flag_register_is_read_after_it_is_cleared() {
    let mut c = loaded(&[0xDF, 0x11]);
    c.v[15] = 20;
    c.v[1] = 3;
    c.memory[0x300] = 0x80;
    c.i_reg = 0x300;
    assert_eq!(c.step_with(0), Ok(false));
    assert_eq!(c.gfx[3][0], 1);
    assert_eq!(c.gfx[3][20], 0);
    assert_eq!(lit(&c), 1);
}

#[test]
fn sprite_past_the_memory_is_a_fault() {
    let mut c = loaded(&[0xD0, 0x12, 0xD0, 0x10]);
    c.i_reg = 4095;
    c.v[15] = 7;
    assert_eq!(c.step_with(0), Err(Fault::MemoryOutOfBounds));
    assert_eq!(c.pc, 0x200);
    assert_eq!(c.v[15], 7);
    assert!(!c.draw_flag);
    c.i_reg = 4094;
    c.memory[4094] = 0x80;
    c.memory[4095] = 0x80;
    assert_eq!(c.step_with(0), Ok(false));
    assert_eq!(lit(&c), 2);
}

#[test]
fn empty_sprite_marks_the_display_and_clears_the_flag() {
    let mut c = loaded(&[0xD0, 0x10]);
    c.i_reg = 5000;
    c.v[15] = 9;
    assert_eq!(c.step_with(0), Ok(false));
    assert!(c.draw_flag);
    assert_eq!(c.v[15], 0);
    assert_eq!(lit(&c), 0);
}

#[test]
fn clear_screen_marks_the_display() {
    let mut c = loaded(&[0x00, 0xE0]);
    c.gfx = [[1; 64]; 32];
    assert_eq!(c.step_with(0), Ok(false));
    assert_eq!(c.gfx, [[0; 64]; 32]);
    assert!(c.draw_flag);
}

#[test]
fn draw_sprite_on_a_bare_display() {
    let mut gfx = [[0u8; 64]; 32];
    let mut memory = [0u8; 4096];
    memory[100] = 0b1010_0000;
    memory[101] = 0b0100_0000;
    assert!(!draw_sprite(&mut gfx, &memory, 100, 2, 10, 5));
    assert_eq!(&gfx[5][10..13], &[1, 0, 1]);
    assert_eq!(&gfx[6][10..13], &[0, 1, 0]);
    assert!(draw_sprite(&mut gfx, &memory, 101, 1, 9, 5));
    assert_eq!(&gfx[5][10..13], &[0, 0, 1]);
}
