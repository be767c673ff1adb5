use chip8::{Chip8, Display, ExecError, InputHandler, OpCode, Pixel, Vec2};

fn lit_pixels(chip8: &Chip8) -> Vec<(usize, usize)> {
    let mut lit = Vec::new();
    for x in 0..64 {
        for y in 0..32 {
            if chip8.display_buf[x][y] {
                lit.push((x, y));
            }
        }
    }
    lit
}

fn with_sprite(rows: &[u8]) -> Chip8 {
    let mut chip8 = Chip8::init();
    chip8.i = 0x300;
    chip8.memory[0x300..0x300 + rows.len()].copy_from_slice(rows);
    chip8
}

#[test]
fn clear_screen_turns_every_pixel_off() {
    let mut chip8 = Chip8::init();
    for x in 0..64 {
        for y in 0..32 {
            chip8.display_buf[x][y] = (x + y) % 3 == 0;
        }
    }
    chip8.v[0xF] = 1;
    chip8.buf_clear_screen();
    assert!(lit_pixels(&chip8).is_empty());
    assert_eq!(chip8.v[0xF], 1);
    assert!(!chip8.draw_flag);
}

#[test]
fn digit_zero_glyph_at_the_origin() {
    let mut chip8 = Chip8::init();
    chip8.v[0] = 0;
    chip8.v[1] = 0;
    chip8.v[2] = 0;
    let input = InputHandler::new();
    assert_eq!(chip8.execute_opcode(OpCode::SetIToSprite(0), &input), Ok(()));
    chip8.v[0xF] = 1;
    assert_eq!(chip8.execute_opcode(OpCode::DrawSprite(1, 2, 5), &input), Ok(()));

    let glyph: [u8; 5] = [0xF0, 0x90, 0x90, 0x90, 0xF0];
    for y in 0..32 {
        for x in 0..64 {
            let expected = y < 5 && x < 8 && glyph[y] & (0x80 >> x) != 0;
            assert_eq!(chip8.display_buf[x][y], expected, "pixel ({}, {})", x, y);
        }
    }
    // ####
    // #  #
    // #  #
    // #  #
    // ####
    assert_eq!(
        lit_pixels(&chip8),
        vec![
            (0, 0), (0, 1), (0, 2), (0, 3), (0, 4),
            (1, 0), (1, 4),
            (2, 0), (2, 4),
            (3, 0), (3, 1), (3, 2), (3, 3), (3, 4),
        ]
    );
    assert_eq!(chip8.v[0xF], 0);
    assert!(chip8.draw_flag);
}

#[test]
fn drawing_twice_restores_the_surface_and_collides() {
    let mut chip8 = with_sprite(&[0b1010_0101, 0b1111_0000, 0b0000_1111]);
    chip8.display_buf[10][7] = true;
    chip8.display_buf[40][20] = true;
    let before = chip8.display_buf;

    chip8.buf_draw_sprite(10, 7, 3);
    assert_ne!(chip8.display_buf, before);
    // (10, 7) was lit and lies under the first sprite bit.
    assert_eq!(chip8.v[0xF], 1);
    assert!(!chip8.display_buf[10][7]);

    chip8.buf_draw_sprite(10, 7, 3);
    assert_eq!(chip8.display_buf, before);
    // The first drawing lit pixels; the second turns them off again.
    assert_eq!(chip8.v[0xF], 1);
}

#[test]
fn drawing_twice_on_a_blank_surface_collides_only_the_second_time() {
    let mut chip8 = with_sprite(&[0xFF, 0x81, 0xFF]);
    chip8.buf_draw_sprite(3, 4, 3);
    assert_eq!(chip8.v[0xF], 0);
    assert_eq!(lit_pixels(&chip8).len(), 8 + 2 + 8);
    chip8.buf_draw_sprite(3, 4, 3);
    assert_eq!(chip8.v[0xF], 1);
    assert!(lit_pixels(&chip8).is_empty());
}

#[test]
fn drawing_an_empty_sprite_twice_never_collides() {
    let mut chip8 = with_sprite(&[0, 0]);
    chip8.display_buf[0][0] = true;
    chip8.v[0xF] = 1;
    chip8.buf_draw_sprite(0, 0, 2);
    assert_eq!(chip8.v[0xF], 0);
    chip8.buf_draw_sprite(0, 0, 2);
    assert_eq!(chip8.v[0xF], 0);
    assert_eq!(lit_pixels(&chip8), vec![(0, 0)]);
}

#[test]
fn the_origin_wraps_onto_the_surface() {
    let mut chip8 = with_sprite(&[0b1100_0000]);
    chip8.buf_draw_sprite(64 + 5, 32 + 6, 1);
    assert_eq!(lit_pixels(&chip8), vec![(5, 6), (6, 6)]);

    let mut chip8 = with_sprite(&[0b1100_0000]);
    chip8.buf_draw_sprite(255, 255, 1);
    // 255 mod 64 = 63 and 255 mod 32 = 31; the second pixel is off the
    // surface.
    assert_eq!(lit_pixels(&chip8), vec![(63, 31)]);
}

#[test]
fn pixels_beyond_the_right_edge_are_dropped_not_wrapped() {
    let mut chip8 = with_sprite(&[0xFF, 0xFF]);
    chip8.buf_draw_sprite(60, 0, 2);
    assert_eq!(
        lit_pixels(&chip8),
        vec![(60, 0), (60, 1), (61, 0), (61, 1), (62, 0), (62, 1), (63, 0), (63, 1)]
    );
    assert_eq!(chip8.v[0xF], 0);
}

#[test]
fn rows_beyond_the_bottom_edge_are_dropped_not_wrapped() {
    let mut chip8 = with_sprite(&[0x80, 0x80, 0x80, 0x80]);
    chip8.buf_draw_sprite(0, 30, 4);
    assert_eq!(lit_pixels(&chip8), vec![(0, 30), (0, 31)]);
}

#[test]
fn the_last_column_and_row_are_drawn() {
    let mut chip8 = with_sprite(&[0b0000_0001, 0b0000_0001]);
    chip8.buf_draw_sprite(56, 30, 2);
    assert_eq!(lit_pixels(&chip8), vec![(63, 30), (63, 31)]);
}

#[test]
fn vf_is_reset_at_the_start_and_only_raised() {
    let mut chip8 = with_sprite(&[0b1000_0000, 0b1000_0000, 0b1000_0000]);
    // Only the first row collides; the later rows do not lower VF again.
    chip8.display_buf[0][0] = true;
    chip8.v[0xF] = 0;
    chip8.buf_draw_sprite(0, 0, 3);
    assert_eq!(chip8.v[0xF], 1);
    assert_eq!(lit_pixels(&chip8), vec![(0, 1), (0, 2)]);

    // A stale flag is reset when nothing collides.
    let mut chip8 = with_sprite(&[0b1000_0000]);
    chip8.v[0xF] = 1;
    chip8.buf_draw_sprite(0, 0, 1);
    assert_eq!(chip8.v[0xF], 0);
}

#[test]
fn a_sprite_of_height_zero_draws_nothing() {
    let mut chip8 = with_sprite(&[0xFF]);
    chip8.v[0xF] = 1;
    chip8.i = 0xFFFF;
    chip8.buf_draw_sprite(0, 0, 0);
    assert!(lit_pixels(&chip8).is_empty());
    assert_eq!(chip8.v[0xF], 0);
    let input = InputHandler::new();
    assert_eq!(chip8.execute_opcode(OpCode::DrawSprite(0, 0, 0), &input), Ok(()));
}

#[test]
fn draw_instruction_takes_the_origin_from_registers() {
    let mut chip8 = with_sprite(&[0b1000_0000]);
    chip8.v[3] = 12;
    chip8.v[4] = 9;
    let input = InputHandler::new();
    assert_eq!(chip8.execute_opcode(OpCode::DrawSprite(3, 4, 1), &input), Ok(()));
    assert_eq!(lit_pixels(&chip8), vec![(12, 9)]);
    assert!(chip8.draw_flag);
    assert_eq!(chip8.i, 0x300);
    assert_eq!(chip8.pc, 0x200);
}

#[test]
fn draw_instruction_reading_past_memory_is_an_error() {
    let mut chip8 = Chip8::init();
    chip8.memory[4095] = 0xFF;
    chip8.i = 4095;
    let input = InputHandler::new();
    assert_eq!(
        chip8.execute_opcode(OpCode::DrawSprite(0, 0, 2), &input),
        Err(ExecError::MemoryOutOfBounds)
    );
    assert!(lit_pixels(&chip8).is_empty());
    assert!(!chip8.draw_flag);
    assert_eq!(chip8.execute_opcode(OpCode::DrawSprite(0, 0, 1), &input), Ok(()));
    assert_eq!(lit_pixels(&chip8).len(), 8);
}

#[test]
fn the_frame_is_centred_and_the_surface_lies_inside_it() {
    let (origin, size) = Display::frame(Vec2 { x: 200, y: 80 });
    assert_eq!(origin, Vec2 { x: 67, y: 23 });
    assert_eq!(size, Vec2 { x: 66, y: 34 });
    let display = Display::new(Vec2 { x: 200, y: 80 });
    assert_eq!(display.top_left, Vec2 { x: 68, y: 24 });

    // Odd sizes round down; a terminal smaller than the frame gives a
    // negative corner.
    let display = Display::new(Vec2 { x: 81, y: 25 });
    assert_eq!(display.top_left, Vec2 { x: 8, y: -4 });
    let display = Display::new(Vec2 { x: 0, y: 0 });
    assert_eq!(display.top_left, Vec2 { x: -32, y: -16 });
    let display = Display::new(Vec2 { x: -3, y: i32::MIN });
    assert_eq!(display.top_left, Vec2 { x: -33, y: i32::MIN / 2 - 16 });
}

#[test]
fn surface_points_are_placed_from_the_corner() {
    let display = Display { top_left: Vec2 { x: 68, y: 24 } };
    assert_eq!(display.draw_point(Vec2 { x: 0, y: 0 }), Vec2 { x: 68, y: 24 });
    assert_eq!(display.draw_point(Vec2 { x: 63, y: 31 }), Vec2 { x: 131, y: 55 });
    assert_eq!(display.draw_point(Vec2 { x: -1, y: -1 }), Vec2 { x: 67, y: 23 });
}

#[test]
fn update_lists_every_pixel_column_by_column() {
    let mut chip8 = Chip8::init();
    chip8.display_buf[0][1] = true;
    chip8.display_buf[63][31] = true;
    chip8.display_buf[2][0] = true;
    let display = Display { top_left: Vec2 { x: 10, y: -5 } };
    let cells = display.update(&chip8.display_buf);
    assert_eq!(cells.len(), 64 * 32);
    for x in 0..64usize {
        for y in 0..32usize {
            assert_eq!(
                cells[x * 32 + y],
                Pixel {
                    pos: Vec2 { x: 10 + x as i32, y: -5 + y as i32 },
                    lit: chip8.display_buf[x][y],
                }
            );
        }
    }
    assert_eq!(cells[1], Pixel { pos: Vec2 { x: 10, y: -4 }, lit: true });
    assert_eq!(cells[64], Pixel { pos: Vec2 { x: 12, y: -5 }, lit: true });
    assert_eq!(cells.iter().filter(|cell| cell.lit).count(), 3);
}
