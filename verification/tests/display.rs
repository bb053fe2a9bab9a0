use chip8::{ErrorKind, Fault, CHIP8};

fn machine_with(words: &[u16]) -> CHIP8 {
    let mut bytes: Vec<u8> = Vec::new();
    for w in words {
        bytes.push((w >> 8) as u8);
        bytes.push((w & 0xFF) as u8);
    }
    let mut chip = CHIP8::init();
    chip.load_program(&bytes).unwrap();
    chip
}

fn lit_pixels(chip: &CHIP8) -> Vec<(usize, usize)> {
    let mut lit = Vec::new();
    for r in 0..32 {
        for c in 0..64 {
            if chip.display[r][c] != 0 {
                lit.push((r, c));
            }
        }
    }
    lit
}

#[test]
fn cls_clears_all_2048_pixels() {
    let mut chip = machine_with(&[0x00E0]);
    for r in 0..32 {
        for c in 0..64 {
            chip.display[r][c] = ((r + c) % 2) as u8;
        }
    }
    assert_eq!(chip.step(0), Ok(()));
    let mut cells = 0;
    for r in 0..32 {
        for c in 0..64 {
            assert_eq!(chip.display[r][c], 0);
            cells += 1;
        }
    }
    assert_eq!(cells, 2048);
    assert_eq!(chip.pc, 0x202);
}

#[test]
fn draw_puts_rows_most_significant_bit_first() {
    let mut chip = machine_with(&[0xD123]);
    chip.V[1] = 10;
    chip.V[2] = 5;
    chip.I = 0x300;
    chip.mem[0x300] = 0b1000_0001;
    chip.mem[0x301] = 0b0100_0000;
    chip.mem[0x302] = 0b0000_0011;
    assert_eq!(chip.step(0), Ok(()));
    assert_eq!(
        lit_pixels(&chip),
        vec![(5, 10), (5, 17), (6, 11), (7, 16), (7, 17)]
    );
    assert_eq!(chip.V[0xF], 0);
    assert_eq!(chip.pc, 0x202);
    assert_eq!(chip.I, 0x300);
}

#[test]
fn draw_glyph_zero_from_the_font() {
    let mut chip = machine_with(&[0xF029, 0xD125]);
    assert_eq!(chip.step(0), Ok(()));
    assert_eq!(chip.step(0), Ok(()));
    let expected = [
        [1, 1, 1, 1, 0, 0, 0, 0],
        [1, 0, 0, 1, 0, 0, 0, 0],
        [1, 0, 0, 1, 0, 0, 0, 0],
        [1, 0, 0, 1, 0, 0, 0, 0],
        [1, 1, 1, 1, 0, 0, 0, 0],
    ];
    for r in 0..5 {
        assert_eq!(&chip.display[r][0..8], &expected[r]);
    }
    assert_eq!(lit_pixels(&chip).len(), 14);
}

#[test]
fn drawing_twice_restores_the_display_and_reports_collision() {
    let mut chip = machine_with(&[0xD125, 0xD125]);
    chip.V[1] = 20;
    chip.V[2] = 9;
    chip.I = 0x050 + 5 * 0xA;
    assert_eq!(chip.step(0), Ok(()));
    assert_eq!(chip.V[0xF], 0);
    assert!(!lit_pixels(&chip).is_empty());
    assert_eq!(chip.step(0), Ok(()));
    assert_eq!(chip.V[0xF], 1);
    assert!(lit_pixels(&chip).is_empty());
    assert_eq!(chip.pc, 0x204);
}

#[test]
fn drawing_twice_over_a_picture_restores_it() {
    let mut chip = machine_with(&[0xD125, 0xD125]);
    for r in 0..32 {
        for c in 0..64 {
            chip.display[r][c] = ((r * 7 + c * 3) % 5 == 0) as u8;
        }
    }
    let picture = chip.display;
    chip.V[1] = 61;
    chip.V[2] = 30;
    chip.I = 0x050;
    assert_eq!(chip.step(0), Ok(()));
    assert_ne!(chip.display, picture);
    assert_eq!(chip.step(0), Ok(()));
    assert_eq!(chip.display, picture);
}

#[test]
fn second_draw_of_an_empty_sprite_reports_no_collision() {
    let mut chip = machine_with(&[0xD121, 0xD121]);
    chip.I = 0x300;
    assert_eq!(chip.step(0), Ok(()));
    assert_eq!(chip.step(0), Ok(()));
    assert_eq!(chip.V[0xF], 0);
    assert!(lit_pixels(&chip).is_empty());
}

#[test]
fn collision_is_over_the_whole_sprite() {
    let mut chip = machine_with(&[0xD122]);
    chip.I = 0x300;
    chip.mem[0x300] = 0x80;
    chip.mem[0x301] = 0x80;
    chip.display[0][0] = 1;
    chip.V[0xF] = 0;
    assert_eq!(chip.step(0), Ok(()));
    assert_eq!(chip.V[0xF], 1);
    assert_eq!(lit_pixels(&chip), vec![(1, 0)]);
}

#[test]
fn draw_clears_the_flag_when_nothing_collides() {
    let mut chip = machine_with(&[0xD121]);
    chip.I = 0x300;
    chip.mem[0x300] = 0xFF;
    chip.V[0xF] = 1;
    chip.display[1][0] = 1;
    assert_eq!(chip.step(0), Ok(()));
    assert_eq!(chip.V[0xF], 0);
    assert_eq!(lit_pixels(&chip).len(), 9);
}

#[test]
fn draw_clips_at_the_right_and_bottom_edges() {
    let mut chip = machine_with(&[0xD123]);
    chip.V[1] = 60;
    chip.V[2] = 30;
    chip.I = 0x300;
    chip.mem[0x300] = 0xFF;
    chip.mem[0x301] = 0xFF;
    chip.mem[0x302] = 0xFF;
    assert_eq!(chip.step(0), Ok(()));
    assert_eq!(
        lit_pixels(&chip),
        vec![(30, 60), (30, 61), (30, 62), (30, 63), (31, 60), (31, 61), (31, 62), (31, 63)]
    );
    assert_eq!(chip.V[0xF], 0);
}

#[test]
fn draw_wholly_off_screen_draws_nothing() {
    let mut chip = machine_with(&[0xD12F, 0xD21F]);
    chip.V[1] = 200;
    chip.V[2] = 3;
    chip.I = 0x050;
    assert_eq!(chip.step(0), Ok(()));
    assert!(lit_pixels(&chip).is_empty());
    assert_eq!(chip.step(0), Ok(()));
    assert!(lit_pixels(&chip).is_empty());
    assert_eq!(chip.V[0xF], 0);
    assert_eq!(chip.pc, 0x204);
}

#[test]
fn draw_with_the_flag_register_as_coordinate() {
    let mut chip = machine_with(&[0xDF11]);
    chip.V[0xF] = 8;
    chip.V[1] = 2;
    chip.I = 0x300;
    chip.mem[0x300] = 0x80;
    assert_eq!(chip.step(0), Ok(()));
    assert_eq!(lit_pixels(&chip), vec![(2, 8)]);
    assert_eq!(chip.V[0xF], 0);
}

#[test]
fn draw_reading_beyond_memory_faults() {
    let mut chip = machine_with(&[0xD122]);
    chip.I = 0xFFF;
    let before = chip.clone();
    assert_eq!(
        chip.step(0),
        Err(Fault { kind: ErrorKind::OutOfBoundsMemoryAccess, opcode: 0xD122, pc: 0x200 })
    );
    assert_eq!(chip, before);
}

#[test]
fn draw_of_no_rows_reads_no_memory() {
    let mut chip = machine_with(&[0xD120]);
    chip.I = 0xFFFF;
    chip.V[0xF] = 1;
    assert_eq!(chip.step(0), Ok(()));
    assert!(lit_pixels(&chip).is_empty());
    assert_eq!(chip.V[0xF], 0);
    assert_eq!(chip.pc, 0x202);
}

#[test]
fn draw_up_to_the_last_byte_of_memory() {
    let mut chip = machine_with(&[0xD122]);
    chip.I = 0xFFE;
    chip.mem[0xFFE] = 0x01;
    chip.mem[0xFFF] = 0x80;
    assert_eq!(chip.step(0), Ok(()));
    assert_eq!(lit_pixels(&chip), vec![(0, 7), (1, 0)]);
}
