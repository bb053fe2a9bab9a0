use chip8::CHIP8;

#[test]
fn dump_reg_of_a_new_machine() {
    let chip = CHIP8::init();
    let expected = "pc: 0200\tsp 0\tI: 0000\n\
                    V0: 00\tV1: 00\tV2: 00\tV3: 00\t\n\
                    V4: 00\tV5: 00\tV6: 00\tV7: 00\t\n\
                    V8: 00\tV9: 00\tVA: 00\tVB: 00\t\n\
                    VC: 00\tVD: 00\tVE: 00\tVF: 00\t\n\
                    Current Instruction: 0000\n";
    assert_eq!(chip.dump_reg(), expected);
}

#[test]
fn dump_reg_prints_upper_case_registers_and_lower_case_word() {
    let mut chip = CHIP8::init();
    chip.load_program(&[0x00, 0x00, 0xAB, 0xCD]).unwrap();
    chip.pc = 0x202;
    chip.sp = 0xC;
    chip.I = 0xBEEF;
    for k in 0..16 {
        chip.V[k] = (k as u8) * 0x11;
    }
    chip.V[0xA] = 0x0A;
    let expected = "pc: 0202\tsp C\tI: BEEF\n\
                    V0: 00\tV1: 11\tV2: 22\tV3: 33\t\n\
                    V4: 44\tV5: 55\tV6: 66\tV7: 77\t\n\
                    V8: 88\tV9: 99\tVA: 0A\tVB: BB\t\n\
                    VC: CC\tVD: DD\tVE: EE\tVF: FF\t\n\
                    Current Instruction: abcd\n";
    assert_eq!(chip.dump_reg(), expected);
    assert_eq!(chip.dump_reg(), format!(
        "pc: {:04X}\tsp {:01X}\tI: {:04X}\n{}Current Instruction: {:04x}\n",
        chip.pc,
        chip.sp,
        chip.I,
        (0..4)
            .map(|g| {
                let mut line = String::new();
                for j in 0..4 {
                    line.push_str(&format!("V{:X}: {:02X}\t", 4 * g + j, chip.V[4 * g + j]));
                }
                line.push('\n');
                line
            })
            .collect::<String>(),
        0xabcd
    ));
}

#[test]
fn dump_reg_with_a_stack_pointer_of_two_digits() {
    let mut chip = CHIP8::init();
    chip.sp = 16;
    assert!(chip.dump_reg().starts_with("pc: 0200\tsp 10\tI: 0000\n"));
    chip.sp = 0xFF;
    assert!(chip.dump_reg().starts_with("pc: 0200\tsp FF\tI: 0000\n"));
}

#[test]
fn dump_reg_with_the_program_counter_beyond_memory() {
    let mut chip = CHIP8::init();
    chip.pc = 0xFFF;
    assert!(chip.dump_reg().starts_with("pc: 0FFF\t"));
    assert!(chip.dump_reg().ends_with("VF: 00\t\nCurrent Instruction: ----\n"));
    chip.pc = 0xFFFF;
    assert!(chip.dump_reg().ends_with("Current Instruction: ----\n"));
    chip.pc = 0xFFE;
    chip.mem[0xFFE] = 0x0F;
    chip.mem[0xFFF] = 0xA0;
    assert!(chip.dump_reg().ends_with("Current Instruction: 0fa0\n"));
}

#[test]
fn dump_display_of_a_blank_screen() {
    let chip = CHIP8::init();
    let line = "0".repeat(64) + "\n";
    assert_eq!(chip.dump_display(), line.repeat(32));
}

#[test]
fn dump_display_shows_each_pixel_in_its_place() {
    let mut chip = CHIP8::init();
    chip.display[0][0] = 1;
    chip.display[0][63] = 1;
    chip.display[31][1] = 1;
    let text = chip.dump_display();
    let lines: Vec<&str> = text.lines().collect();
    assert_eq!(lines.len(), 32);
    assert_eq!(lines[0], format!("1{}1", "0".repeat(62)));
    assert_eq!(lines[1], "0".repeat(64));
    assert_eq!(lines[31], format!("01{}", "0".repeat(62)));
    assert_eq!(text.len(), 32 * 65);
}

#[test]
fn dump_display_prints_a_cell_as_its_number() {
    let mut chip = CHIP8::init();
    chip.display[0][0] = 7;
    chip.display[0][1] = 42;
    chip.display[0][2] = 255;
    chip.display[0][3] = 100;
    chip.display[0][4] = 10;
    let text = chip.dump_display();
    let first = text.lines().next().unwrap();
    assert_eq!(first, format!("74225510010{}", "0".repeat(59)));
}

#[test]
fn dump_mem_has_256_lines_of_sixteen_bytes() {
    let mut chip = CHIP8::init();
    chip.load_program(&[
        0x00, 0x11, 0x22, 0x33, 0x44, 0x55, 0x66, 0x77, 0x88, 0x99, 0xAA, 0xBB, 0xCC, 0xDD, 0xEE,
        0xFF,
    ])
    .unwrap();
    chip.mem[0xFFF] = 0x5A;
    let text = chip.dump_mem();
    let lines: Vec<&str> = text.split('\n').collect();
    assert_eq!(lines.len(), 257);
    assert_eq!(lines[256], "");
    assert_eq!(lines[0], "000:   0000 0000 0000 0000 0000 0000 0000 0000 ");
    assert_eq!(lines[5], "050:   f090 9090 f020 6020 2070 f010 f080 f0f0 ");
    assert_eq!(lines[9], "090:   f0e0 9090 90e0 f080 f080 f0f0 80f0 8080 ");
    assert_eq!(lines[0xA], "0a0:   0000 0000 0000 0000 0000 0000 0000 0000 ");
    assert_eq!(lines[0x20], "200:   0011 2233 4455 6677 8899 aabb ccdd eeff ");
    assert_eq!(lines[0xFF], "ff0:   0000 0000 0000 0000 0000 0000 0000 005a ");
    assert_eq!(text.len(), 256 * 48);
}

#[test]
fn dump_mem_shows_every_byte_once() {
    let mut chip = CHIP8::init();
    for a in 0..4096 {
        chip.mem[a] = (a % 256) as u8;
    }
    let text = chip.dump_mem();
    let mut seen: Vec<u8> = Vec::new();
    for (k, line) in text.lines().enumerate() {
        assert_eq!(&line[..7], format!("{:03x}:   ", 16 * k));
        for pair in line[7..].split(' ').filter(|p| !p.is_empty()) {
            assert_eq!(pair.len(), 4);
            seen.push(u8::from_str_radix(&pair[0..2], 16).unwrap());
            seen.push(u8::from_str_radix(&pair[2..4], 16).unwrap());
        }
    }
    assert_eq!(seen, chip.mem.to_vec());
}
