use chip8::engine::alu;
use chip8::{decode, Instruction, Operation};

#[test]
fn decode_extracts_every_field() {
    assert_eq!(
        decode(0xD123),
        Instruction { op: Operation::Draw, word: 0xD123, x: 0x1, y: 0x2, n: 0x3, nn: 0x23, nnn: 0x123 }
    );
    assert_eq!(
        decode(0x8AB4),
        Instruction { op: Operation::Add, word: 0x8AB4, x: 0xA, y: 0xB, n: 0x4, nn: 0xB4, nnn: 0xAB4 }
    );
    assert_eq!(
        decode(0xFFFF),
        Instruction { op: Operation::Unknown, word: 0xFFFF, x: 0xF, y: 0xF, n: 0xF, nn: 0xFF, nnn: 0xFFF }
    );
}

#[test]
fn decode_names_every_operation() {
    let table = [
        (0x00E0u16, Operation::Cls),
        (0x00EE, Operation::Ret),
        (0x1234, Operation::Jump),
        (0x2345, Operation::Call),
        (0x3456, Operation::SkipEqByte),
        (0x4567, Operation::SkipNeByte),
        (0x5670, Operation::SkipEqReg),
        (0x6789, Operation::LoadByte),
        (0x789A, Operation::AddByte),
        (0x89A0, Operation::Move),
        (0x89A1, Operation::Or),
        (0x89A2, Operation::And),
        (0x89A3, Operation::Xor),
        (0x89A4, Operation::Add),
        (0x89A5, Operation::Sub),
        (0x89A6, Operation::Shr),
        (0x89A7, Operation::Subn),
        (0x89AE, Operation::Shl),
        (0x9AB0, Operation::SkipNeReg),
        (0xABCD, Operation::LoadIndex),
        (0xBCDE, Operation::JumpOffset),
        (0xCDEF, Operation::Random),
        (0xDEF0, Operation::Draw),
        (0xE59E, Operation::SkipKey),
        (0xE5A1, Operation::SkipNotKey),
        (0xF507, Operation::ReadDelay),
        (0xF50A, Operation::WaitKey),
        (0xF515, Operation::SetDelay),
        (0xF518, Operation::SetSound),
        (0xF51E, Operation::AddIndex),
        (0xF529, Operation::Glyph),
        (0xF533, Operation::StoreBcd),
        (0xF555, Operation::StoreRegs),
        (0xF565, Operation::LoadRegs),
    ];
    for (word, op) in table {
        assert_eq!(decode(word).op, op);
        assert_eq!(decode(word).word, word);
    }
}

#[test]
fn decode_never_fails_on_unrecognized_words() {
    for word in [0x0000u16, 0x00E1, 0x0FFF, 0x5001, 0x500F, 0x8008, 0x800D, 0x800F, 0x9001, 0xE000, 0xE09F, 0xF000, 0xF066] {
        let instr = decode(word);
        assert_eq!(instr.op, Operation::Unknown);
        assert_eq!(instr.x as u16, (word >> 8) & 0xF);
        assert_eq!(instr.y as u16, (word >> 4) & 0xF);
        assert_eq!(instr.n as u16, word & 0xF);
        assert_eq!(instr.nn as u16, word & 0xFF);
        assert_eq!(instr.nnn, word & 0xFFF);
    }
}

#[test]
fn decode_agrees_with_masks_on_all_words() {
    for word in 0..=0xFFFFu16 {
        let instr = decode(word);
        assert_eq!(instr.word, word);
        assert_eq!(instr.x as u16, (word >> 8) & 0xF);
        assert_eq!(instr.y as u16, (word >> 4) & 0xF);
        assert_eq!(instr.n as u16, word & 0xF);
        assert_eq!(instr.nn as u16, word & 0xFF);
        assert_eq!(instr.nnn, word & 0xFFF);
    }
}

#[test]
fn alu_values_and_flags() {
    assert_eq!(alu(Operation::Move, 1, 2), (2, None));
    assert_eq!(alu(Operation::Or, 0xF0, 0x3C), (0xFC, None));
    assert_eq!(alu(Operation::And, 0xF0, 0x3C), (0x30, None));
    assert_eq!(alu(Operation::Xor, 0xF0, 0x3C), (0xCC, None));
    assert_eq!(alu(Operation::Add, 0xFF, 0x01), (0x00, Some(true)));
    assert_eq!(alu(Operation::Add, 0xFF, 0x00), (0xFF, Some(false)));
    assert_eq!(alu(Operation::Add, 0xFF, 0xFF), (0xFE, Some(true)));
    assert_eq!(alu(Operation::Sub, 0x05, 0x0A), (0xFB, Some(false)));
    assert_eq!(alu(Operation::Sub, 0x0A, 0x0A), (0x00, Some(false)));
    assert_eq!(alu(Operation::Sub, 0x0B, 0x0A), (0x01, Some(true)));
    assert_eq!(alu(Operation::Subn, 0x05, 0x0A), (0x05, Some(true)));
    assert_eq!(alu(Operation::Subn, 0x0A, 0x05), (0xFB, Some(false)));
    assert_eq!(alu(Operation::Shr, 0xFF, 0x00), (0x7F, Some(true)));
    assert_eq!(alu(Operation::Shr, 0xFE, 0x01), (0x7F, Some(false)));
    assert_eq!(alu(Operation::Shl, 0xFF, 0x00), (0xFE, Some(true)));
    assert_eq!(alu(Operation::Shl, 0x7F, 0x01), (0xFE, Some(false)));
    assert_eq!(alu(Operation::Jump, 0x12, 0x34), (0x12, None));
}
