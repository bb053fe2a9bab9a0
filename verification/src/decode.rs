//! The instruction decoder: a pure function from a 16-bit word to its
//! operation and operand fields.

use vstd::prelude::*;

verus! {

/// The operations of the instruction set. `Unknown` stands for every word that
/// names none of them; the executor rejects it.
#[derive(Clone, Copy, Debug, PartialEq, Eq, Structural)]
pub enum Operation {
    /// 00E0
    Cls,
    /// 00EE
    Ret,
    /// 1nnn
    Jump,
    /// 2nnn
    Call,
    /// 3xnn
    SkipEqByte,
    /// 4xnn
    SkipNeByte,
    /// 5xy0
    SkipEqReg,
    /// 6xnn
    LoadByte,
    /// 7xnn
    AddByte,
    /// 8xy0
    Move,
    /// 8xy1
    Or,
    /// 8xy2
    And,
    /// 8xy3
    Xor,
    /// 8xy4
    Add,
    /// 8xy5
    Sub,
    /// 8xy6
    Shr,
    /// 8xy7
    Subn,
    /// 8xyE
    Shl,
    /// 9xy0
    SkipNeReg,
    /// Annn
    LoadIndex,
    /// Bnnn
    JumpOffset,
    /// Cxnn
    Random,
    /// Dxyn
    Draw,
    /// Ex9E
    SkipKey,
    /// ExA1
    SkipNotKey,
    /// Fx07
    ReadDelay,
    /// Fx0A
    WaitKey,
    /// Fx15
    SetDelay,
    /// Fx18
    SetSound,
    /// Fx1E
    AddIndex,
    /// Fx29
    Glyph,
    /// Fx33
    StoreBcd,
    /// Fx55
    StoreRegs,
    /// Fx65
    LoadRegs,
    /// Any other word.
    Unknown,
}

/// A decoded instruction: the operation, the word it was decoded from, and the
/// operand fields of the word, all of them extracted whatever the operation.
#[derive(Clone, Copy, Debug, PartialEq, Eq, Structural)]
pub struct Instruction {
    pub op: Operation,
    pub word: u16,
    /// Bits 8 to 11.
    pub x: u8,
    /// Bits 4 to 7.
    pub y: u8,
    /// Bits 0 to 3.
    pub n: u8,
    /// Bits 0 to 7.
    pub nn: u8,
    /// Bits 0 to 11.
    pub nnn: u16,
}

/// The top nibble of a word.
pub open spec fn category_of(word: u16) -> int {
    word as int / 0x1000
}

/// Bits 8 to 11 of a word.
pub open spec fn x_of(word: u16) -> int {
    (word as int / 0x100) % 0x10
}

/// Bits 4 to 7 of a word.
pub open spec fn y_of(word: u16) -> int {
    (word as int / 0x10) % 0x10
}

/// The low nibble of a word.
pub open spec fn n_of(word: u16) -> int {
    word as int % 0x10
}

/// The low byte of a word.
pub open spec fn nn_of(word: u16) -> int {
    word as int % 0x100
}

/// The low twelve bits of a word.
pub open spec fn nnn_of(word: u16) -> int {
    word as int % 0x1000
}

/// The operation that a word names.
pub open spec fn operation_of(word: u16) -> Operation {
    let c = category_of(word);
    let n = n_of(word);
    let nn = nn_of(word);
    if c == 0x0 {
        if nn == 0xE0 {
            Operation::Cls
        } else if nn == 0xEE {
            Operation::Ret
        } else {
            Operation::Unknown
        }
    } else if c == 0x1 {
        Operation::Jump
    } else if c == 0x2 {
        Operation::Call
    } else if c == 0x3 {
        Operation::SkipEqByte
    } else if c == 0x4 {
        Operation::SkipNeByte
    } else if c == 0x5 {
        if n == 0 {
            Operation::SkipEqReg
        } else {
            Operation::Unknown
        }
    } else if c == 0x6 {
        Operation::LoadByte
    } else if c == 0x7 {
        Operation::AddByte
    } else if c == 0x8 {
        if n == 0x0 {
            Operation::Move
        } else if n == 0x1 {
            Operation::Or
        } else if n == 0x2 {
            Operation::And
        } else if n == 0x3 {
            Operation::Xor
        } else if n == 0x4 {
            Operation::Add
        } else if n == 0x5 {
            Operation::Sub
        } else if n == 0x6 {
            Operation::Shr
        } else if n == 0x7 {
            Operation::Subn
        } else if n == 0xE {
            Operation::Shl
        } else {
            Operation::Unknown
        }
    } else if c == 0x9 {
        if n == 0 {
            Operation::SkipNeReg
        } else {
            Operation::Unknown
        }
    } else if c == 0xA {
        Operation::LoadIndex
    } else if c == 0xB {
        Operation::JumpOffset
    } else if c == 0xC {
        Operation::Random
    } else if c == 0xD {
        Operation::Draw
    } else if c == 0xE {
        if nn == 0x9E {
            Operation::SkipKey
        } else if nn == 0xA1 {
            Operation::SkipNotKey
        } else {
            Operation::Unknown
        }
    } else {
        if nn == 0x07 {
            Operation::ReadDelay
        } else if nn == 0x0A {
            Operation::WaitKey
        } else if nn == 0x15 {
            Operation::SetDelay
        } else if nn == 0x18 {
            Operation::SetSound
        } else if nn == 0x1E {
            Operation::AddIndex
        } else if nn == 0x29 {
            Operation::Glyph
        } else if nn == 0x33 {
            Operation::StoreBcd
        } else if nn == 0x55 {
            Operation::StoreRegs
        } else if nn == 0x65 {
            Operation::LoadRegs
        } else {
            Operation::Unknown
        }
    }
}

/// What `decode` returns for a word.
pub open spec fn decode_spec(word: u16) -> Instruction {
    Instruction {
        op: operation_of(word),
        word,
        x: x_of(word) as u8,
        y: y_of(word) as u8,
        n: n_of(word) as u8,
        nn: nn_of(word) as u8,
        nnn: nnn_of(word) as u16,
    }
}

/// Shifts and masks on a word agree with division and remainder.
proof fn lemma_fields(word: u16)
    ensures
        (word >> 12) as int == category_of(word),
        ((word >> 8) & 0xF) as int == x_of(word),
        ((word >> 4) & 0xF) as int == y_of(word),
        (word & 0xF) as int == n_of(word),
        (word & 0xFF) as int == nn_of(word),
        (word & 0xFFF) as int == nnn_of(word),
{
    assert(word >> 12 == word / 0x1000) by (bit_vector);
    assert((word >> 8) & 0xF == (word / 0x100) % 0x10) by (bit_vector);
    assert((word >> 4) & 0xF == (word / 0x10) % 0x10) by (bit_vector);
    assert(word & 0xF == word % 0x10) by (bit_vector);
    assert(word & 0xFF == word % 0x100) by (bit_vector);
    assert(word & 0xFFF == word % 0x1000) by (bit_vector);
}

/// Decodes a word. Never fails: a word that names no operation decodes to
/// `Operation::Unknown` with its fields extracted all the same.
pub fn decode(word: u16) -> (instr: Instruction)
    ensures
        instr == decode_spec(word),
{
    proof {
        lemma_fields(word);
    }
    let c: u16 = word >> 12;
    let x: u8 = ((word >> 8) & 0xF) as u8;
    let y: u8 = ((word >> 4) & 0xF) as u8;
    let n: u8 = (word & 0xF) as u8;
    let nn: u8 = (word & 0xFF) as u8;
    let nnn: u16 = word & 0xFFF;
    let op = match c {
        0x0 => match nn {
            0xE0 => Operation::Cls,
            0xEE => Operation::Ret,
            _ => Operation::Unknown,
        },
        0x1 => Operation::Jump,
        0x2 => Operation::Call,
        0x3 => Operation::SkipEqByte,
        0x4 => Operation::SkipNeByte,
        0x5 => match n {
            0x0 => Operation::SkipEqReg,
            _ => Operation::Unknown,
        },
        0x6 => Operation::LoadByte,
        0x7 => Operation::AddByte,
        0x8 => match n {
            0x0 => Operation::Move,
            0x1 => Operation::Or,
            0x2 => Operation::And,
            0x3 => Operation::Xor,
            0x4 => Operation::Add,
            0x5 => Operation::Sub,
            0x6 => Operation::Shr,
            0x7 => Operation::Subn,
            0xE => Operation::Shl,
            _ => Operation::Unknown,
        },
        0x9 => match n {
            0x0 => Operation::SkipNeReg,
            _ => Operation::Unknown,
        },
        0xA => Operation::LoadIndex,
        0xB => Operation::JumpOffset,
        0xC => Operation::Random,
        0xD => Operation::Draw,
        0xE => match nn {
            0x9E => Operation::SkipKey,
            0xA1 => Operation::SkipNotKey,
            _ => Operation::Unknown,
        },
        _ => match nn {
            0x07 => Operation::ReadDelay,
            0x0A => Operation::WaitKey,
            0x15 => Operation::SetDelay,
            0x18 => Operation::SetSound,
            0x1E => Operation::AddIndex,
            0x29 => Operation::Glyph,
            0x33 => Operation::StoreBcd,
            0x55 => Operation::StoreRegs,
            0x65 => Operation::LoadRegs,
            _ => Operation::Unknown,
        },
    };
    Instruction { op, word, x, y, n, nn, nnn }
}

} // verus!
