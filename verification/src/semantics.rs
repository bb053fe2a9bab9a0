//! What each instruction does, as functions on the model of the machine.
//!
//! A failed instruction changes nothing. Operands are read before anything is
//! written, and an instruction that reports a flag writes `V[0xF]` last, so the
//! flag wins where `x` is 0xF. Program counter arithmetic wraps at 16 bits; a
//! counter beyond memory is caught by the next fetch.
//!
//! A sprite is clipped at the right and bottom edges of the display, not
//! wrapped around. A key wait does not block: run with no key held down it
//! leaves the program counter where it is and raises `awaiting_key`, so that
//! the host runs it again; run with a key held down it delivers the lowest
//! such key. Any other successful instruction lowers `awaiting_key`.

use vstd::prelude::*;
use crate::decode::{decode_spec, nnn_of, operation_of, Instruction, Operation};
use crate::error::{ErrorKind, Fault};
use crate::font::glyph_address;
use crate::machine::{blank_display, Machine};

verus! {

/// The failure of `instr` at the program counter of `m`.
pub open spec fn fault_at(m: Machine, instr: Instruction, kind: ErrorKind) -> Fault {
    Fault { kind, opcode: instr.word, pc: m.pc }
}

/// A program counter `k` bytes on, wrapped to 16 bits.
pub open spec fn pc_plus(pc: u16, k: int) -> u16 {
    ((pc + k) % 0x10000) as u16
}

/// `m` with the program counter `k` bytes on and no key wait pending.
pub open spec fn advanced(m: Machine, k: int) -> Machine {
    Machine { pc: pc_plus(m.pc, k), awaiting_key: None, ..m }
}

/// `m` after a conditional skip: four bytes on where the condition holds,
/// else two.
pub open spec fn skipped(m: Machine, condition: bool) -> Machine {
    advanced(m, if condition { 4 } else { 2 })
}

/// `m` with the program counter set to `target` and no key wait pending.
pub open spec fn jumped(m: Machine, target: u16) -> Machine {
    Machine { pc: target, awaiting_key: None, ..m }
}

/// `m` with register `x` set to `value`.
pub open spec fn with_register(m: Machine, x: int, value: u8) -> Machine {
    Machine { v: m.v.update(x, value), ..m }
}

/// `m` with the flag register set to 1 or 0.
pub open spec fn with_flag(m: Machine, flag: bool) -> Machine {
    with_register(m, 0xF, if flag { 1u8 } else { 0u8 })
}

/// True of the operand fields of every decoded instruction: register numbers
/// and the nibble below 16, the address below 4096.
pub open spec fn fields_valid(instr: Instruction) -> bool {
    instr.x < 16 && instr.y < 16 && instr.n < 16 && instr.nnn < 0x1000
}

/// The value that an arithmetic or logic operation leaves in `V[x]`, given
/// `a`, the old `V[x]`, and `b`, the old `V[y]`.
pub open spec fn alu_value(op: Operation, a: u8, b: u8) -> u8 {
    match op {
        Operation::Move => b,
        Operation::Or => a | b,
        Operation::And => a & b,
        Operation::Xor => a ^ b,
        Operation::Add => ((a + b) % 256) as u8,
        Operation::Sub => ((a - b) % 256) as u8,
        Operation::Shr => (a / 2) as u8,
        Operation::Subn => ((b - a) % 256) as u8,
        Operation::Shl => ((a * 2) % 256) as u8,
        _ => a,
    }
}

/// The flag that an arithmetic operation reports, or `None` where it leaves
/// `V[0xF]` alone: carry for `Add`, strictly-greater for `Sub` and `Subn`, the
/// bit shifted out for `Shr` and `Shl`.
pub open spec fn alu_flag(op: Operation, a: u8, b: u8) -> Option<bool> {
    match op {
        Operation::Add => Some(a + b > 255),
        Operation::Sub => Some(a > b),
        Operation::Shr => Some(a % 2 == 1),
        Operation::Subn => Some(b > a),
        Operation::Shl => Some(a >= 128),
        _ => None,
    }
}

/// True of the nine operations of the 8xy- group.
pub open spec fn is_alu(op: Operation) -> bool {
    op == Operation::Move || op == Operation::Or || op == Operation::And || op == Operation::Xor
        || op == Operation::Add || op == Operation::Sub || op == Operation::Shr || op
        == Operation::Subn || op == Operation::Shl
}

/// `m` after an arithmetic or logic operation on `V[x]` and `V[y]`.
pub open spec fn alu_applied(m: Machine, op: Operation, x: int, y: int) -> Machine {
    let a = m.v[x];
    let b = m.v[y];
    let stored = with_register(m, x, alu_value(op, a, b));
    match alu_flag(op, a, b) {
        Some(flag) => with_flag(stored, flag),
        None => stored,
    }
}

/// Bit `col` of a sprite row, counted from the most significant bit.
pub open spec fn sprite_bit(row: u8, col: int) -> bool {
    row & (0x80u8 >> (col as u8)) != 0
}

/// Whether the sprite of `n` rows at `mem[i ..]`, drawn with its top left
/// corner at column `vx`, row `vy`, has a set bit over the pixel at row `r`,
/// column `c`.
pub open spec fn sprite_covers(
    mem: Seq<u8>,
    i: int,
    n: int,
    vx: int,
    vy: int,
    r: int,
    c: int,
) -> bool {
    vy <= r < vy + n && vx <= c < vx + 8 && sprite_bit(mem[i + (r - vy)], c - vx)
}

/// The display after the sprite was drawn: each pixel under a set bit of the
/// sprite is inverted, every other pixel stays. What of the sprite falls
/// beyond the right or the bottom edge is not drawn.
pub open spec fn drawn_display(
    display: Seq<Seq<u8>>,
    mem: Seq<u8>,
    i: int,
    n: int,
    vx: int,
    vy: int,
) -> Seq<Seq<u8>> {
    Seq::new(
        32,
        |r: int|
            Seq::new(
                64,
                |c: int|
                    if sprite_covers(mem, i, n, vx, vy, r, c) {
                        display[r][c] ^ 1
                    } else {
                        display[r][c]
                    },
            ),
    )
}

/// Whether drawing the sprite turns off a pixel that was on.
pub open spec fn collides(
    display: Seq<Seq<u8>>,
    mem: Seq<u8>,
    i: int,
    n: int,
    vx: int,
    vy: int,
) -> bool {
    exists|r: int, c: int|
        0 <= r < 32 && 0 <= c < 64 && #[trigger] sprite_covers(mem, i, n, vx, vy, r, c)
            && display[r][c] == 1
}

/// `m` after the sprite of `n` rows at `mem[I ..]` was drawn at `(V[x], V[y])`.
pub open spec fn sprite_drawn(m: Machine, x: int, y: int, n: int) -> Machine {
    let vx = m.v[x] as int;
    let vy = m.v[y] as int;
    with_flag(
        Machine { display: drawn_display(m.display, m.mem, m.i as int, n, vx, vy), ..m },
        collides(m.display, m.mem, m.i as int, n, vx, vy),
    )
}

/// The lowest key at or above `from` that is held down, or 16 if there is
/// none.
pub open spec fn first_pressed(keypad: Seq<bool>, from: int) -> int
    decreases 16 - from,
{
    if from >= 16 {
        16
    } else if keypad[from] {
        from
    } else {
        first_pressed(keypad, from + 1)
    }
}

/// Memory with the three decimal digits of `value` at `i`, `i + 1`, `i + 2`:
/// hundreds, tens, units.
pub open spec fn bcd_stored(mem: Seq<u8>, i: int, value: u8) -> Seq<u8> {
    mem.update(i, (value / 100) as u8).update(i + 1, ((value / 10) % 10) as u8).update(
        i + 2,
        (value % 10) as u8,
    )
}

/// Memory with `V[0]` to `V[x]` at `i` to `i + x`.
pub open spec fn registers_stored(mem: Seq<u8>, v: Seq<u8>, i: int, x: int) -> Seq<u8> {
    Seq::new(4096, |a: int| if i <= a <= i + x { v[a - i] } else { mem[a] })
}

/// The registers with `V[0]` to `V[x]` read from memory at `i` to `i + x`.
pub open spec fn registers_loaded(v: Seq<u8>, mem: Seq<u8>, i: int, x: int) -> Seq<u8> {
    Seq::new(16, |k: int| if k <= x { mem[i + k] } else { v[k] })
}

/// The effect of one decoded instruction on the machine: the next state, or
/// the fault, in which case the machine stays as it is. `random` is the byte
/// that the randomness source gave; only `Random` reads it.
pub open spec fn execute_spec(m: Machine, instr: Instruction, random: u8) -> Result<
    Machine,
    Fault,
> {
    let x = instr.x as int;
    let y = instr.y as int;
    let n = instr.n as int;
    let i = m.i as int;
    if !fields_valid(instr) {
        Err(fault_at(m, instr, ErrorKind::InvalidOpcode))
    } else if is_alu(instr.op) {
        Ok(advanced(alu_applied(m, instr.op, x, y), 2))
    } else {
        match instr.op {
            Operation::Cls => Ok(advanced(Machine { display: blank_display(), ..m }, 2)),
            Operation::Ret => if m.sp == 0 {
                Err(fault_at(m, instr, ErrorKind::StackUnderflow))
            } else {
                Ok(jumped(Machine { sp: (m.sp - 1) as u8, ..m }, m.stack[m.sp - 1]))
            },
            Operation::Jump => Ok(jumped(m, instr.nnn)),
            Operation::Call => if m.sp >= 16 {
                Err(fault_at(m, instr, ErrorKind::StackOverflow))
            } else {
                Ok(
                    jumped(
                        Machine {
                            stack: m.stack.update(m.sp as int, pc_plus(m.pc, 2)),
                            sp: (m.sp + 1) as u8,
                            ..m
                        },
                        instr.nnn,
                    ),
                )
            },
            Operation::SkipEqByte => Ok(skipped(m, m.v[x] == instr.nn)),
            Operation::SkipNeByte => Ok(skipped(m, m.v[x] != instr.nn)),
            Operation::SkipEqReg => Ok(skipped(m, m.v[x] == m.v[y])),
            Operation::SkipNeReg => Ok(skipped(m, m.v[x] != m.v[y])),
            Operation::LoadByte => Ok(advanced(with_register(m, x, instr.nn), 2)),
            Operation::AddByte => Ok(
                advanced(with_register(m, x, ((m.v[x] + instr.nn) % 256) as u8), 2),
            ),
            Operation::LoadIndex => Ok(advanced(Machine { i: instr.nnn, ..m }, 2)),
            Operation::JumpOffset => Ok(jumped(m, (instr.nnn + m.v[0]) as u16)),
            Operation::Random => Ok(advanced(with_register(m, x, instr.nn & random), 2)),
            Operation::Draw => if n > 0 && i + n > 4096 {
                Err(fault_at(m, instr, ErrorKind::OutOfBoundsMemoryAccess))
            } else {
                Ok(advanced(sprite_drawn(m, x, y, n), 2))
            },
            Operation::SkipKey => if m.v[x] > 15 {
                Err(fault_at(m, instr, ErrorKind::InvalidOpcode))
            } else {
                Ok(skipped(m, m.keypad[m.v[x] as int]))
            },
            Operation::SkipNotKey => if m.v[x] > 15 {
                Err(fault_at(m, instr, ErrorKind::InvalidOpcode))
            } else {
                Ok(skipped(m, !m.keypad[m.v[x] as int]))
            },
            Operation::ReadDelay => Ok(advanced(with_register(m, x, m.delay), 2)),
            Operation::WaitKey => {
                let key = first_pressed(m.keypad, 0);
                if key < 16 {
                    Ok(advanced(with_register(m, x, key as u8), 2))
                } else {
                    Ok(Machine { awaiting_key: Some(instr.x), ..m })
                }
            },
            Operation::SetDelay => Ok(advanced(Machine { delay: m.v[x], ..m }, 2)),
            Operation::SetSound => Ok(advanced(Machine { sound: m.v[x], ..m }, 2)),
            Operation::AddIndex => Ok(
                advanced(Machine { i: ((m.i + m.v[x]) % 0x10000) as u16, ..m }, 2),
            ),
            Operation::Glyph => if m.v[x] > 15 {
                Err(fault_at(m, instr, ErrorKind::InvalidOpcode))
            } else {
                Ok(advanced(Machine { i: glyph_address(m.v[x] as int) as u16, ..m }, 2))
            },
            Operation::StoreBcd => if i + 2 >= 4096 {
                Err(fault_at(m, instr, ErrorKind::OutOfBoundsMemoryAccess))
            } else {
                Ok(advanced(Machine { mem: bcd_stored(m.mem, i, m.v[x]), ..m }, 2))
            },
            Operation::StoreRegs => if i + x >= 4096 {
                Err(fault_at(m, instr, ErrorKind::OutOfBoundsMemoryAccess))
            } else {
                Ok(advanced(Machine { mem: registers_stored(m.mem, m.v, i, x), ..m }, 2))
            },
            Operation::LoadRegs => if i + x >= 4096 {
                Err(fault_at(m, instr, ErrorKind::OutOfBoundsMemoryAccess))
            } else {
                Ok(advanced(Machine { v: registers_loaded(m.v, m.mem, i, x), ..m }, 2))
            },
            _ => Err(fault_at(m, instr, ErrorKind::InvalidOpcode)),
        }
    }
}

/// The instruction word at the program counter, high byte first, or the
/// fault where either of its two bytes lies beyond memory. No word was read
/// then, and the fault carries 0 in its place.
pub open spec fn fetch_spec(m: Machine) -> Result<u16, Fault> {
    if m.pc + 1 >= 4096 {
        Err(Fault { kind: ErrorKind::OutOfBoundsMemoryAccess, opcode: 0, pc: m.pc })
    } else {
        Ok((m.mem[m.pc as int] * 256 + m.mem[m.pc + 1]) as u16)
    }
}

/// One whole cycle: fetch, decode, execute.
pub open spec fn step_spec(m: Machine, random: u8) -> Result<Machine, Fault> {
    match fetch_spec(m) {
        Ok(word) => execute_spec(m, decode_spec(word), random),
        Err(fault) => Err(fault),
    }
}

/// Whether the cycle that `m` is about to run reads the randomness source.
pub open spec fn draws_random(m: Machine) -> bool {
    match fetch_spec(m) {
        Ok(word) => operation_of(word) == Operation::Random,
        Err(_) => false,
    }
}

/// Whether the instruction at the program counter is a jump to itself: the
/// machine would run it for ever, which a host may take for a halt.
pub open spec fn at_self_jump_spec(m: Machine) -> bool {
    match fetch_spec(m) {
        Ok(word) => operation_of(word) == Operation::Jump && nnn_of(word) == m.pc,
        Err(_) => false,
    }
}

} // verus!

