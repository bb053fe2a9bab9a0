//! The executor: one decoded instruction applied to the machine.

use vstd::prelude::*;
use crate::decode::{decode, Instruction, Operation};
use crate::draw::lemma_invert_pixel;
use crate::error::{ErrorKind, Fault};
use crate::font::{FONT_BASE, GLYPH_BYTES};
use crate::machine::{blank_display, Machine, CHIP8};
use crate::rng::random_byte;
use crate::semantics::{
    advanced,
    alu_flag,
    alu_value,
    at_self_jump_spec,
    draws_random,
    execute_spec,
    fault_at,
    fetch_spec,
    fields_valid,
    first_pressed,
    is_alu,
    jumped,
    registers_loaded,
    registers_stored,
    step_spec,
    with_flag,
};

verus! {

/// If no key from `from` up to `k` is held down, and `k` is 16 or held down,
/// then `k` is the first key pressed at or above `from`.
proof fn lemma_first_pressed(keypad: Seq<bool>, from: int, k: int)
    requires
        0 <= from <= k <= 16,
        forall|j: int| from <= j < k ==> !keypad[j],
        k == 16 || keypad[k],
    ensures
        first_pressed(keypad, from) == k,
    decreases k - from,
{
    if from < k {
        lemma_first_pressed(keypad, from + 1, k);
    }
}

/// Computes an operation of the 8xy- group on `a`, the value of `V[x]`, and
/// `b`, the value of `V[y]`: the new `V[x]` and the flag, if the operation
/// reports one.
pub fn alu(op: Operation, a: u8, b: u8) -> (res: (u8, Option<bool>))
    ensures
        res.0 == alu_value(op, a, b),
        res.1 == alu_flag(op, a, b),
{
    match op {
        Operation::Move => (b, None),
        Operation::Or => (a | b, None),
        Operation::And => (a & b, None),
        Operation::Xor => (a ^ b, None),
        Operation::Add => {
            let sum: u16 = a as u16 + b as u16;
            assert(sum & 0xFF == sum % 256) by (bit_vector);
            ((sum & 0xFF) as u8, Some(sum > 255))
        },
        Operation::Sub => (a.wrapping_sub(b), Some(a > b)),
        Operation::Shr => {
            assert(a >> 1 == a / 2 && (a & 1 == 1) == (a % 2 == 1)) by (bit_vector);
            (a >> 1, Some(a & 1 == 1))
        },
        Operation::Subn => (b.wrapping_sub(a), Some(b > a)),
        Operation::Shl => {
            assert((a << 1) as int == (a as int * 2) % 256 && (a & 0x80 != 0) == (a >= 128))
                by (bit_vector);
            (a << 1, Some(a & 0x80 != 0))
        },
        _ => (a, None),
    }
}

impl CHIP8 {
    /// Moves the program counter `k` bytes on and ends a pending key wait.
    fn advance(&mut self, k: u16)
        ensures
            final(self)@ == advanced(old(self)@, k as int),
    {
        self.pc = self.pc.wrapping_add(k);
        self.awaiting_key = None;
    }

    /// Sets the program counter and ends a pending key wait.
    fn jump(&mut self, target: u16)
        ensures
            final(self)@ == jumped(old(self)@, target),
    {
        self.pc = target;
        self.awaiting_key = None;
    }

    /// Sets the flag register to 1 or 0.
    fn set_flag(&mut self, flag: bool)
        ensures
            final(self)@ == with_flag(old(self)@, flag),
    {
        self.V[0xF] = if flag { 1 } else { 0 };
    }

    /// The lowest key that is held down, or 16 if none is.
    pub fn first_pressed_key(&self) -> (key: u8)
        ensures
            key == first_pressed(self@.keypad, 0),
            key <= 16,
    {
        let mut k: u8 = 0;
        while k < 16 && !self.keypad[k as usize]
            invariant
                k <= 16,
                forall|j: int| 0 <= j < k ==> !self@.keypad[j],
            decreases 16 - k,
        {
            k += 1;
        }
        proof {
            lemma_first_pressed(self@.keypad, 0, k as int);
        }
        k
    }

    /// Writes `V[0]` to `V[x]` to memory at `I` to `I + x`.
    fn store_registers(&mut self, x: u8)
        requires
            x < 16,
            old(self).I + x < 4096,
        ensures
            final(self)@ == (Machine {
                mem: registers_stored(
                    old(self)@.mem,
                    old(self)@.v,
                    old(self).I as int,
                    x as int,
                ),
                ..old(self)@
            }),
    {
        let base: usize = self.I as usize;
        let mut k: usize = 0;
        while k <= x as usize
            invariant
                k <= x + 1,
                x < 16,
                base == old(self).I,
                base + x < 4096,
                self.V == old(self).V,
                self.I == old(self).I,
                self.delay == old(self).delay,
                self.sound == old(self).sound,
                self.pc == old(self).pc,
                self.sp == old(self).sp,
                self.stack == old(self).stack,
                self.display == old(self).display,
                self.keypad == old(self).keypad,
                self.awaiting_key == old(self).awaiting_key,
                forall|a: int|
                    0 <= a < 4096 ==> #[trigger] self.mem[a] == (if base <= a < base + k {
                        old(self).V[a - base]
                    } else {
                        old(self).mem[a]
                    }),
            decreases x + 1 - k,
        {
            self.mem[base + k] = self.V[k];
            k += 1;
        }
        proof {
            assert(self@.mem =~= registers_stored(
                old(self)@.mem,
                old(self)@.v,
                old(self).I as int,
                x as int,
            ));
        }
    }

    /// Reads `V[0]` to `V[x]` from memory at `I` to `I + x`.
    fn load_registers(&mut self, x: u8)
        requires
            x < 16,
            old(self).I + x < 4096,
        ensures
            final(self)@ == (Machine {
                v: registers_loaded(old(self)@.v, old(self)@.mem, old(self).I as int, x as int),
                ..old(self)@
            }),
    {
        let base: usize = self.I as usize;
        let mut k: usize = 0;
        while k <= x as usize
            invariant
                k <= x + 1,
                x < 16,
                base == old(self).I,
                base + x < 4096,
                self.mem == old(self).mem,
                self.I == old(self).I,
                self.delay == old(self).delay,
                self.sound == old(self).sound,
                self.pc == old(self).pc,
                self.sp == old(self).sp,
                self.stack == old(self).stack,
                self.display == old(self).display,
                self.keypad == old(self).keypad,
                self.awaiting_key == old(self).awaiting_key,
                forall|j: int|
                    0 <= j < 16 ==> #[trigger] self.V[j] == (if j < k {
                        old(self).mem[base + j]
                    } else {
                        old(self).V[j]
                    }),
            decreases x + 1 - k,
        {
            self.V[k] = self.mem[base + k];
            k += 1;
        }
        proof {
            assert(self@.v =~= registers_loaded(
                old(self)@.v,
                old(self)@.mem,
                old(self).I as int,
                x as int,
            ));
        }
    }
}

/// Whether `post` and `res` are what executing `instr` on `pre` must give: on
/// success the state that `execute_spec` names, on failure its fault and the
/// machine untouched; the invariant holds either way.
pub open spec fn executed(
    pre: CHIP8,
    post: CHIP8,
    instr: Instruction,
    random: u8,
    res: Result<(), Fault>,
) -> bool {
    &&& match execute_spec(pre@, instr, random) {
        Ok(next) => res.is_ok() && post@ == next,
        Err(fault) => res == Err::<(), Fault>(fault) && post == pre,
    }
    &&& post.wf()
}

impl CHIP8 {
    /// The failure of `instr` at the current program counter.
    fn fault(&self, instr: Instruction, kind: ErrorKind) -> (f: Fault)
        ensures
            f == fault_at(self@, instr, kind),
    {
        Fault { kind, opcode: instr.word, pc: self.pc }
    }

    /// Return, jumps and call.
    fn execute_flow(&mut self, instr: Instruction, Ghost(random): Ghost<u8>) -> (res: Result<
        (),
        Fault,
    >)
        requires
            old(self).wf(),
            fields_valid(instr),
            instr.op == Operation::Ret || instr.op == Operation::Jump || instr.op
                == Operation::Call || instr.op == Operation::JumpOffset,
        ensures
            executed(*old(self), *final(self), instr, random, res),
    {
        match instr.op {
            Operation::Ret => {
                if self.sp == 0 {
                    return Err(self.fault(instr, ErrorKind::StackUnderflow));
                }
                let target: u16 = self.stack[self.sp as usize - 1];
                self.sp -= 1;
                self.jump(target);
            },
            Operation::Jump => {
                self.jump(instr.nnn);
            },
            Operation::Call => {
                if self.sp >= 16 {
                    return Err(self.fault(instr, ErrorKind::StackOverflow));
                }
                self.stack[self.sp as usize] = self.pc.wrapping_add(2);
                self.sp += 1;
                self.jump(instr.nnn);
            },
            _ => {
                let target: u16 = instr.nnn + self.V[0] as u16;
                self.jump(target);
            },
        }
        Ok(())
    }

    /// The conditional skips.
    fn execute_skip(&mut self, instr: Instruction, Ghost(random): Ghost<u8>) -> (res: Result<
        (),
        Fault,
    >)
        requires
            old(self).wf(),
            fields_valid(instr),
            instr.op == Operation::SkipEqByte || instr.op == Operation::SkipNeByte || instr.op
                == Operation::SkipEqReg || instr.op == Operation::SkipNeReg || instr.op
                == Operation::SkipKey || instr.op == Operation::SkipNotKey,
        ensures
            executed(*old(self), *final(self), instr, random, res),
    {
        let a: u8 = self.V[instr.x as usize];
        let b: u8 = self.V[instr.y as usize];
        let condition: bool = match instr.op {
            Operation::SkipEqByte => a == instr.nn,
            Operation::SkipNeByte => a != instr.nn,
            Operation::SkipEqReg => a == b,
            Operation::SkipNeReg => a != b,
            Operation::SkipKey => {
                if a > 15 {
                    return Err(self.fault(instr, ErrorKind::InvalidOpcode));
                }
                self.keypad[a as usize]
            },
            _ => {
                if a > 15 {
                    return Err(self.fault(instr, ErrorKind::InvalidOpcode));
                }
                !self.keypad[a as usize]
            },
        };
        self.advance(if condition { 4 } else { 2 });
        Ok(())
    }

    /// The instructions that write one register and step on.
    fn execute_register(&mut self, instr: Instruction, random: u8) -> (res: Result<(), Fault>)
        requires
            old(self).wf(),
            fields_valid(instr),
            is_alu(instr.op) || instr.op == Operation::LoadByte || instr.op == Operation::AddByte
                || instr.op == Operation::Random || instr.op == Operation::ReadDelay,
        ensures
            executed(*old(self), *final(self), instr, random, res),
    {
        let x: usize = instr.x as usize;
        match instr.op {
            Operation::LoadByte => {
                self.V[x] = instr.nn;
            },
            Operation::AddByte => {
                self.V[x] = self.V[x].wrapping_add(instr.nn);
            },
            Operation::Random => {
                self.V[x] = instr.nn & random;
            },
            Operation::ReadDelay => {
                self.V[x] = self.delay;
            },
            _ => {
                let (value, flag) = alu(instr.op, self.V[x], self.V[instr.y as usize]);
                self.V[x] = value;
                match flag {
                    Some(f) => {
                        self.set_flag(f);
                    },
                    None => {},
                }
            },
        }
        self.advance(2);
        Ok(())
    }

    /// Clear screen, the timers, the address register and the key wait.
    fn execute_control(&mut self, instr: Instruction, Ghost(random): Ghost<u8>) -> (res: Result<
        (),
        Fault,
    >)
        requires
            old(self).wf(),
            fields_valid(instr),
            instr.op == Operation::Cls || instr.op == Operation::LoadIndex || instr.op
                == Operation::SetDelay || instr.op == Operation::SetSound || instr.op
                == Operation::AddIndex || instr.op == Operation::Glyph || instr.op
                == Operation::WaitKey,
        ensures
            executed(*old(self), *final(self), instr, random, res),
    {
        let x: usize = instr.x as usize;
        match instr.op {
            Operation::Cls => {
                self.display = [[0u8; 64]; 32];
                proof {
                    assert forall|r: int| 0 <= r < 32 implies #[trigger] self@.display[r]
                        =~= blank_display()[r] by {}
                    assert(self@.display =~= blank_display());
                }
            },
            Operation::LoadIndex => {
                self.I = instr.nnn;
            },
            Operation::SetDelay => {
                self.delay = self.V[x];
            },
            Operation::SetSound => {
                self.sound = self.V[x];
            },
            Operation::AddIndex => {
                self.I = self.I.wrapping_add(self.V[x] as u16);
            },
            Operation::Glyph => {
                let digit: u8 = self.V[x];
                if digit > 15 {
                    return Err(self.fault(instr, ErrorKind::InvalidOpcode));
                }
                self.I = FONT_BASE + GLYPH_BYTES * digit as u16;
            },
            _ => {
                let key: u8 = self.first_pressed_key();
                if key < 16 {
                    self.V[x] = key;
                } else {
                    self.awaiting_key = Some(instr.x);
                    return Ok(());
                }
            },
        }
        self.advance(2);
        Ok(())
    }

    /// The instructions that read or write memory at `I`, but for drawing.
    fn execute_memory(&mut self, instr: Instruction, Ghost(random): Ghost<u8>) -> (res: Result<
        (),
        Fault,
    >)
        requires
            old(self).wf(),
            fields_valid(instr),
            instr.op == Operation::StoreBcd || instr.op == Operation::StoreRegs || instr.op
                == Operation::LoadRegs,
        ensures
            executed(*old(self), *final(self), instr, random, res),
    {
        let base: usize = self.I as usize;
        let last: usize = if instr.op == Operation::StoreBcd { 2 } else { instr.x as usize };
        if base + last >= 4096 {
            return Err(self.fault(instr, ErrorKind::OutOfBoundsMemoryAccess));
        }
        match instr.op {
            Operation::StoreBcd => {
                let value: u8 = self.V[instr.x as usize];
                self.mem[base] = value / 100;
                self.mem[base + 1] = (value / 10) % 10;
                self.mem[base + 2] = value % 10;
            },
            Operation::StoreRegs => {
                self.store_registers(instr.x);
            },
            _ => {
                self.load_registers(instr.x);
            },
        }
        self.advance(2);
        Ok(())
    }

    /// Draw.
    fn execute_draw(&mut self, instr: Instruction, Ghost(random): Ghost<u8>) -> (res: Result<
        (),
        Fault,
    >)
        requires
            old(self).wf(),
            fields_valid(instr),
            instr.op == Operation::Draw,
        ensures
            executed(*old(self), *final(self), instr, random, res),
    {
        if instr.n > 0 && self.I as usize + instr.n as usize > 4096 {
            return Err(self.fault(instr, ErrorKind::OutOfBoundsMemoryAccess));
        }
        let vx: u8 = self.V[instr.x as usize];
        let vy: u8 = self.V[instr.y as usize];
        let hit: bool = self.draw_sprite(instr.n, vx, vy);
        self.set_flag(hit);
        self.advance(2);
        proof {
            assert forall|r: int, c: int| 0 <= r < 32 && 0 <= c < 64 implies #[trigger] self@.display[r][c]
                <= 1 by {
                lemma_invert_pixel(old(self)@.display[r][c]);
            }
        }
        Ok(())
    }

    /// Executes one decoded instruction. `random` is the byte to use should
    /// the instruction be `Random`.
    ///
    /// On success the machine is in the state that `execute_spec` gives, with
    /// the program counter already updated. On failure the fault says why and
    /// the machine is exactly as it was. An instruction whose operand fields
    /// are out of range is refused as an invalid opcode.
    pub fn execute(&mut self, instr: Instruction, random: u8) -> (res: Result<(), Fault>)
        requires
            old(self).wf(),
        ensures
            match execute_spec(old(self)@, instr, random) {
                Ok(next) => res.is_ok() && final(self)@ == next,
                Err(fault) => res == Err::<(), Fault>(fault) && *final(self) == *old(self),
            },
            final(self).wf(),
    {
        if instr.x >= 16 || instr.y >= 16 || instr.n >= 16 || instr.nnn >= 0x1000 {
            return Err(self.fault(instr, ErrorKind::InvalidOpcode));
        }
        match instr.op {
            Operation::Ret | Operation::Jump | Operation::Call | Operation::JumpOffset => {
                self.execute_flow(instr, Ghost(random))
            },
            Operation::SkipEqByte
            | Operation::SkipNeByte
            | Operation::SkipEqReg
            | Operation::SkipNeReg
            | Operation::SkipKey
            | Operation::SkipNotKey => self.execute_skip(instr, Ghost(random)),
            Operation::Cls
            | Operation::LoadIndex
            | Operation::SetDelay
            | Operation::SetSound
            | Operation::AddIndex
            | Operation::Glyph
            | Operation::WaitKey => self.execute_control(instr, Ghost(random)),
            Operation::StoreBcd | Operation::StoreRegs | Operation::LoadRegs => {
                self.execute_memory(instr, Ghost(random))
            },
            Operation::Draw => self.execute_draw(instr, Ghost(random)),
            Operation::Unknown => Err(self.fault(instr, ErrorKind::InvalidOpcode)),
            _ => self.execute_register(instr, random),
        }
    }
}

/// Whether `post` and `res` are what one cycle on `pre` must give, with
/// `random` as the byte from the randomness source: on success the state that
/// `step_spec` names, on failure its fault and the machine untouched; the
/// invariant holds either way.
pub open spec fn stepped(pre: CHIP8, post: CHIP8, random: u8, res: Result<(), Fault>) -> bool {
    &&& match step_spec(pre@, random) {
        Ok(next) => res.is_ok() && post@ == next,
        Err(fault) => res == Err::<(), Fault>(fault) && post == pre,
    }
    &&& post.wf()
}

impl CHIP8 {
    /// Reads the instruction word at the program counter, high byte first.
    /// Fails where the word does not lie within memory.
    pub fn fetch(&self) -> (res: Result<u16, Fault>)
        ensures
            res == fetch_spec(self@),
    {
        let pc: usize = self.pc as usize;
        if pc + 1 >= 4096 {
            return Err(Fault { kind: ErrorKind::OutOfBoundsMemoryAccess, opcode: 0, pc: self.pc });
        }
        let high: u16 = self.mem[pc] as u16;
        let low: u16 = self.mem[pc + 1] as u16;
        assert((high << 8) | low == high * 256 + low) by (bit_vector)
            requires
                high < 256,
                low < 256,
        ;
        Ok((high << 8) | low)
    }

    /// Tells whether the instruction at the program counter jumps to itself.
    /// The engine executes such a jump like any other; the host decides
    /// whether to go on.
    pub fn at_self_jump(&self) -> (halted: bool)
        ensures
            halted == at_self_jump_spec(self@),
    {
        match self.fetch() {
            Ok(word) => {
                let instr = decode(word);
                instr.op == Operation::Jump && instr.nnn == self.pc
            },
            Err(_) => false,
        }
    }

    /// Runs one cycle with `random` standing for the randomness source:
    /// fetches the word at the program counter, decodes it and executes it.
    /// With a chosen byte every cycle is reproducible.
    pub fn step(&mut self, random: u8) -> (res: Result<(), Fault>)
        requires
            old(self).wf(),
        ensures
            stepped(*old(self), *final(self), random, res),
    {
        match self.fetch() {
            Ok(word) => self.execute(decode(word), random),
            Err(fault) => Err(fault),
        }
    }

    /// Runs one cycle, drawing a byte from the randomness source where the
    /// instruction asks for one. The outcome is that of `step` with the byte
    /// that was drawn; a cycle that draws none is that of `step` with any
    /// byte.
    pub fn cycle(&mut self) -> (res: Result<(), Fault>)
        requires
            old(self).wf(),
        ensures
            exists|random: u8| stepped(*old(self), *final(self), random, res),
            !draws_random(old(self)@) ==> forall|random: u8|
                stepped(*old(self), *final(self), random, res),
    {
        match self.fetch() {
            Ok(word) => {
                let instr = decode(word);
                let random: u8 = if instr.op == Operation::Random {
                    random_byte()
                } else {
                    0
                };
                let res = self.execute(instr, random);
                proof {
                    assert(stepped(*old(self), *self, random, res));
                    if !draws_random(old(self)@) {
                        assert forall|other: u8| stepped(*old(self), *self, other, res) by {
                            lemma_random_unread(old(self)@, instr, random, other);
                        }
                    }
                }
                res
            },
            Err(fault) => {
                proof {
                    assert(stepped(*old(self), *self, 0, Err(fault)));
                }
                Err(fault)
            },
        }
    }
}

/// Only `Random` reads the random byte: any other instruction does the same
/// with any two bytes.
pub proof fn lemma_random_unread(m: Machine, instr: Instruction, first: u8, second: u8)
    requires
        instr.op != Operation::Random,
    ensures
        execute_spec(m, instr, first) == execute_spec(m, instr, second),
{
}

} // verus!

