//! The machine state and its mathematical model.

use vstd::prelude::*;
use crate::error::ErrorKind;
use crate::font::FONT;

verus! {

/// Bytes of addressable memory.
pub const MEMORY_SIZE: usize = 4096;

/// Address at which a program is loaded and at which execution starts.
pub const PROGRAM_START: u16 = 0x200;

/// Levels of the call stack.
pub const STACK_DEPTH: usize = 16;

/// Width of the display in pixels.
pub const DISPLAY_WIDTH: usize = 64;

/// Height of the display in pixels.
pub const DISPLAY_HEIGHT: usize = 32;

/// The whole state of the emulated machine.
#[allow(non_snake_case)]
#[derive(Clone, Debug, PartialEq, Eq)]
pub struct CHIP8 {
    /// General purpose registers; `V[0xF]` doubles as the flag register.
    pub V: [u8; 16],
    /// Address register.
    pub I: u16,
    /// Delay timer, counted down towards 0 by `tick_timers`.
    pub delay: u8,
    /// Sound timer, counted down towards 0 by `tick_timers`.
    pub sound: u8,
    /// Program counter.
    pub pc: u16,
    /// Number of return addresses on the stack.
    pub sp: u8,
    /// The memory accessible to the machine.
    pub mem: [u8; 4096],
    /// Return addresses; the slots below `sp` are in use.
    pub stack: [u16; 16],
    /// Monochrome display, `display[row][column]`, each pixel 0 or 1.
    pub display: [[u8; 64]; 32],
    /// The keypad; `keypad[k]` is true while key `k` is held down.
    pub keypad: [bool; 16],
    /// `Some(x)` while the machine is suspended on a key wait that will
    /// deliver the key into register `x`.
    pub awaiting_key: Option<u8>,
}

/// The machine as a mathematical value: what `CHIP8` holds, with sequences in
/// place of arrays.
pub struct Machine {
    pub v: Seq<u8>,
    pub i: u16,
    pub delay: u8,
    pub sound: u8,
    pub pc: u16,
    pub sp: u8,
    pub mem: Seq<u8>,
    pub stack: Seq<u16>,
    pub display: Seq<Seq<u8>>,
    pub keypad: Seq<bool>,
    pub awaiting_key: Option<u8>,
}

impl Machine {
    /// The shape of the model of a real machine: every sequence has the length
    /// of its array.
    pub open spec fn shaped(self) -> bool {
        &&& self.v.len() == 16
        &&& self.mem.len() == 4096
        &&& self.stack.len() == 16
        &&& self.keypad.len() == 16
        &&& self.display.len() == 32
        &&& forall|r: int| 0 <= r < 32 ==> (#[trigger] self.display[r]).len() == 64
    }

    /// The invariant of the machine: the stack pointer counts at most sixteen
    /// levels and every pixel is 0 or 1.
    pub open spec fn wf(self) -> bool {
        &&& self.shaped()
        &&& self.sp <= 16
        &&& forall|r: int, c: int| 0 <= r < 32 && 0 <= c < 64 ==> #[trigger] self.display[r][c] <= 1
    }
}

/// A display with every pixel off.
pub open spec fn blank_display() -> Seq<Seq<u8>> {
    Seq::new(32, |r: int| Seq::new(64, |c: int| 0u8))
}

/// Memory as it is before a program is loaded: the font at 0x050 to 0x09F,
/// zero elsewhere.
pub open spec fn initial_memory() -> Seq<u8> {
    Seq::new(4096, |a: int| if 0x50 <= a < 0xA0 { FONT[a - 0x50] } else { 0u8 })
}

/// The machine at power-on.
pub open spec fn initial_machine() -> Machine {
    Machine {
        v: Seq::new(16, |k: int| 0u8),
        i: 0,
        delay: 0,
        sound: 0,
        pc: 0x200,
        sp: 0,
        mem: initial_memory(),
        stack: Seq::new(16, |k: int| 0u16),
        display: blank_display(),
        keypad: Seq::new(16, |k: int| false),
        awaiting_key: None,
    }
}

impl View for CHIP8 {
    type V = Machine;

    open spec fn view(&self) -> Machine {
        Machine {
            v: self.V@,
            i: self.I,
            delay: self.delay,
            sound: self.sound,
            pc: self.pc,
            sp: self.sp,
            mem: self.mem@,
            stack: self.stack@,
            display: Seq::new(32, |r: int| self.display[r]@),
            keypad: self.keypad@,
            awaiting_key: self.awaiting_key,
        }
    }
}

impl CHIP8 {
    /// The invariant of the machine, stated of its model.
    pub open spec fn wf(&self) -> bool {
        self@.wf()
    }

    /// A machine at power-on: everything zero but the program counter, which
    /// is 0x200, and the font in memory.
    pub fn init() -> (chip: CHIP8)
        ensures
            chip@ == initial_machine(),
            chip.wf(),
    {
        let mut mem: [u8; 4096] = [0u8; 4096];
        let mut k: usize = 0;
        while k < 80
            invariant
                k <= 80,
                forall|a: int| 0 <= a < 4096 ==> #[trigger] mem[a] == (if 0x50 <= a < 0x50 + k {
                    FONT[a - 0x50]
                } else {
                    0u8
                }),
            decreases 80 - k,
        {
            mem[k + 0x50] = FONT[k];
            k += 1;
        }
        let chip = CHIP8 {
            V: [0u8; 16],
            I: 0,
            delay: 0,
            sound: 0,
            pc: 0x200,
            sp: 0,
            mem,
            stack: [0u16; 16],
            display: [[0u8; 64]; 32],
            keypad: [false; 16],
            awaiting_key: None,
        };
        proof {
            assert(chip@.v =~= initial_machine().v);
            assert(chip@.mem =~= initial_machine().mem);
            assert(chip@.stack =~= initial_machine().stack);
            assert(chip@.keypad =~= initial_machine().keypad);
            assert forall|r: int| 0 <= r < 32 implies #[trigger] chip@.display[r]
                =~= blank_display()[r] by {}
            assert(chip@.display =~= blank_display());
        }
        chip
    }
}

/// Memory after a program was copied to 0x200 and upward.
pub open spec fn memory_with_program(mem: Seq<u8>, program: Seq<u8>) -> Seq<u8> {
    Seq::new(
        4096,
        |a: int| if 0x200 <= a < 0x200 + program.len() { program[a - 0x200] } else { mem[a] },
    )
}

/// A timer one tick later: one less, and 0 stays 0.
pub open spec fn ticked(timer: u8) -> u8 {
    if timer == 0 { 0u8 } else { (timer - 1) as u8 }
}

impl CHIP8 {
    /// Copies a program into memory from 0x200 upward. A program of more than
    /// 3584 bytes does not fit: it is refused and the machine is left as it
    /// was.
    pub fn load_program(&mut self, program: &[u8]) -> (res: Result<(), ErrorKind>)
        ensures
            program@.len() > 4096 - 0x200 ==> res == Err::<(), ErrorKind>(
                ErrorKind::ProgramTooLarge,
            ) && *final(self) == *old(self),
            program@.len() <= 4096 - 0x200 ==> res.is_ok() && final(self)@ == (Machine {
                mem: memory_with_program(old(self)@.mem, program@),
                ..old(self)@
            }),
            old(self).wf() ==> final(self).wf(),
    {
        let len: usize = program.len();
        if len > MEMORY_SIZE - 0x200 {
            return Err(ErrorKind::ProgramTooLarge);
        }
        let mut k: usize = 0;
        while k < len
            invariant
                k <= len,
                len == program@.len(),
                len <= 4096 - 0x200,
                self.V == old(self).V,
                self.I == old(self).I,
                self.delay == old(self).delay,
                self.sound == old(self).sound,
                self.pc == old(self).pc,
                self.sp == old(self).sp,
                self.stack == old(self).stack,
                self.display == old(self).display,
                self.keypad == old(self).keypad,
                self.awaiting_key == old(self).awaiting_key,
                forall|a: int| 0 <= a < 4096 ==> #[trigger] self.mem[a] == (if 0x200 <= a < 0x200
                    + k {
                    program@[a - 0x200]
                } else {
                    old(self).mem[a]
                }),
            decreases len - k,
        {
            self.mem[k + 0x200] = program[k];
            k += 1;
        }
        proof {
            assert(self@.mem =~= memory_with_program(old(self)@.mem, program@));
            assert(self@.display =~= old(self)@.display);
        }
        Ok(())
    }

    /// One tick of the 60 Hz clock: each timer that is not 0 goes down by one.
    /// Nothing else changes.
    pub fn tick_timers(&mut self)
        ensures
            final(self)@ == (Machine {
                delay: ticked(old(self).delay),
                sound: ticked(old(self).sound),
                ..old(self)@
            }),
            old(self).wf() ==> final(self).wf(),
    {
        if self.delay > 0 {
            self.delay -= 1;
        }
        if self.sound > 0 {
            self.sound -= 1;
        }
        proof {
            assert(self@.display =~= old(self)@.display);
        }
    }

    /// Tells whether the invariant holds: a host that has written to the
    /// public fields can test it before stepping the machine.
    pub fn is_well_formed(&self) -> (ok: bool)
        ensures
            ok == self.wf(),
    {
        if self.sp > 16 {
            return false;
        }
        let mut r: usize = 0;
        while r < 32
            invariant
                r <= 32,
                forall|p: int, c: int| 0 <= p < r && 0 <= c < 64 ==> #[trigger] self@.display[p][c]
                    <= 1,
            decreases 32 - r,
        {
            let mut c: usize = 0;
            while c < 64
                invariant
                    r < 32,
                    c <= 64,
                    forall|p: int, q: int|
                        0 <= p < r && 0 <= q < 64 ==> #[trigger] self@.display[p][q] <= 1,
                    forall|q: int| 0 <= q < c ==> #[trigger] self@.display[r as int][q] <= 1,
                decreases 64 - c,
            {
                if self.display[r][c] > 1 {
                    assert(self@.display[r as int][c as int] > 1);
                    return false;
                }
                c += 1;
            }
            r += 1;
        }
        true
    }
}

/// The display in row-major order: the pixel at row `r`, column `c` is at
/// index `r * 64 + c`.
pub open spec fn row_major(display: Seq<Seq<u8>>) -> Seq<u8> {
    Seq::new(2048, |k: int| display[k / 64][k % 64])
}

impl CHIP8 {
    /// A copy of the display for a renderer, as 2048 pixels in row-major
    /// order.
    pub fn framebuffer(&self) -> (pixels: Vec<u8>)
        ensures
            pixels@ == row_major(self@.display),
    {
        let mut pixels: Vec<u8> = Vec::with_capacity(2048);
        let mut r: usize = 0;
        while r < 32
            invariant
                r <= 32,
                pixels@.len() == r * 64,
                forall|k: int| 0 <= k < r * 64 ==> #[trigger] pixels@[k] == self@.display[k / 64][k % 64],
            decreases 32 - r,
        {
            let mut c: usize = 0;
            while c < 64
                invariant
                    r < 32,
                    c <= 64,
                    pixels@.len() == r * 64 + c,
                    forall|k: int|
                        0 <= k < r * 64 + c ==> #[trigger] pixels@[k] == self@.display[k / 64][k
                            % 64],
                decreases 64 - c,
            {
                pixels.push(self.display[r][c]);
                c += 1;
            }
            r += 1;
        }
        assert(pixels@ =~= row_major(self@.display));
        pixels
    }
}

} // verus!

