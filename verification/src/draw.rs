//! Sprite drawing.

use vstd::prelude::*;
use crate::machine::{Machine, CHIP8};
use crate::semantics::{collides, drawn_display, sprite_covers};

verus! {

/// Whether the pixel at row `r`, column `c` comes before column `limit` of row
/// `py` when the display is walked row by row.
spec fn walked(r: int, c: int, py: int, limit: int) -> bool {
    r < py || (r == py && c < limit)
}

/// Inverting a pixel keeps it 0 or 1, and inverting it twice gives it back.
pub proof fn lemma_invert_pixel(p: u8)
    requires
        p <= 1,
    ensures
        p ^ 1 <= 1,
        (p ^ 1) ^ 1 == p,
        (p == 1) <==> (p ^ 1 == 0),
        (p == 0) <==> (p ^ 1 == 1),
{
    assert(p <= 1 ==> (p ^ 1 <= 1 && (p ^ 1) ^ 1 == p && ((p == 1) <==> (p ^ 1 == 0)) && ((p
        == 0) <==> (p ^ 1 == 1)))) by (bit_vector);
}

impl CHIP8 {
    /// Draws the sprite of `n` rows at `mem[I ..]` with its top left corner at
    /// column `vx`, row `vy`, and tells whether a pixel went from on to off.
    /// Only the display changes.
    pub(crate) fn draw_sprite(&mut self, n: u8, vx: u8, vy: u8) -> (hit: bool)
        requires
            old(self).wf(),
            n <= 15,
            n == 0 || old(self).I + n <= 4096,
        ensures
            final(self)@ == (Machine {
                display: drawn_display(
                    old(self)@.display,
                    old(self)@.mem,
                    old(self).I as int,
                    n as int,
                    vx as int,
                    vy as int,
                ),
                ..old(self)@
            }),
            hit == collides(
                old(self)@.display,
                old(self)@.mem,
                old(self).I as int,
                n as int,
                vx as int,
                vy as int,
            ),
    {
        let ghost before = old(self)@.display;
        let ghost mem = old(self)@.mem;
        let ghost i = old(self).I as int;
        let mut hit = false;
        let mut row: u8 = 0;
        while row < n
            invariant
                row <= n <= 15,
                n == 0 || i + n <= 4096,
                before == old(self)@.display,
                mem == old(self)@.mem,
                i == old(self).I as int,
                old(self).wf(),
                self.V == old(self).V,
                self.I == old(self).I,
                self.delay == old(self).delay,
                self.sound == old(self).sound,
                self.pc == old(self).pc,
                self.sp == old(self).sp,
                self.mem == old(self).mem,
                self.stack == old(self).stack,
                self.keypad == old(self).keypad,
                self.awaiting_key == old(self).awaiting_key,
                forall|r: int, c: int|
                    0 <= r < 32 && 0 <= c < 64 ==> #[trigger] self.display[r][c] == (
                    if sprite_covers(mem, i, n as int, vx as int, vy as int, r, c) && walked(
                        r,
                        c,
                        vy + row,
                        vx as int,
                    ) {
                        before[r][c] ^ 1
                    } else {
                        before[r][c]
                    }),
                hit <==> exists|r: int, c: int|
                    0 <= r < 32 && 0 <= c < 64 && #[trigger] sprite_covers(
                        mem,
                        i,
                        n as int,
                        vx as int,
                        vy as int,
                        r,
                        c,
                    ) && before[r][c] == 1 && walked(r, c, vy + row, vx as int),
            decreases n - row,
        {
            let py: usize = vy as usize + row as usize;
            if py < 32 {
                let bits: u8 = self.mem[self.I as usize + row as usize];
                let mut col: u8 = 0;
                while col < 8
                    invariant
                        col <= 8,
                        row < n <= 15,
                        py == vy + row,
                        py < 32,
                        bits == mem[i + row],
                        before == old(self)@.display,
                        mem == old(self)@.mem,
                        i == old(self).I as int,
                        old(self).wf(),
                        self.V == old(self).V,
                        self.I == old(self).I,
                        self.delay == old(self).delay,
                        self.sound == old(self).sound,
                        self.pc == old(self).pc,
                        self.sp == old(self).sp,
                        self.mem == old(self).mem,
                        self.stack == old(self).stack,
                        self.keypad == old(self).keypad,
                        self.awaiting_key == old(self).awaiting_key,
                        forall|r: int, c: int|
                            0 <= r < 32 && 0 <= c < 64 ==> #[trigger] self.display[r][c] == (
                            if sprite_covers(mem, i, n as int, vx as int, vy as int, r, c)
                                && walked(r, c, py as int, vx + col) {
                                before[r][c] ^ 1
                            } else {
                                before[r][c]
                            }),
                        hit <==> exists|r: int, c: int|
                            0 <= r < 32 && 0 <= c < 64 && #[trigger] sprite_covers(
                                mem,
                                i,
                                n as int,
                                vx as int,
                                vy as int,
                                r,
                                c,
                            ) && before[r][c] == 1 && walked(r, c, py as int, vx + col),
                    decreases 8 - col,
                {
                    let px: usize = vx as usize + col as usize;
                    if px < 64 && bits & (0x80u8 >> col) != 0 {
                        assert(sprite_covers(
                            mem,
                            i,
                            n as int,
                            vx as int,
                            vy as int,
                            py as int,
                            px as int,
                        ));
                        let mut line: [u8; 64] = self.display[py];
                        if line[px] == 1 {
                            hit = true;
                        }
                        line[px] = line[px] ^ 1;
                        self.display[py] = line;
                    }
                    col += 1;
                }
            }
            row += 1;
        }
        proof {
            assert forall|r: int| 0 <= r < 32 implies #[trigger] self@.display[r] =~= drawn_display(
                before,
                mem,
                i,
                n as int,
                vx as int,
                vy as int,
            )[r] by {
                assert forall|c: int| 0 <= c < 64 implies self@.display[r][c] == drawn_display(
                    before,
                    mem,
                    i,
                    n as int,
                    vx as int,
                    vy as int,
                )[r][c] by {
                    assert(self.display[r][c] == self@.display[r][c]);
                }
            }
            assert(self@.display =~= drawn_display(before, mem, i, n as int, vx as int, vy as int));
        }
        hit
    }
}

} // verus!
