//! Diagnostic dumps of memory, display and registers as text.

use vstd::prelude::*;
use vstd::string::StringExecFns;
use crate::machine::{Machine, CHIP8};
use crate::semantics::fetch_spec;

verus! {

/// `String::push` appends the character to the end of the string.
pub assume_specification[ String::push ](s: &mut String, ch: char)
    ensures
        final(s)@ == old(s)@.push(ch),
;

/// The hexadecimal digit for a value below 16, in upper or lower case.
pub open spec fn hex_digit(d: int, upper: bool) -> char {
    if upper {
        seq!['0', '1', '2', '3', '4', '5', '6', '7', '8', '9', 'A', 'B', 'C', 'D', 'E', 'F'][d]
    } else {
        seq!['0', '1', '2', '3', '4', '5', '6', '7', '8', '9', 'a', 'b', 'c', 'd', 'e', 'f'][d]
    }
}

/// A value below 256 as two hexadecimal digits.
pub open spec fn hex2(value: int, upper: bool) -> Seq<char> {
    seq![hex_digit(value / 16, upper), hex_digit(value % 16, upper)]
}

/// A value below 4096 as three hexadecimal digits.
pub open spec fn hex3(value: int, upper: bool) -> Seq<char> {
    seq![hex_digit(value / 256, upper)] + hex2(value % 256, upper)
}

/// A value below 65536 as four hexadecimal digits.
pub open spec fn hex4(value: int, upper: bool) -> Seq<char> {
    hex2(value / 256, upper) + hex2(value % 256, upper)
}

/// A value below 256 in hexadecimal without leading zero.
pub open spec fn hex_short(value: int, upper: bool) -> Seq<char> {
    if value < 16 {
        seq![hex_digit(value, upper)]
    } else {
        hex2(value, upper)
    }
}

/// A value below 256 in decimal without leading zeros.
pub open spec fn decimal(value: int) -> Seq<char> {
    if value < 10 {
        seq![hex_digit(value, false)]
    } else if value < 100 {
        seq![hex_digit(value / 10, false), hex_digit(value % 10, false)]
    } else {
        seq![
            hex_digit(value / 100, false),
            hex_digit((value / 10) % 10, false),
            hex_digit(value % 10, false),
        ]
    }
}

fn hex_char(d: u8, upper: bool) -> (ch: char)
    requires
        d < 16,
    ensures
        ch == hex_digit(d as int, upper),
{
    match d {
        0 => '0',
        1 => '1',
        2 => '2',
        3 => '3',
        4 => '4',
        5 => '5',
        6 => '6',
        7 => '7',
        8 => '8',
        9 => '9',
        10 => if upper { 'A' } else { 'a' },
        11 => if upper { 'B' } else { 'b' },
        12 => if upper { 'C' } else { 'c' },
        13 => if upper { 'D' } else { 'd' },
        14 => if upper { 'E' } else { 'e' },
        _ => if upper { 'F' } else { 'f' },
    }
}

fn push_hex2(out: &mut String, value: u8, upper: bool)
    ensures
        final(out)@ == old(out)@ + hex2(value as int, upper),
{
    out.push(hex_char(value / 16, upper));
    out.push(hex_char(value % 16, upper));
    assert(out@ =~= old(out)@ + hex2(value as int, upper));
}

fn push_hex4(out: &mut String, value: u16, upper: bool)
    ensures
        final(out)@ == old(out)@ + hex4(value as int, upper),
{
    push_hex2(out, (value / 256) as u8, upper);
    push_hex2(out, (value % 256) as u8, upper);
    assert(out@ =~= old(out)@ + hex4(value as int, upper));
}

fn push_decimal(out: &mut String, value: u8)
    ensures
        final(out)@ == old(out)@ + decimal(value as int),
{
    if value >= 100 {
        out.push(hex_char(value / 100, false));
    }
    if value >= 10 {
        out.push(hex_char((value / 10) % 10, false));
    }
    out.push(hex_char(value % 10, false));
    assert(out@ =~= old(out)@ + decimal(value as int));
}

/// The first `count` byte pairs of the sixteen bytes at `base`, each pair as
/// four hexadecimal digits and a space.
pub open spec fn dump_pairs(mem: Seq<u8>, base: int, count: nat) -> Seq<char>
    decreases count,
{
    if count == 0 {
        Seq::empty()
    } else {
        let at = base + 2 * (count - 1);
        dump_pairs(mem, base, (count - 1) as nat) + hex2(mem[at] as int, false) + hex2(
            mem[at + 1] as int,
            false,
        ) + seq![' ']
    }
}

/// One line of the memory dump: the address of sixteen bytes in three
/// hexadecimal digits, a colon, three spaces, and the bytes in eight pairs.
pub open spec fn mem_line(mem: Seq<u8>, line: int) -> Seq<char> {
    hex3(16 * line, false) + ":   "@ + dump_pairs(mem, 16 * line, 8) + seq!['\n']
}

/// The first `count` lines of the memory dump.
pub open spec fn mem_lines(mem: Seq<u8>, count: nat) -> Seq<char>
    decreases count,
{
    if count == 0 {
        Seq::empty()
    } else {
        mem_lines(mem, (count - 1) as nat) + mem_line(mem, count - 1)
    }
}

/// The first `count` pixels of a display row, each in decimal.
pub open spec fn row_pixels(row: Seq<u8>, count: nat) -> Seq<char>
    decreases count,
{
    if count == 0 {
        Seq::empty()
    } else {
        row_pixels(row, (count - 1) as nat) + decimal(row[count - 1] as int)
    }
}

/// The first `count` rows of the display dump, one line each.
pub open spec fn display_lines(display: Seq<Seq<u8>>, count: nat) -> Seq<char>
    decreases count,
{
    if count == 0 {
        Seq::empty()
    } else {
        display_lines(display, (count - 1) as nat) + row_pixels(display[count - 1], 64)
            + seq!['\n']
    }
}

/// The first line of the register dump.
pub open spec fn reg_header(pc: u16, sp: u8, i: u16) -> Seq<char> {
    "pc: "@ + hex4(pc as int, true) + "\tsp "@ + hex_short(sp as int, true) + "\tI: "@ + hex4(
        i as int,
        true,
    ) + seq!['\n']
}

/// One register in the register dump: its name, its value, a tab.
pub open spec fn reg_cell(v: Seq<u8>, k: int) -> Seq<char> {
    seq!['V', hex_digit(k, true)] + ": "@ + hex2(v[k] as int, true) + seq!['\t']
}

/// The first `count` lines of four registers each.
pub open spec fn reg_lines(v: Seq<u8>, count: nat) -> Seq<char>
    decreases count,
{
    if count == 0 {
        Seq::empty()
    } else {
        let k = 4 * (count - 1);
        reg_lines(v, (count - 1) as nat) + reg_cell(v, k) + reg_cell(v, k + 1) + reg_cell(
            v,
            k + 2,
        ) + reg_cell(v, k + 3) + seq!['\n']
    }
}

/// The last line of the register dump: the word at the program counter, or
/// dashes where the program counter points beyond memory.
pub open spec fn reg_footer(m: Machine) -> Seq<char> {
    "Current Instruction: "@ + (match fetch_spec(m) {
        Ok(word) => hex4(word as int, false),
        Err(_) => "----"@,
    }) + seq!['\n']
}

impl CHIP8 {
    /// The whole memory as text, sixteen bytes to a line: 256 lines of the
    /// form `1f0:   0011 2233 4455 6677 8899 aabb ccdd eeff`.
    pub fn dump_mem(&self) -> (text: String)
        ensures
            text@ == mem_lines(self@.mem, 256),
    {
        let mut text = String::new();
        let mut line: usize = 0;
        while line < 256
            invariant
                line <= 256,
                text@ == mem_lines(self@.mem, line as nat),
            decreases 256 - line,
        {
            let base: usize = 16 * line;
            let mut row = String::new();
            row.push(hex_char((base / 256) as u8, false));
            push_hex2(&mut row, (base % 256) as u8, false);
            row.append(":   ");
            assert(row@ =~= hex3(16 * line, false) + ":   "@);
            let ghost prefix = row@;
            let mut pair: usize = 0;
            while pair < 8
                invariant
                    pair <= 8,
                    line < 256,
                    base == 16 * line,
                    row@ == prefix + dump_pairs(self@.mem, base as int, pair as nat),
                decreases 8 - pair,
            {
                push_hex2(&mut row, self.mem[base + 2 * pair], false);
                push_hex2(&mut row, self.mem[base + 2 * pair + 1], false);
                row.push(' ');
                pair += 1;
                assert(row@ =~= prefix + dump_pairs(self@.mem, base as int, pair as nat));
            }
            row.push('\n');
            assert(row@ =~= mem_line(self@.mem, line as int));
            text.append(row.as_str());
            line += 1;
        }
        text
    }

    /// The display as text: 32 lines of 64 pixels, each pixel as its number.
    pub fn dump_display(&self) -> (text: String)
        ensures
            text@ == display_lines(self@.display, 32),
    {
        let mut text = String::new();
        let mut r: usize = 0;
        while r < 32
            invariant
                r <= 32,
                text@ == display_lines(self@.display, r as nat),
            decreases 32 - r,
        {
            let mut row = String::new();
            let mut c: usize = 0;
            while c < 64
                invariant
                    c <= 64,
                    r < 32,
                    row@ == row_pixels(self@.display[r as int], c as nat),
                decreases 64 - c,
            {
                push_decimal(&mut row, self.display[r][c]);
                c += 1;
            }
            row.push('\n');
            text.append(row.as_str());
            r += 1;
            assert(text@ =~= display_lines(self@.display, r as nat));
        }
        text
    }

    fn push_reg_cell(&self, out: &mut String, k: u8)
        requires
            k < 16,
        ensures
            final(out)@ == old(out)@ + reg_cell(self@.v, k as int),
    {
        let mut cell = String::new();
        cell.push('V');
        cell.push(hex_char(k, true));
        cell.append(": ");
        push_hex2(&mut cell, self.V[k as usize], true);
        cell.push('\t');
        assert(cell@ =~= reg_cell(self@.v, k as int));
        out.append(cell.as_str());
    }

    /// The registers as text: program counter, stack pointer and address
    /// register on the first line, the sixteen registers on four lines, and
    /// the instruction word at the program counter on the last.
    pub fn dump_reg(&self) -> (text: String)
        ensures
            text@ == reg_header(self.pc, self.sp, self.I) + reg_lines(self@.v, 4) + reg_footer(
                self@,
            ),
    {
        let mut head = String::new();
        head.append("pc: ");
        push_hex4(&mut head, self.pc, true);
        head.append("\tsp ");
        if self.sp < 16 {
            head.push(hex_char(self.sp, true));
        } else {
            push_hex2(&mut head, self.sp, true);
        }
        head.append("\tI: ");
        push_hex4(&mut head, self.I, true);
        head.push('\n');
        assert(head@ =~= reg_header(self.pc, self.sp, self.I));

        let mut lines = String::new();
        let mut g: u8 = 0;
        while g < 4
            invariant
                g <= 4,
                lines@ == reg_lines(self@.v, g as nat),
            decreases 4 - g,
        {
            let mut row = String::new();
            self.push_reg_cell(&mut row, 4 * g);
            self.push_reg_cell(&mut row, 4 * g + 1);
            self.push_reg_cell(&mut row, 4 * g + 2);
            self.push_reg_cell(&mut row, 4 * g + 3);
            row.push('\n');
            lines.append(row.as_str());
            g += 1;
            assert(lines@ =~= reg_lines(self@.v, g as nat));
        }

        let mut foot = String::new();
        foot.append("Current Instruction: ");
        match self.fetch() {
            Ok(word) => {
                push_hex4(&mut foot, word, false);
            },
            Err(_) => {
                foot.append("----");
            },
        }
        foot.push('\n');
        assert(foot@ =~= reg_footer(self@));

        head.append(lines.as_str());
        head.append(foot.as_str());
        head
    }
}

} // verus!

