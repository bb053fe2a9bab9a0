//! The built-in hexadecimal font: sixteen glyphs of five bytes each.

use vstd::prelude::*;

verus! {

/// Address of the first font byte in memory.
pub const FONT_BASE: u16 = 0x050;

/// Bytes per glyph.
pub const GLYPH_BYTES: u16 = 5;

/// The glyphs for the digits 0 to F, five rows each, most significant bit
/// leftmost.
pub const FONT: [u8; 80] = [
    0xF0, 0x90, 0x90, 0x90, 0xF0,
    0x20, 0x60, 0x20, 0x20, 0x70,
    0xF0, 0x10, 0xF0, 0x80, 0xF0,
    0xF0, 0x10, 0xF0, 0x10, 0xF0,
    0x90, 0x90, 0xF0, 0x10, 0x10,
    0xF0, 0x80, 0xF0, 0x10, 0xF0,
    0xF0, 0x80, 0xF0, 0x90, 0xF0,
    0xF0, 0x10, 0x20, 0x40, 0x40,
    0xF0, 0x90, 0xF0, 0x90, 0xF0,
    0xF0, 0x90, 0xF0, 0x10, 0xF0,
    0xF0, 0x90, 0xF0, 0x90, 0x90,
    0xE0, 0x90, 0xE0, 0x90, 0xE0,
    0xF0, 0x80, 0x80, 0x80, 0xF0,
    0xE0, 0x90, 0x90, 0x90, 0xE0,
    0xF0, 0x80, 0xF0, 0x80, 0xF0,
    0xF0, 0x80, 0xF0, 0x80, 0x80,
];

/// Where the glyph of a digit starts in memory.
pub open spec fn glyph_address(digit: int) -> int {
    FONT_BASE as int + digit * GLYPH_BYTES as int
}

} // verus!
