//! The 5×5 bitmap font.
//!
//! The font covers the upper-case letters `A B C D E F G I J L M N O P R S T`,
//! the digits, the space, the dash and the period. Every other character is
//! drawn as a blank cell.

use vstd::prelude::*;

verus! {

/// Number of rows, and of columns, in a glyph.
pub const GLYPH_SIZE: usize = 5;

/// The glyph without ink, shown for the space and for every character that
/// the font lacks.
pub const BLANK: u32 = 0;

/// A 5×5 matrix of ink cells.
///
/// The cells are packed row by row into the low 25 bits of `bits`, the top
/// left cell in bit 24 and the bottom right cell in bit 0, so that a binary
/// literal written in five groups of five digits shows the rows from top to
/// bottom.
#[derive(Clone, Copy, Debug, PartialEq, Eq, Structural)]
pub struct Glyph {
    pub bits: u32,
}

impl Glyph {
    /// Whether the cell in row `row`, column `col` carries ink. Cells outside
    /// the matrix carry none.
    pub open spec fn ink(self, row: int, col: int) -> bool {
        &&& 0 <= row < 5
        &&& 0 <= col < 5
        &&& (self.bits >> ((24 - (row * 5 + col)) as u32)) & 1 == 1
    }

    /// Executable form of [`Glyph::ink`].
    pub fn has_ink(&self, row: usize, col: usize) -> (b: bool)
        ensures
            b == self.ink(row as int, col as int),
    {
        if row >= 5 || col >= 5 {
            return false;
        }
        let shift: u32 = (24 - (row * 5 + col)) as u32;
        (self.bits >> shift) & 1 == 1
    }
}

/// Whether the font has a glyph of its own for `c`.
pub open spec fn is_supported(c: char) -> bool {
    ||| c == ' '
    ||| c == '-'
    ||| c == '.'
    ||| '0' <= c <= '9'
    ||| c == 'A'
    ||| c == 'B'
    ||| c == 'C'
    ||| c == 'D'
    ||| c == 'E'
    ||| c == 'F'
    ||| c == 'G'
    ||| c == 'I'
    ||| c == 'J'
    ||| c == 'L'
    ||| c == 'M'
    ||| c == 'N'
    ||| c == 'O'
    ||| c == 'P'
    ||| c == 'R'
    ||| c == 'S'
    ||| c == 'T'
}

/// The font table: the packed cells of the glyph for `c`.
pub open spec fn glyph_bits(c: char) -> u32 {
    match c {
        'A' => 0b01110_10001_11111_10001_10001,
        'B' => 0b11110_10001_11110_10001_11110,
        'C' => 0b01110_10000_10000_10000_01110,
        'D' => 0b11110_10001_10001_10001_11110,
        'E' => 0b11111_10000_11110_10000_11111,
        'F' => 0b11111_10000_11110_10000_10000,
        'G' => 0b01110_10000_10110_10001_01110,
        'I' => 0b01110_00100_00100_00100_01110,
        'J' => 0b00110_00010_00010_10010_01100,
        'L' => 0b10000_10000_10000_10000_11111,
        'M' => 0b10001_11011_10101_10001_10001,
        'N' => 0b10001_11001_10101_10011_10001,
        'O' => 0b01110_10001_10001_10001_01110,
        'P' => 0b11110_10001_11110_10000_10000,
        'R' => 0b11110_10001_11110_10100_10010,
        'S' => 0b01110_10000_01110_00001_01110,
        'T' => 0b11111_00100_00100_00100_00100,
        '0' => 0b01110_10001_10001_10001_01110,
        '1' => 0b00100_01100_00100_00100_01110,
        '2' => 0b01110_10001_00110_01000_11111,
        '3' => 0b01110_00001_01110_00001_01110,
        '4' => 0b10001_10001_11111_00001_00001,
        '5' => 0b11111_10000_11110_00001_11110,
        '6' => 0b01110_10000_11110_10001_01110,
        '7' => 0b11111_00001_00010_00100_01000,
        '8' => 0b01110_10001_01110_10001_01110,
        '9' => 0b01110_10001_01111_00001_01110,
        '-' => 0b00000_00000_11111_00000_00000,
        '.' => 0b00000_00000_00000_00000_00100,
        _ => BLANK,
    }
}

/// The glyph that stands for `c`.
pub open spec fn glyph_of(c: char) -> Glyph {
    Glyph { bits: glyph_bits(c) }
}

/// Looks `c` up in the font. A character that the font lacks, a lower-case
/// letter among them, gets the blank glyph of the space.
pub fn glyph_for(c: char) -> (g: Glyph)
    ensures
        g == glyph_of(c),
        !is_supported(c) ==> g.bits == BLANK,
{
    let bits: u32 = match c {
        'A' => 0b01110_10001_11111_10001_10001,
        'B' => 0b11110_10001_11110_10001_11110,
        'C' => 0b01110_10000_10000_10000_01110,
        'D' => 0b11110_10001_10001_10001_11110,
        'E' => 0b11111_10000_11110_10000_11111,
        'F' => 0b11111_10000_11110_10000_10000,
        'G' => 0b01110_10000_10110_10001_01110,
        'I' => 0b01110_00100_00100_00100_01110,
        'J' => 0b00110_00010_00010_10010_01100,
        'L' => 0b10000_10000_10000_10000_11111,
        'M' => 0b10001_11011_10101_10001_10001,
        'N' => 0b10001_11001_10101_10011_10001,
        'O' => 0b01110_10001_10001_10001_01110,
        'P' => 0b11110_10001_11110_10000_10000,
        'R' => 0b11110_10001_11110_10100_10010,
        'S' => 0b01110_10000_01110_00001_01110,
        'T' => 0b11111_00100_00100_00100_00100,
        '0' => 0b01110_10001_10001_10001_01110,
        '1' => 0b00100_01100_00100_00100_01110,
        '2' => 0b01110_10001_00110_01000_11111,
        '3' => 0b01110_00001_01110_00001_01110,
        '4' => 0b10001_10001_11111_00001_00001,
        '5' => 0b11111_10000_11110_00001_11110,
        '6' => 0b01110_10000_11110_10001_01110,
        '7' => 0b11111_00001_00010_00100_01000,
        '8' => 0b01110_10001_01110_10001_01110,
        '9' => 0b01110_10001_01111_00001_01110,
        '-' => 0b00000_00000_11111_00000_00000,
        '.' => 0b00000_00000_00000_00000_00100,
        _ => BLANK,
    };
    Glyph { bits }
}

/// The blank glyph carries no ink in any cell.
pub proof fn lemma_blank_has_no_ink(row: int, col: int)
    ensures
        !(Glyph { bits: BLANK }).ink(row, col),
{
    if 0 <= row < 5 && 0 <= col < 5 {
        let shift = (24 - (row * 5 + col)) as u32;
        assert((0u32 >> shift) & 1 == 0) by (bit_vector);
    }
}

/// A character that the font lacks is drawn exactly as a space is: no cell
/// of its glyph carries ink.
pub proof fn lemma_unsupported_is_blank(c: char, row: int, col: int)
    requires
        !is_supported(c),
    ensures
        glyph_of(c) == glyph_of(' '),
        !glyph_of(c).ink(row, col),
{
    lemma_blank_has_no_ink(row, col);
}

} // verus!
