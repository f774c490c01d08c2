//! The 5x8 bitmap font: which characters can be drawn, and what each looks like.

use vstd::prelude::*;

verus! {

/// Number of pixel columns in one glyph.
pub const GLYPH_WIDTH: u8 = 5;

/// Number of glyphs in the font: space, `A` to `Z`, `0` to `9`.
pub const GLYPH_COUNT: usize = 37;

/// The font. Each glyph is five bytes, one per pixel column from left to right;
/// in each byte bit 0 is the top pixel.
pub const FONT_5X8: [[u8; 5]; 37] = [
    [0x00, 0x00, 0x00, 0x00, 0x00],  // space
    [0x7E, 0x11, 0x11, 0x11, 0x7E],  // A
    [0x7F, 0x49, 0x49, 0x49, 0x36],  // B
    [0x3E, 0x41, 0x41, 0x41, 0x22],  // C
    [0x7F, 0x41, 0x41, 0x22, 0x1C],  // D
    [0x7F, 0x49, 0x49, 0x49, 0x41],  // E
    [0x7F, 0x09, 0x09, 0x09, 0x01],  // F
    [0x3E, 0x41, 0x49, 0x49, 0x7A],  // G
    [0x7F, 0x08, 0x08, 0x08, 0x7F],  // H
    [0x00, 0x41, 0x7F, 0x41, 0x00],  // I
    [0x20, 0x40, 0x41, 0x3F, 0x01],  // J
    [0x7F, 0x08, 0x14, 0x22, 0x41],  // K
    [0x7F, 0x40, 0x40, 0x40, 0x40],  // L
    [0x7F, 0x02, 0x0C, 0x02, 0x7F],  // M
    [0x7F, 0x04, 0x08, 0x10, 0x7F],  // N
    [0x3E, 0x41, 0x41, 0x41, 0x3E],  // O
    [0x7F, 0x09, 0x09, 0x09, 0x06],  // P
    [0x3E, 0x41, 0x51, 0x21, 0x5E],  // Q
    [0x7F, 0x09, 0x19, 0x29, 0x46],  // R
    [0x46, 0x49, 0x49, 0x49, 0x31],  // S
    [0x01, 0x01, 0x7F, 0x01, 0x01],  // T
    [0x3F, 0x40, 0x40, 0x40, 0x3F],  // U
    [0x0F, 0x30, 0x40, 0x30, 0x0F],  // V
    [0x7F, 0x20, 0x18, 0x20, 0x7F],  // W
    [0x63, 0x14, 0x08, 0x14, 0x63],  // X
    [0x03, 0x04, 0x78, 0x04, 0x03],  // Y
    [0x61, 0x51, 0x49, 0x45, 0x43],  // Z
    [0x3E, 0x51, 0x49, 0x45, 0x3E],  // 0
    [0x00, 0x42, 0x7F, 0x40, 0x00],  // 1
    [0x62, 0x51, 0x49, 0x49, 0x46],  // 2
    [0x22, 0x41, 0x49, 0x49, 0x36],  // 3
    [0x18, 0x14, 0x12, 0x7F, 0x10],  // 4
    [0x27, 0x45, 0x45, 0x45, 0x39],  // 5
    [0x3E, 0x49, 0x49, 0x49, 0x32],  // 6
    [0x01, 0x71, 0x09, 0x05, 0x03],  // 7
    [0x36, 0x49, 0x49, 0x49, 0x36],  // 8
    [0x26, 0x49, 0x49, 0x49, 0x3E],  // 9
];

/// The place of a character in the font, if it has one: 0 for the space,
/// 1 to 26 for the letters of either case, 27 to 36 for the digits.
pub open spec fn glyph_index(c: char) -> Option<int> {
    if '0' <= c <= '9' {
        Some(27 + (c as int - '0' as int))
    } else if 'A' <= c <= 'Z' {
        Some(1 + (c as int - 'A' as int))
    } else if 'a' <= c <= 'z' {
        Some(1 + (c as int - 'a' as int))
    } else if c == ' ' {
        Some(0)
    } else {
        None
    }
}

/// Whether the font has a glyph for the character.
pub open spec fn drawable(c: char) -> bool {
    glyph_index(c) is Some
}

/// The five columns of the glyph at `index`.
pub open spec fn glyph_columns(index: int) -> Seq<u8>
    recommends
        0 <= index < GLYPH_COUNT,
{
    FONT_5X8[index]@
}

/// Finds the place of a character in the font.
pub fn classify(c: char) -> (r: Option<usize>)
    ensures
        match r {
            Some(i) => glyph_index(c) == Some(i as int) && i < GLYPH_COUNT,
            None => glyph_index(c) is None,
        },
{
    if '0' <= c && c <= '9' {
        Some((c as u32 - '0' as u32) as usize + 27)
    } else if 'A' <= c && c <= 'Z' {
        Some((c as u32 - 'A' as u32) as usize + 1)
    } else if 'a' <= c && c <= 'z' {
        Some((c as u32 - 'a' as u32) as usize + 1)
    } else if c == ' ' {
        Some(0)
    } else {
        None
    }
}

/// Reads one glyph out of the font.
pub fn glyph(index: usize) -> (g: [u8; 5])
    requires
        index < GLYPH_COUNT,
    ensures
        g@ == glyph_columns(index as int),
{
    FONT_5X8[index]
}

/// The place of every letter and digit in the font follows from its distance
/// to the first of its kind: the letters at 1 to 26, the same for both cases,
/// the digits at 27 to 36. The space is at 0. No other character has a place.
pub proof fn lemma_glyph_index(c: char)
    ensures
        'A' <= c <= 'Z' ==> glyph_index(c) == Some(c as int - 'A' as int + 1),
        'a' <= c <= 'z' ==> glyph_index(c) == Some(c as int - 'a' as int + 1),
        '0' <= c <= '9' ==> glyph_index(c) == Some(c as int - '0' as int + 27),
        c == ' ' ==> glyph_index(c) == Some(0int),
        !('A' <= c <= 'Z') && !('a' <= c <= 'z') && !('0' <= c <= '9') && c != ' '
            ==> glyph_index(c) is None,
        glyph_index(c) matches Some(index) ==> 0 <= index < GLYPH_COUNT,
{
}

/// A lowercase letter is drawn as its uppercase letter.
pub proof fn lemma_case_is_ignored(upper: char, lower: char)
    requires
        'A' <= upper <= 'Z',
        lower as int - 'a' as int == upper as int - 'A' as int,
    ensures
        glyph_index(lower) == glyph_index(upper),
{
}

/// The glyph of the space has no pixel set.
pub proof fn lemma_space_is_blank()
    ensures
        glyph_index(' ') == Some(0int),
        glyph_columns(0) == seq![0u8, 0u8, 0u8, 0u8, 0u8],
{
}

} // verus!
