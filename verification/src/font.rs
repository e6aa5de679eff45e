//! The 5x8 font of the status display.

use vstd::prelude::*;

verus! {

/// The five columns of the glyph for an ASCII character, top pixel in the low bit. A
/// character that the font lacks is blank.
pub open spec fn glyph_of(ch: u8) -> Seq<u8> {
    match ch {
        // space
        0x20 => seq![0x00u8, 0x00, 0x00, 0x00, 0x00],
        // -
        0x2D => seq![0x08u8, 0x08, 0x08, 0x08, 0x08],
        // 0
        0x30 => seq![0x3Eu8, 0x51, 0x49, 0x45, 0x3E],
        // 1
        0x31 => seq![0x00u8, 0x42, 0x7F, 0x40, 0x00],
        // 2
        0x32 => seq![0x62u8, 0x51, 0x49, 0x49, 0x46],
        // 3
        0x33 => seq![0x22u8, 0x49, 0x49, 0x49, 0x36],
        // 4
        0x34 => seq![0x18u8, 0x14, 0x12, 0x7F, 0x10],
        // 5
        0x35 => seq![0x2Fu8, 0x49, 0x49, 0x49, 0x31],
        // 6
        0x36 => seq![0x3Eu8, 0x49, 0x49, 0x49, 0x32],
        // 7
        0x37 => seq![0x01u8, 0x71, 0x09, 0x05, 0x03],
        // 8
        0x38 => seq![0x36u8, 0x49, 0x49, 0x49, 0x36],
        // 9
        0x39 => seq![0x26u8, 0x49, 0x49, 0x49, 0x3E],
        // A
        0x41 => seq![0x7Eu8, 0x11, 0x11, 0x11, 0x7E],
        // B
        0x42 => seq![0x7Fu8, 0x49, 0x49, 0x49, 0x36],
        // C
        0x43 => seq![0x3Eu8, 0x41, 0x41, 0x41, 0x22],
        // D
        0x44 => seq![0x7Fu8, 0x41, 0x41, 0x22, 0x1C],
        // E
        0x45 => seq![0x7Fu8, 0x49, 0x49, 0x49, 0x41],
        // G
        0x47 => seq![0x3Eu8, 0x41, 0x49, 0x49, 0x7A],
        // H
        0x48 => seq![0x7Fu8, 0x08, 0x08, 0x08, 0x7F],
        // I
        0x49 => seq![0x00u8, 0x41, 0x7F, 0x41, 0x00],
        // K
        0x4B => seq![0x7Fu8, 0x08, 0x14, 0x22, 0x41],
        // L
        0x4C => seq![0x7Fu8, 0x40, 0x40, 0x40, 0x40],
        // O
        0x4F => seq![0x3Eu8, 0x41, 0x41, 0x41, 0x3E],
        // P
        0x50 => seq![0x7Fu8, 0x09, 0x09, 0x09, 0x06],
        // R
        0x52 => seq![0x7Fu8, 0x09, 0x19, 0x29, 0x46],
        // S
        0x53 => seq![0x26u8, 0x49, 0x49, 0x49, 0x32],
        // T
        0x54 => seq![0x01u8, 0x01, 0x7F, 0x01, 0x01],
        // U
        0x55 => seq![0x3Fu8, 0x40, 0x40, 0x40, 0x3F],
        // W
        0x57 => seq![0x3Fu8, 0x40, 0x38, 0x40, 0x3F],
        // Y
        0x59 => seq![0x07u8, 0x08, 0x70, 0x08, 0x07],
        _ => seq![0x00u8, 0x00, 0x00, 0x00, 0x00],
    }
}

/// The glyph for an ASCII character; blank if the font lacks it.
pub fn glyph(ch: u8) -> (columns: [u8; 5])
    ensures
        columns@ == glyph_of(ch),
{
    match ch {
        // space
        0x20 => [0x00, 0x00, 0x00, 0x00, 0x00],
        // -
        0x2D => [0x08, 0x08, 0x08, 0x08, 0x08],
        // 0
        0x30 => [0x3E, 0x51, 0x49, 0x45, 0x3E],
        // 1
        0x31 => [0x00, 0x42, 0x7F, 0x40, 0x00],
        // 2
        0x32 => [0x62, 0x51, 0x49, 0x49, 0x46],
        // 3
        0x33 => [0x22, 0x49, 0x49, 0x49, 0x36],
        // 4
        0x34 => [0x18, 0x14, 0x12, 0x7F, 0x10],
        // 5
        0x35 => [0x2F, 0x49, 0x49, 0x49, 0x31],
        // 6
        0x36 => [0x3E, 0x49, 0x49, 0x49, 0x32],
        // 7
        0x37 => [0x01, 0x71, 0x09, 0x05, 0x03],
        // 8
        0x38 => [0x36, 0x49, 0x49, 0x49, 0x36],
        // 9
        0x39 => [0x26, 0x49, 0x49, 0x49, 0x3E],
        // A
        0x41 => [0x7E, 0x11, 0x11, 0x11, 0x7E],
        // B
        0x42 => [0x7F, 0x49, 0x49, 0x49, 0x36],
        // C
        0x43 => [0x3E, 0x41, 0x41, 0x41, 0x22],
        // D
        0x44 => [0x7F, 0x41, 0x41, 0x22, 0x1C],
        // E
        0x45 => [0x7F, 0x49, 0x49, 0x49, 0x41],
        // G
        0x47 => [0x3E, 0x41, 0x49, 0x49, 0x7A],
        // H
        0x48 => [0x7F, 0x08, 0x08, 0x08, 0x7F],
        // I
        0x49 => [0x00, 0x41, 0x7F, 0x41, 0x00],
        // K
        0x4B => [0x7F, 0x08, 0x14, 0x22, 0x41],
        // L
        0x4C => [0x7F, 0x40, 0x40, 0x40, 0x40],
        // O
        0x4F => [0x3E, 0x41, 0x41, 0x41, 0x3E],
        // P
        0x50 => [0x7F, 0x09, 0x09, 0x09, 0x06],
        // R
        0x52 => [0x7F, 0x09, 0x19, 0x29, 0x46],
        // S
        0x53 => [0x26, 0x49, 0x49, 0x49, 0x32],
        // T
        0x54 => [0x01, 0x01, 0x7F, 0x01, 0x01],
        // U
        0x55 => [0x3F, 0x40, 0x40, 0x40, 0x3F],
        // W
        0x57 => [0x3F, 0x40, 0x38, 0x40, 0x3F],
        // Y
        0x59 => [0x07, 0x08, 0x70, 0x08, 0x07],
        _ => [0x00, 0x00, 0x00, 0x00, 0x00],
    }
}

/// The characters of the font as one sees them: seven rows from top to bottom, the left pixel
/// in the high bit. The eighth row is always empty.
pub open spec fn picture(ch: u8) -> Seq<u8> {
    match ch {
        // -
        0x2D => seq![
            0b00000u8,
            0b00000,
            0b00000,
            0b11111,
            0b00000,
            0b00000,
            0b00000,
        ],
        // 0
        0x30 => seq![
            0b01110u8,
            0b10001,
            0b10011,
            0b10101,
            0b11001,
            0b10001,
            0b01110,
        ],
        // 1
        0x31 => seq![
            0b00100u8,
            0b01100,
            0b00100,
            0b00100,
            0b00100,
            0b00100,
            0b01110,
        ],
        // 2
        0x32 => seq![
            0b01110u8,
            0b10001,
            0b00001,
            0b00110,
            0b01000,
            0b10000,
            0b11111,
        ],
        // 3
        0x33 => seq![
            0b01110u8,
            0b10001,
            0b00001,
            0b01110,
            0b00001,
            0b10001,
            0b01110,
        ],
        // 4
        0x34 => seq![
            0b00010u8,
            0b00110,
            0b01010,
            0b10010,
            0b11111,
            0b00010,
            0b00010,
        ],
        // 5
        0x35 => seq![
            0b11111u8,
            0b10000,
            0b10000,
            0b11110,
            0b00001,
            0b10001,
            0b01110,
        ],
        // 6
        0x36 => seq![
            0b01110u8,
            0b10001,
            0b10000,
            0b11110,
            0b10001,
            0b10001,
            0b01110,
        ],
        // 7
        0x37 => seq![
            0b11111u8,
            0b00001,
            0b00010,
            0b00100,
            0b01000,
            0b01000,
            0b01000,
        ],
        // 8
        0x38 => seq![
            0b01110u8,
            0b10001,
            0b10001,
            0b01110,
            0b10001,
            0b10001,
            0b01110,
        ],
        // 9
        0x39 => seq![
            0b01110u8,
            0b10001,
            0b10001,
            0b01111,
            0b00001,
            0b10001,
            0b01110,
        ],
        // A
        0x41 => seq![
            0b01110u8,
            0b10001,
            0b10001,
            0b10001,
            0b11111,
            0b10001,
            0b10001,
        ],
        // B
        0x42 => seq![
            0b11110u8,
            0b10001,
            0b10001,
            0b11110,
            0b10001,
            0b10001,
            0b11110,
        ],
        // C
        0x43 => seq![
            0b01110u8,
            0b10001,
            0b10000,
            0b10000,
            0b10000,
            0b10001,
            0b01110,
        ],
        // D
        0x44 => seq![
            0b11100u8,
            0b10010,
            0b10001,
            0b10001,
            0b10001,
            0b10010,
            0b11100,
        ],
        // E
        0x45 => seq![
            0b11111u8,
            0b10000,
            0b10000,
            0b11110,
            0b10000,
            0b10000,
            0b11111,
        ],
        // G
        0x47 => seq![
            0b01110u8,
            0b10001,
            0b10000,
            0b10111,
            0b10001,
            0b10001,
            0b01111,
        ],
        // H
        0x48 => seq![
            0b10001u8,
            0b10001,
            0b10001,
            0b11111,
            0b10001,
            0b10001,
            0b10001,
        ],
        // I
        0x49 => seq![
            0b01110u8,
            0b00100,
            0b00100,
            0b00100,
            0b00100,
            0b00100,
            0b01110,
        ],
        // K
        0x4B => seq![
            0b10001u8,
            0b10010,
            0b10100,
            0b11000,
            0b10100,
            0b10010,
            0b10001,
        ],
        // L
        0x4C => seq![
            0b10000u8,
            0b10000,
            0b10000,
            0b10000,
            0b10000,
            0b10000,
            0b11111,
        ],
        // O
        0x4F => seq![
            0b01110u8,
            0b10001,
            0b10001,
            0b10001,
            0b10001,
            0b10001,
            0b01110,
        ],
        // P
        0x50 => seq![
            0b11110u8,
            0b10001,
            0b10001,
            0b11110,
            0b10000,
            0b10000,
            0b10000,
        ],
        // R
        0x52 => seq![
            0b11110u8,
            0b10001,
            0b10001,
            0b11110,
            0b10100,
            0b10010,
            0b10001,
        ],
        // S
        0x53 => seq![
            0b01110u8,
            0b10001,
            0b10000,
            0b01110,
            0b00001,
            0b10001,
            0b01110,
        ],
        // T
        0x54 => seq![
            0b11111u8,
            0b00100,
            0b00100,
            0b00100,
            0b00100,
            0b00100,
            0b00100,
        ],
        // U
        0x55 => seq![
            0b10001u8,
            0b10001,
            0b10001,
            0b10001,
            0b10001,
            0b10001,
            0b01110,
        ],
        // W
        0x57 => seq![
            0b10001u8,
            0b10001,
            0b10001,
            0b10101,
            0b10101,
            0b10101,
            0b01010,
        ],
        // Y
        0x59 => seq![
            0b10001u8,
            0b10001,
            0b10001,
            0b01010,
            0b00100,
            0b00100,
            0b00100,
        ],
        _ => seq![0u8, 0, 0, 0, 0, 0, 0],
    }
}

/// The pixel in column `x` of a row: 1 or 0.
#[verifier::opaque]
pub open spec fn pixel(row: u8, x: int) -> int {
    if x == 0 {
        row as int / 16 % 2
    } else if x == 1 {
        row as int / 8 % 2
    } else if x == 2 {
        row as int / 4 % 2
    } else if x == 3 {
        row as int / 2 % 2
    } else {
        row as int % 2
    }
}

/// Column `x` of a picture, top pixel in the low bit.
spec fn column(rows: Seq<u8>, x: int) -> int {
    pixel(rows[0], x) + 2 * pixel(rows[1], x) + 4 * pixel(rows[2], x) + 8 * pixel(rows[3], x) + 16
        * pixel(rows[4], x) + 32 * pixel(rows[5], x) + 64 * pixel(rows[6], x)
}

#[verifier::opaque]
spec fn is_picture(ch: u8, x: int) -> bool {
    glyph_of(ch).len() == 5 && glyph_of(ch)[x] == column(picture(ch), x)
}

proof fn lemma_glyphs_digits_and_dash(x: int)
    requires
        0 <= x < 5,
    ensures
        is_picture(0x2D, x),
        is_picture(0x30, x),
        is_picture(0x31, x),
        is_picture(0x32, x),
        is_picture(0x33, x),
        is_picture(0x34, x),
        is_picture(0x35, x),
        is_picture(0x36, x),
        is_picture(0x37, x),
        is_picture(0x38, x),
        is_picture(0x39, x),
{
    reveal(pixel);
    reveal(is_picture);
}

proof fn lemma_glyphs_a_to_h(x: int)
    requires
        0 <= x < 5,
    ensures
        is_picture(0x41, x),
        is_picture(0x42, x),
        is_picture(0x43, x),
        is_picture(0x44, x),
        is_picture(0x45, x),
        is_picture(0x47, x),
        is_picture(0x48, x),
{
    reveal(pixel);
    reveal(is_picture);
}

proof fn lemma_glyphs_i_to_r(x: int)
    requires
        0 <= x < 5,
    ensures
        is_picture(0x49, x),
        is_picture(0x4B, x),
        is_picture(0x4C, x),
        is_picture(0x4F, x),
        is_picture(0x50, x),
        is_picture(0x52, x),
{
    reveal(pixel);
    reveal(is_picture);
}

proof fn lemma_glyphs_s_to_y(x: int)
    requires
        0 <= x < 5,
    ensures
        is_picture(0x53, x),
        is_picture(0x54, x),
        is_picture(0x55, x),
        is_picture(0x57, x),
        is_picture(0x59, x),
{
    reveal(pixel);
    reveal(is_picture);
}

proof fn lemma_blank(ch: u8, x: int)
    requires
        0 <= x < 5,
        ch != 0x2D,
        ch != 0x30,
        ch != 0x31,
        ch != 0x32,
        ch != 0x33,
        ch != 0x34,
        ch != 0x35,
        ch != 0x36,
        ch != 0x37,
        ch != 0x38,
        ch != 0x39,
        ch != 0x41,
        ch != 0x42,
        ch != 0x43,
        ch != 0x44,
        ch != 0x45,
        ch != 0x47,
        ch != 0x48,
        ch != 0x49,
        ch != 0x4B,
        ch != 0x4C,
        ch != 0x4F,
        ch != 0x50,
        ch != 0x52,
        ch != 0x53,
        ch != 0x54,
        ch != 0x55,
        ch != 0x57,
        ch != 0x59,
    ensures
        is_picture(ch, x),
{
    reveal(pixel);
    reveal(is_picture);
}

proof fn lemma_glyph(ch: u8, x: int)
    requires
        0 <= x < 5,
    ensures
        is_picture(ch, x),
{
    match ch {
        0x2D | 0x30 | 0x31 | 0x32 | 0x33 | 0x34 | 0x35 | 0x36 | 0x37 | 0x38 | 0x39 => lemma_glyphs_digits_and_dash(x),
        0x41 | 0x42 | 0x43 | 0x44 | 0x45 | 0x47 | 0x48 => lemma_glyphs_a_to_h(x),
        0x49 | 0x4B | 0x4C | 0x4F | 0x50 | 0x52 => lemma_glyphs_i_to_r(x),
        0x53 | 0x54 | 0x55 | 0x57 | 0x59 => lemma_glyphs_s_to_y(x),
        _ => lemma_blank(ch, x),
    }
}

/// Column by column a glyph is the picture of its character, and a character without a
/// picture is blank.
pub proof fn law_glyphs_are_their_pictures(ch: u8, x: int)
    requires
        0 <= x < 5,
    ensures
        glyph_of(ch).len() == 5,
        glyph_of(ch)[x] == pixel(picture(ch)[0], x) + 2 * pixel(picture(ch)[1], x) + 4 * pixel(
            picture(ch)[2],
            x,
        ) + 8 * pixel(picture(ch)[3], x) + 16 * pixel(picture(ch)[4], x) + 32 * pixel(
            picture(ch)[5],
            x,
        ) + 64 * pixel(picture(ch)[6], x),
{
    lemma_glyph(ch, x);
    reveal(is_picture);
}

} // verus!
