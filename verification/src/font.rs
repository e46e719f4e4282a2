//! The built-in bitmap font: glyphs of five columns and seven rows for the
//! printable characters that the shell draws without a font file.

use vstd::prelude::*;

verus! {

/// Columns of a glyph.
pub const GLYPH_WIDTH: usize = 5;

/// Rows of a glyph.
pub const GLYPH_HEIGHT: usize = 7;

/// The rows of the glyph for a character, top row first, each row with its
/// leftmost column in bit 4; empty for a character that has no glyph.
/// Letters have one glyph for both cases.
pub open spec fn glyph_rows(c: char) -> Seq<u8> {
    if c == ' ' {
        seq![0b00000u8, 0b00000u8, 0b00000u8, 0b00000u8, 0b00000u8, 0b00000u8, 0b00000u8]
    } else if c == '!' {
        seq![0b00100u8, 0b00100u8, 0b00100u8, 0b00100u8, 0b00100u8, 0b00000u8, 0b00100u8]
    } else if c == '"' {
        seq![0b01010u8, 0b01010u8, 0b00000u8, 0b00000u8, 0b00000u8, 0b00000u8, 0b00000u8]
    } else if c == '#' {
        seq![0b01010u8, 0b11111u8, 0b01010u8, 0b01010u8, 0b11111u8, 0b01010u8, 0b00000u8]
    } else if c == '$' {
        seq![0b00100u8, 0b01111u8, 0b10100u8, 0b01110u8, 0b00101u8, 0b11110u8, 0b00100u8]
    } else if c == '%' {
        seq![0b11001u8, 0b11010u8, 0b00100u8, 0b00100u8, 0b01011u8, 0b10011u8, 0b00000u8]
    } else if c == '&' {
        seq![0b01100u8, 0b10010u8, 0b01100u8, 0b10101u8, 0b10010u8, 0b01101u8, 0b00000u8]
    } else if c == '\'' {
        seq![0b00100u8, 0b00100u8, 0b00000u8, 0b00000u8, 0b00000u8, 0b00000u8, 0b00000u8]
    } else if c == '(' {
        seq![0b00010u8, 0b00100u8, 0b01000u8, 0b01000u8, 0b01000u8, 0b00100u8, 0b00010u8]
    } else if c == ')' {
        seq![0b01000u8, 0b00100u8, 0b00010u8, 0b00010u8, 0b00010u8, 0b00100u8, 0b01000u8]
    } else if c == '*' {
        seq![0b00000u8, 0b00100u8, 0b10101u8, 0b01110u8, 0b10101u8, 0b00100u8, 0b00000u8]
    } else if c == '+' {
        seq![0b00000u8, 0b00100u8, 0b00100u8, 0b11111u8, 0b00100u8, 0b00100u8, 0b00000u8]
    } else if c == ',' {
        seq![0b00000u8, 0b00000u8, 0b00000u8, 0b00000u8, 0b00000u8, 0b00100u8, 0b01000u8]
    } else if c == '-' {
        seq![0b00000u8, 0b00000u8, 0b00000u8, 0b11111u8, 0b00000u8, 0b00000u8, 0b00000u8]
    } else if c == '.' {
        seq![0b00000u8, 0b00000u8, 0b00000u8, 0b00000u8, 0b00000u8, 0b00000u8, 0b00100u8]
    } else if c == '/' {
        seq![0b00001u8, 0b00010u8, 0b00100u8, 0b00100u8, 0b01000u8, 0b10000u8, 0b00000u8]
    } else if c == '0' {
        seq![0b01110u8, 0b10001u8, 0b10011u8, 0b10101u8, 0b11001u8, 0b10001u8, 0b01110u8]
    } else if c == '1' {
        seq![0b00100u8, 0b01100u8, 0b00100u8, 0b00100u8, 0b00100u8, 0b00100u8, 0b01110u8]
    } else if c == '2' {
        seq![0b01110u8, 0b10001u8, 0b00001u8, 0b00110u8, 0b01000u8, 0b10000u8, 0b11111u8]
    } else if c == '3' {
        seq![0b01110u8, 0b10001u8, 0b00001u8, 0b00110u8, 0b00001u8, 0b10001u8, 0b01110u8]
    } else if c == '4' {
        seq![0b00010u8, 0b00110u8, 0b01010u8, 0b10010u8, 0b11111u8, 0b00010u8, 0b00010u8]
    } else if c == '5' {
        seq![0b11111u8, 0b10000u8, 0b11110u8, 0b00001u8, 0b00001u8, 0b10001u8, 0b01110u8]
    } else if c == '6' {
        seq![0b01110u8, 0b10000u8, 0b10000u8, 0b11110u8, 0b10001u8, 0b10001u8, 0b01110u8]
    } else if c == '7' {
        seq![0b11111u8, 0b00001u8, 0b00010u8, 0b00100u8, 0b01000u8, 0b01000u8, 0b01000u8]
    } else if c == '8' {
        seq![0b01110u8, 0b10001u8, 0b10001u8, 0b01110u8, 0b10001u8, 0b10001u8, 0b01110u8]
    } else if c == '9' {
        seq![0b01110u8, 0b10001u8, 0b10001u8, 0b01111u8, 0b00001u8, 0b00001u8, 0b01110u8]
    } else if c == ':' {
        seq![0b00000u8, 0b00000u8, 0b00100u8, 0b00000u8, 0b00000u8, 0b00100u8, 0b00000u8]
    } else if c == ';' {
        seq![0b00000u8, 0b00000u8, 0b00100u8, 0b00000u8, 0b00000u8, 0b00100u8, 0b01000u8]
    } else if c == '<' {
        seq![0b00010u8, 0b00100u8, 0b01000u8, 0b10000u8, 0b01000u8, 0b00100u8, 0b00010u8]
    } else if c == '=' {
        seq![0b00000u8, 0b00000u8, 0b11111u8, 0b00000u8, 0b11111u8, 0b00000u8, 0b00000u8]
    } else if c == '>' {
        seq![0b10000u8, 0b01000u8, 0b00100u8, 0b00010u8, 0b00100u8, 0b01000u8, 0b10000u8]
    } else if c == '?' {
        seq![0b01110u8, 0b10001u8, 0b00001u8, 0b00110u8, 0b00100u8, 0b00000u8, 0b00100u8]
    } else if c == '@' {
        seq![0b01110u8, 0b10001u8, 0b10111u8, 0b10101u8, 0b10110u8, 0b10000u8, 0b01110u8]
    } else if c == 'A' || c == 'a' {
        seq![0b01110u8, 0b10001u8, 0b10001u8, 0b11111u8, 0b10001u8, 0b10001u8, 0b10001u8]
    } else if c == 'B' || c == 'b' {
        seq![0b11110u8, 0b10001u8, 0b10001u8, 0b11110u8, 0b10001u8, 0b10001u8, 0b11110u8]
    } else if c == 'C' || c == 'c' {
        seq![0b01110u8, 0b10001u8, 0b10000u8, 0b10000u8, 0b10000u8, 0b10001u8, 0b01110u8]
    } else if c == 'D' || c == 'd' {
        seq![0b11110u8, 0b10001u8, 0b10001u8, 0b10001u8, 0b10001u8, 0b10001u8, 0b11110u8]
    } else if c == 'E' || c == 'e' {
        seq![0b11111u8, 0b10000u8, 0b10000u8, 0b11110u8, 0b10000u8, 0b10000u8, 0b11111u8]
    } else if c == 'F' || c == 'f' {
        seq![0b11111u8, 0b10000u8, 0b10000u8, 0b11110u8, 0b10000u8, 0b10000u8, 0b10000u8]
    } else if c == 'G' || c == 'g' {
        seq![0b01110u8, 0b10001u8, 0b10000u8, 0b10111u8, 0b10001u8, 0b10001u8, 0b01110u8]
    } else if c == 'H' || c == 'h' {
        seq![0b10001u8, 0b10001u8, 0b10001u8, 0b11111u8, 0b10001u8, 0b10001u8, 0b10001u8]
    } else if c == 'I' || c == 'i' {
        seq![0b01110u8, 0b00100u8, 0b00100u8, 0b00100u8, 0b00100u8, 0b00100u8, 0b01110u8]
    } else if c == 'J' || c == 'j' {
        seq![0b00111u8, 0b00010u8, 0b00010u8, 0b00010u8, 0b00010u8, 0b10010u8, 0b01100u8]
    } else if c == 'K' || c == 'k' {
        seq![0b10001u8, 0b10010u8, 0b10100u8, 0b11000u8, 0b10100u8, 0b10010u8, 0b10001u8]
    } else if c == 'L' || c == 'l' {
        seq![0b10000u8, 0b10000u8, 0b10000u8, 0b10000u8, 0b10000u8, 0b10000u8, 0b11111u8]
    } else if c == 'M' || c == 'm' {
        seq![0b10001u8, 0b11011u8, 0b10101u8, 0b10101u8, 0b10001u8, 0b10001u8, 0b10001u8]
    } else if c == 'N' || c == 'n' {
        seq![0b10001u8, 0b11001u8, 0b10101u8, 0b10011u8, 0b10001u8, 0b10001u8, 0b10001u8]
    } else if c == 'O' || c == 'o' {
        seq![0b01110u8, 0b10001u8, 0b10001u8, 0b10001u8, 0b10001u8, 0b10001u8, 0b01110u8]
    } else if c == 'P' || c == 'p' {
        seq![0b11110u8, 0b10001u8, 0b10001u8, 0b11110u8, 0b10000u8, 0b10000u8, 0b10000u8]
    } else if c == 'Q' || c == 'q' {
        seq![0b01110u8, 0b10001u8, 0b10001u8, 0b10001u8, 0b10101u8, 0b10010u8, 0b01101u8]
    } else if c == 'R' || c == 'r' {
        seq![0b11110u8, 0b10001u8, 0b10001u8, 0b11110u8, 0b10100u8, 0b10010u8, 0b10001u8]
    } else if c == 'S' || c == 's' {
        seq![0b01110u8, 0b10001u8, 0b10000u8, 0b01110u8, 0b00001u8, 0b10001u8, 0b01110u8]
    } else if c == 'T' || c == 't' {
        seq![0b11111u8, 0b00100u8, 0b00100u8, 0b00100u8, 0b00100u8, 0b00100u8, 0b00100u8]
    } else if c == 'U' || c == 'u' {
        seq![0b10001u8, 0b10001u8, 0b10001u8, 0b10001u8, 0b10001u8, 0b10001u8, 0b01110u8]
    } else if c == 'V' || c == 'v' {
        seq![0b10001u8, 0b10001u8, 0b10001u8, 0b10001u8, 0b01010u8, 0b01010u8, 0b00100u8]
    } else if c == 'W' || c == 'w' {
        seq![0b10001u8, 0b10001u8, 0b10001u8, 0b10101u8, 0b10101u8, 0b11011u8, 0b10001u8]
    } else if c == 'X' || c == 'x' {
        seq![0b10001u8, 0b10001u8, 0b01010u8, 0b00100u8, 0b01010u8, 0b10001u8, 0b10001u8]
    } else if c == 'Y' || c == 'y' {
        seq![0b10001u8, 0b10001u8, 0b01010u8, 0b00100u8, 0b00100u8, 0b00100u8, 0b00100u8]
    } else if c == 'Z' || c == 'z' {
        seq![0b11111u8, 0b00001u8, 0b00010u8, 0b00100u8, 0b01000u8, 0b10000u8, 0b11111u8]
    } else if c == '[' {
        seq![0b01110u8, 0b01000u8, 0b01000u8, 0b01000u8, 0b01000u8, 0b01000u8, 0b01110u8]
    } else if c == ']' {
        seq![0b01110u8, 0b00010u8, 0b00010u8, 0b00010u8, 0b00010u8, 0b00010u8, 0b01110u8]
    } else if c == '_' {
        seq![0b00000u8, 0b00000u8, 0b00000u8, 0b00000u8, 0b00000u8, 0b00000u8, 0b11111u8]
    } else {
        Seq::empty()
    }
}

/// The character has a glyph.
pub open spec fn has_glyph(c: char) -> bool {
    glyph_rows(c).len() == 7
}

/// The dot at a row and a column of a glyph is set.
pub open spec fn dot_set(rows: Seq<u8>, row: int, col: int) -> bool {
    rows[row] & (1u8 << ((4 - col) as u8)) != 0
}

/// The glyph of a character, if it has one.
pub fn get_glyph(c: char) -> (glyph: Option<[u8; 7]>)
    ensures
        glyph is Some <==> has_glyph(c),
        glyph matches Some(rows) ==> rows@ == glyph_rows(c),
{
    let glyph: Option<[u8; 7]> = match c {
        ' ' => Some([0b00000, 0b00000, 0b00000, 0b00000, 0b00000, 0b00000, 0b00000]),
        '!' => Some([0b00100, 0b00100, 0b00100, 0b00100, 0b00100, 0b00000, 0b00100]),
        '"' => Some([0b01010, 0b01010, 0b00000, 0b00000, 0b00000, 0b00000, 0b00000]),
        '#' => Some([0b01010, 0b11111, 0b01010, 0b01010, 0b11111, 0b01010, 0b00000]),
        '$' => Some([0b00100, 0b01111, 0b10100, 0b01110, 0b00101, 0b11110, 0b00100]),
        '%' => Some([0b11001, 0b11010, 0b00100, 0b00100, 0b01011, 0b10011, 0b00000]),
        '&' => Some([0b01100, 0b10010, 0b01100, 0b10101, 0b10010, 0b01101, 0b00000]),
        '\'' => Some([0b00100, 0b00100, 0b00000, 0b00000, 0b00000, 0b00000, 0b00000]),
        '(' => Some([0b00010, 0b00100, 0b01000, 0b01000, 0b01000, 0b00100, 0b00010]),
        ')' => Some([0b01000, 0b00100, 0b00010, 0b00010, 0b00010, 0b00100, 0b01000]),
        '*' => Some([0b00000, 0b00100, 0b10101, 0b01110, 0b10101, 0b00100, 0b00000]),
        '+' => Some([0b00000, 0b00100, 0b00100, 0b11111, 0b00100, 0b00100, 0b00000]),
        ',' => Some([0b00000, 0b00000, 0b00000, 0b00000, 0b00000, 0b00100, 0b01000]),
        '-' => Some([0b00000, 0b00000, 0b00000, 0b11111, 0b00000, 0b00000, 0b00000]),
        '.' => Some([0b00000, 0b00000, 0b00000, 0b00000, 0b00000, 0b00000, 0b00100]),
        '/' => Some([0b00001, 0b00010, 0b00100, 0b00100, 0b01000, 0b10000, 0b00000]),
        '0' => Some([0b01110, 0b10001, 0b10011, 0b10101, 0b11001, 0b10001, 0b01110]),
        '1' => Some([0b00100, 0b01100, 0b00100, 0b00100, 0b00100, 0b00100, 0b01110]),
        '2' => Some([0b01110, 0b10001, 0b00001, 0b00110, 0b01000, 0b10000, 0b11111]),
        '3' => Some([0b01110, 0b10001, 0b00001, 0b00110, 0b00001, 0b10001, 0b01110]),
        '4' => Some([0b00010, 0b00110, 0b01010, 0b10010, 0b11111, 0b00010, 0b00010]),
        '5' => Some([0b11111, 0b10000, 0b11110, 0b00001, 0b00001, 0b10001, 0b01110]),
        '6' => Some([0b01110, 0b10000, 0b10000, 0b11110, 0b10001, 0b10001, 0b01110]),
        '7' => Some([0b11111, 0b00001, 0b00010, 0b00100, 0b01000, 0b01000, 0b01000]),
        '8' => Some([0b01110, 0b10001, 0b10001, 0b01110, 0b10001, 0b10001, 0b01110]),
        '9' => Some([0b01110, 0b10001, 0b10001, 0b01111, 0b00001, 0b00001, 0b01110]),
        ':' => Some([0b00000, 0b00000, 0b00100, 0b00000, 0b00000, 0b00100, 0b00000]),
        ';' => Some([0b00000, 0b00000, 0b00100, 0b00000, 0b00000, 0b00100, 0b01000]),
        '<' => Some([0b00010, 0b00100, 0b01000, 0b10000, 0b01000, 0b00100, 0b00010]),
        '=' => Some([0b00000, 0b00000, 0b11111, 0b00000, 0b11111, 0b00000, 0b00000]),
        '>' => Some([0b10000, 0b01000, 0b00100, 0b00010, 0b00100, 0b01000, 0b10000]),
        '?' => Some([0b01110, 0b10001, 0b00001, 0b00110, 0b00100, 0b00000, 0b00100]),
        '@' => Some([0b01110, 0b10001, 0b10111, 0b10101, 0b10110, 0b10000, 0b01110]),
        'A' | 'a' => Some([0b01110, 0b10001, 0b10001, 0b11111, 0b10001, 0b10001, 0b10001]),
        'B' | 'b' => Some([0b11110, 0b10001, 0b10001, 0b11110, 0b10001, 0b10001, 0b11110]),
        'C' | 'c' => Some([0b01110, 0b10001, 0b10000, 0b10000, 0b10000, 0b10001, 0b01110]),
        'D' | 'd' => Some([0b11110, 0b10001, 0b10001, 0b10001, 0b10001, 0b10001, 0b11110]),
        'E' | 'e' => Some([0b11111, 0b10000, 0b10000, 0b11110, 0b10000, 0b10000, 0b11111]),
        'F' | 'f' => Some([0b11111, 0b10000, 0b10000, 0b11110, 0b10000, 0b10000, 0b10000]),
        'G' | 'g' => Some([0b01110, 0b10001, 0b10000, 0b10111, 0b10001, 0b10001, 0b01110]),
        'H' | 'h' => Some([0b10001, 0b10001, 0b10001, 0b11111, 0b10001, 0b10001, 0b10001]),
        'I' | 'i' => Some([0b01110, 0b00100, 0b00100, 0b00100, 0b00100, 0b00100, 0b01110]),
        'J' | 'j' => Some([0b00111, 0b00010, 0b00010, 0b00010, 0b00010, 0b10010, 0b01100]),
        'K' | 'k' => Some([0b10001, 0b10010, 0b10100, 0b11000, 0b10100, 0b10010, 0b10001]),
        'L' | 'l' => Some([0b10000, 0b10000, 0b10000, 0b10000, 0b10000, 0b10000, 0b11111]),
        'M' | 'm' => Some([0b10001, 0b11011, 0b10101, 0b10101, 0b10001, 0b10001, 0b10001]),
        'N' | 'n' => Some([0b10001, 0b11001, 0b10101, 0b10011, 0b10001, 0b10001, 0b10001]),
        'O' | 'o' => Some([0b01110, 0b10001, 0b10001, 0b10001, 0b10001, 0b10001, 0b01110]),
        'P' | 'p' => Some([0b11110, 0b10001, 0b10001, 0b11110, 0b10000, 0b10000, 0b10000]),
        'Q' | 'q' => Some([0b01110, 0b10001, 0b10001, 0b10001, 0b10101, 0b10010, 0b01101]),
        'R' | 'r' => Some([0b11110, 0b10001, 0b10001, 0b11110, 0b10100, 0b10010, 0b10001]),
        'S' | 's' => Some([0b01110, 0b10001, 0b10000, 0b01110, 0b00001, 0b10001, 0b01110]),
        'T' | 't' => Some([0b11111, 0b00100, 0b00100, 0b00100, 0b00100, 0b00100, 0b00100]),
        'U' | 'u' => Some([0b10001, 0b10001, 0b10001, 0b10001, 0b10001, 0b10001, 0b01110]),
        'V' | 'v' => Some([0b10001, 0b10001, 0b10001, 0b10001, 0b01010, 0b01010, 0b00100]),
        'W' | 'w' => Some([0b10001, 0b10001, 0b10001, 0b10101, 0b10101, 0b11011, 0b10001]),
        'X' | 'x' => Some([0b10001, 0b10001, 0b01010, 0b00100, 0b01010, 0b10001, 0b10001]),
        'Y' | 'y' => Some([0b10001, 0b10001, 0b01010, 0b00100, 0b00100, 0b00100, 0b00100]),
        'Z' | 'z' => Some([0b11111, 0b00001, 0b00010, 0b00100, 0b01000, 0b10000, 0b11111]),
        '[' => Some([0b01110, 0b01000, 0b01000, 0b01000, 0b01000, 0b01000, 0b01110]),
        ']' => Some([0b01110, 0b00010, 0b00010, 0b00010, 0b00010, 0b00010, 0b01110]),
        '_' => Some([0b00000, 0b00000, 0b00000, 0b00000, 0b00000, 0b00000, 0b11111]),
        _ => None,
    };
    proof {
        match glyph {
            Some(rows) => {
                assert(rows@ =~= glyph_rows(c));
            },
            None => {},
        }
    }
    glyph
}

/// Whether the dot at a row and a column of a glyph is set.
pub fn glyph_dot(rows: &[u8; 7], row: usize, col: usize) -> (set: bool)
    requires
        row < GLYPH_HEIGHT,
        col < GLYPH_WIDTH,
    ensures
        set == dot_set(rows@, row as int, col as int),
{
    let shift: u8 = (4 - col) as u8;
    rows[row] & (1u8 << shift) != 0
}

/// No glyph reaches past its five columns: every row lies under 32. And
/// where a character has no glyph there are no rows at all.
pub proof fn lemma_glyphs_fit(c: char, row: int)
    requires
        0 <= row < 7,
    ensures
        glyph_rows(c).len() == 7 || glyph_rows(c).len() == 0,
        has_glyph(c) ==> glyph_rows(c)[row] < 32,
{
}

} // verus!
