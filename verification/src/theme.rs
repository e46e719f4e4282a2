//! Colours of the shell's dark theme, as 8-bit RGBA quadruplets.

use vstd::prelude::*;

verus! {

/// One pixel's worth of colour: red, green, blue and alpha, 8 bits each.
#[derive(Clone, Copy, Debug, PartialEq, Eq, Structural)]
pub struct Color {
    pub r: u8,
    pub g: u8,
    pub b: u8,
    pub a: u8,
}

impl Color {
    /// An opaque colour.
    pub fn rgb(r: u8, g: u8, b: u8) -> (c: Color)
        ensures
            c == (Color { r, g, b, a: 255 }),
    {
        Color { r, g, b, a: 255 }
    }

    /// A colour with the given alpha.
    pub fn rgba(r: u8, g: u8, b: u8, a: u8) -> (c: Color)
        ensures
            c == (Color { r, g, b, a }),
    {
        Color { r, g, b, a }
    }
}

/// Height of the status bar in pixels.
pub const STATUS_BAR_HEIGHT: u32 = 40;

/// Height of the omnibar in pixels.
pub const OMNIBAR_HEIGHT: u32 = 48;

/// Padding inside a card in pixels.
pub const CARD_PADDING: u32 = 16;

/// Gap between cards in pixels.
pub const CARD_GAP: u32 = 16;

/// Margin around the content in pixels.
pub const CONTENT_MARGIN: u32 = 24;

/// Narrowest a card may get, in pixels.
pub const CARD_MIN_WIDTH: u32 = 350;

/// Screen background.
pub fn bg() -> (c: Color)
    ensures
        c == (Color { r: 0x0D, g: 0x11, b: 0x17, a: 255 }),
{
    Color::rgb(0x0D, 0x11, 0x17)
}

/// Background of bars and panels.
pub fn surface() -> (c: Color)
    ensures
        c == (Color { r: 0x16, g: 0x1B, b: 0x22, a: 255 }),
{
    Color::rgb(0x16, 0x1B, 0x22)
}

/// Background of a card.
pub fn card() -> (c: Color)
    ensures
        c == (Color { r: 0x1C, g: 0x21, b: 0x28, a: 255 }),
{
    Color::rgb(0x1C, 0x21, 0x28)
}

/// Border of a card.
pub fn card_border() -> (c: Color)
    ensures
        c == (Color { r: 0x30, g: 0x36, b: 0x3D, a: 255 }),
{
    Color::rgb(0x30, 0x36, 0x3D)
}

/// Primary text.
pub fn text_primary() -> (c: Color)
    ensures
        c == (Color { r: 0xE6, g: 0xED, b: 0xF3, a: 255 }),
{
    Color::rgb(0xE6, 0xED, 0xF3)
}

/// Secondary text.
pub fn text_secondary() -> (c: Color)
    ensures
        c == (Color { r: 0x8B, g: 0x94, b: 0x9E, a: 255 }),
{
    Color::rgb(0x8B, 0x94, 0x9E)
}

/// Muted text.
pub fn text_muted() -> (c: Color)
    ensures
        c == (Color { r: 0x48, g: 0x4F, b: 0x58, a: 255 }),
{
    Color::rgb(0x48, 0x4F, 0x58)
}

/// Blue accent.
pub fn accent_blue() -> (c: Color)
    ensures
        c == (Color { r: 0x58, g: 0xA6, b: 0xFF, a: 255 }),
{
    Color::rgb(0x58, 0xA6, 0xFF)
}

/// Green accent.
pub fn accent_green() -> (c: Color)
    ensures
        c == (Color { r: 0x3F, g: 0xB9, b: 0x50, a: 255 }),
{
    Color::rgb(0x3F, 0xB9, 0x50)
}

/// Yellow accent.
pub fn accent_yellow() -> (c: Color)
    ensures
        c == (Color { r: 0xD2, g: 0x99, b: 0x22, a: 255 }),
{
    Color::rgb(0xD2, 0x99, 0x22)
}

/// Red accent.
pub fn accent_red() -> (c: Color)
    ensures
        c == (Color { r: 0xF8, g: 0x51, b: 0x49, a: 255 }),
{
    Color::rgb(0xF8, 0x51, 0x49)
}

} // verus!
