use vstd::prelude::*;

verus! {

/// An RGBA colour with one byte per channel.
#[derive(Clone, Copy, Debug, PartialEq, Eq, Structural)]
pub struct Rgba {
    pub r: u8,
    pub g: u8,
    pub b: u8,
    pub a: u8,
}

/// Fully transparent black.
pub open spec fn transparent_spec() -> Rgba {
    Rgba { r: 0, g: 0, b: 0, a: 0 }
}

/// Fully transparent black.
pub fn transparent() -> (c: Rgba)
    ensures
        c == transparent_spec(),
{
    Rgba { r: 0, g: 0, b: 0, a: 0 }
}

/// The eight base colours of the display palette.
#[derive(Clone, Copy, Debug, PartialEq, Eq, Structural)]
pub enum SpeccyColour {
    Black,
    Blue,
    Red,
    Magenta,
    Green,
    Cyan,
    Yellow,
    White,
}

pub open spec fn colour_of(n: u8) -> SpeccyColour {
    if n == 1 {
        SpeccyColour::Blue
    } else if n == 2 {
        SpeccyColour::Red
    } else if n == 3 {
        SpeccyColour::Magenta
    } else if n == 4 {
        SpeccyColour::Green
    } else if n == 5 {
        SpeccyColour::Cyan
    } else if n == 6 {
        SpeccyColour::Yellow
    } else if n == 7 {
        SpeccyColour::White
    } else {
        SpeccyColour::Black
    }
}

impl SpeccyColour {
    /// The palette entry for a 3-bit colour number; any other value gives black.
    pub fn from_raw(n: u8) -> (r: SpeccyColour)
        ensures
            r == colour_of(n),
    {
        match n {
            1 => SpeccyColour::Blue,
            2 => SpeccyColour::Red,
            3 => SpeccyColour::Magenta,
            4 => SpeccyColour::Green,
            5 => SpeccyColour::Cyan,
            6 => SpeccyColour::Yellow,
            7 => SpeccyColour::White,
            _ => SpeccyColour::Black,
        }
    }
}

/// Channel intensity of a lit channel: full when bright, dimmed otherwise.
pub open spec fn channel_level(bright: bool) -> u8 {
    if bright {
        0xff
    } else {
        0xcd
    }
}

/// The opaque colour that a palette entry shows, by which of the red, green and blue
/// channels it lights.
pub open spec fn rgba_spec(c: SpeccyColour, bright: bool) -> Rgba {
    let l = channel_level(bright);
    match c {
        SpeccyColour::Black => Rgba { r: 0, g: 0, b: 0, a: 0xff },
        SpeccyColour::Blue => Rgba { r: 0, g: 0, b: l, a: 0xff },
        SpeccyColour::Red => Rgba { r: l, g: 0, b: 0, a: 0xff },
        SpeccyColour::Magenta => Rgba { r: l, g: 0, b: l, a: 0xff },
        SpeccyColour::Green => Rgba { r: 0, g: l, b: 0, a: 0xff },
        SpeccyColour::Cyan => Rgba { r: 0, g: l, b: l, a: 0xff },
        SpeccyColour::Yellow => Rgba { r: l, g: l, b: 0, a: 0xff },
        SpeccyColour::White => Rgba { r: l, g: l, b: l, a: 0xff },
    }
}

impl SpeccyColour {
    /// The opaque RGBA value of this palette entry, in its dim or bright variant.
    pub fn to_rgba(&self, bright: bool) -> (r: Rgba)
        ensures
            r == rgba_spec(*self, bright),
    {
        let l: u8 = if bright {
            0xff
        } else {
            0xcd
        };
        match self {
            SpeccyColour::Black => Rgba { r: 0, g: 0, b: 0, a: 0xff },
            SpeccyColour::Blue => Rgba { r: 0, g: 0, b: l, a: 0xff },
            SpeccyColour::Red => Rgba { r: l, g: 0, b: 0, a: 0xff },
            SpeccyColour::Magenta => Rgba { r: l, g: 0, b: l, a: 0xff },
            SpeccyColour::Green => Rgba { r: 0, g: l, b: 0, a: 0xff },
            SpeccyColour::Cyan => Rgba { r: 0, g: l, b: l, a: 0xff },
            SpeccyColour::Yellow => Rgba { r: l, g: l, b: 0, a: 0xff },
            SpeccyColour::White => Rgba { r: l, g: l, b: l, a: 0xff },
        }
    }
}

} // verus!
