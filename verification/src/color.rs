//! RGB color values derived from sampled 32-bit words.

use vstd::prelude::*;
use vstd::string::StrSliceExecFns;

verus! {

/// A color as one byte per channel.
#[derive(Clone, Copy, Debug, PartialEq, Eq, Structural)]
pub struct Color {
    pub red: u8,
    pub green: u8,
    pub blue: u8,
}

/// The packed `0xRRGGBB` form of a color.
pub open spec fn spec_hex(c: Color) -> u32 {
    (c.red * 0x1_0000 + c.green * 0x100 + c.blue) as u32
}

/// The color packed into the low 24 bits of a word, high byte first.
pub open spec fn spec_color_of(value: u32) -> Color {
    Color {
        red: ((value >> 16) & 0xFF) as u8,
        green: ((value >> 8) & 0xFF) as u8,
        blue: (value & 0xFF) as u8,
    }
}

impl Color {
    pub fn new(red: u8, green: u8, blue: u8) -> (c: Self)
        ensures
            c == (Color { red, green, blue }),
    {
        Self { red, green, blue }
    }

    pub fn as_hex(&self) -> (r: u32)
        ensures
            r == spec_hex(*self),
    {
        let r = ((self.red as u32) << 16) | ((self.green as u32) << 8) | (self.blue as u32);
        proof {
            let (red, green, blue) = (self.red, self.green, self.blue);
            assert(((red as u32) << 16) | ((green as u32) << 8) | (blue as u32)
                == (red * 0x1_0000 + green * 0x100 + blue) as u32) by (bit_vector);
        }
        r
    }
}

impl From<u32> for Color {
    fn from(value: u32) -> (c: Self) {
        proof {
            assert((value >> 16) & 0xFF < 256 && (value >> 8) & 0xFF < 256 && value & 0xFF < 256)
                by (bit_vector);
        }
        let red = ((value >> 16) & 0xFF) as u8;
        let green = ((value >> 8) & 0xFF) as u8;
        let blue = (value & 0xFF) as u8;
        Self { red, green, blue }
    }
}

impl vstd::std_specs::convert::FromSpecImpl<u32> for Color {
    open spec fn obeys_from_spec() -> bool {
        true
    }

    open spec fn from_spec(value: u32) -> Self {
        spec_color_of(value)
    }
}

/// How a color is rendered in a response.
#[derive(Clone, Copy, Debug, PartialEq, Eq, Structural)]
pub enum ColorFormat {
    /// One byte per channel.
    Rgb,
    /// The packed `0xRRGGBB` word.
    Hex,
}

/// Read a format query parameter: only `rgb` and `hex` are recognized, any
/// other value is a client error and comes back empty.
pub fn parse_color_format(s: &str) -> (r: Option<ColorFormat>)
    ensures
        r == Some(ColorFormat::Rgb) <==> s@ =~= seq!['r', 'g', 'b'],
        r == Some(ColorFormat::Hex) <==> s@ =~= seq!['h', 'e', 'x'],
{
    if s.unicode_len() != 3 {
        return None;
    }
    let (a, b, c) = (s.get_char(0), s.get_char(1), s.get_char(2));
    if a == 'r' && b == 'g' && c == 'b' {
        proof {
            assert(s@ =~= seq!['r', 'g', 'b']);
        }
        Some(ColorFormat::Rgb)
    } else if a == 'h' && b == 'e' && c == 'x' {
        proof {
            assert(s@ =~= seq!['h', 'e', 'x']);
        }
        Some(ColorFormat::Hex)
    } else {
        None
    }
}

/// Packing a word into a color keeps its low 24 bits: `as_hex` returns them.
pub proof fn lemma_color_round_trip(value: u32)
    ensures
        spec_hex(spec_color_of(value)) == value % 0x100_0000,
{
    assert(((((value >> 16) & 0xFF) as u8) * 0x1_0000 + (((value >> 8) & 0xFF) as u8) * 0x100 + ((
    value & 0xFF) as u8)) as u32 == value % 0x100_0000) by (bit_vector);
}

} // verus!
