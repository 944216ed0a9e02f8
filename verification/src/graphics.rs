//! Colors as stored in the cartridge: 15-bit RGB words unpacked into 8-bit
//! channels with a fixed opaque alpha.

use vstd::prelude::*;

verus! {

/// An unpacked color: 8-bit channels, alpha always opaque.
#[derive(Clone, Copy, Debug, PartialEq, Eq)]
pub struct Color {
    pub r: u8,
    pub g: u8,
    pub b: u8,
    pub a: u8,
}

/// The color a 16-bit palette word unpacks to: three 5-bit channels, each
/// scaled by eight, and opaque alpha.
pub open spec fn spec_color_from_word(value: u16) -> Color {
    Color {
        r: ((value & 31) * 8) as u8,
        g: (((value >> 5) & 31) * 8) as u8,
        b: (((value >> 10) & 31) * 8) as u8,
        a: 0xFF,
    }
}

impl Color {
    /// Unpacks a 16-bit palette word.
    pub fn new(value: u16) -> (c: Color)
        ensures
            c == spec_color_from_word(value),
    {
        proof {
            assert((value & 31) <= 31 && ((value >> 5) & 31) <= 31 && ((value >> 10) & 31)
                <= 31) by (bit_vector);
        }
        Color {
            r: ((value & 31) * 8) as u8,
            g: (((value >> 5) & 31) * 8) as u8,
            b: (((value >> 10) & 31) * 8) as u8,
            a: 0xFF,
        }
    }

    /// The three color channels, red first.
    pub fn to_rgb(&self) -> (rgb: [u8; 3])
        ensures
            rgb@ == seq![self.r, self.g, self.b],
    {
        let rgb = [self.r, self.g, self.b];
        proof {
            assert(rgb@ =~= seq![self.r, self.g, self.b]);
        }
        rgb
    }

    /// The color as one 32-bit RGBA word, red in the highest byte.
    pub fn to_rgba(&self) -> (v: u32)
        ensures
            v == self.r * 0x1000000 + self.g * 0x10000 + self.b * 0x100 + 0xFF,
    {
        let r = self.r as u32;
        let g = self.g as u32;
        let b = self.b as u32;
        proof {
            assert(r <= 0xFF && g <= 0xFF && b <= 0xFF ==> (r << 24) == r * 0x1000000 && (g << 16)
                == g * 0x10000 && (b << 8) == b * 0x100) by (bit_vector);
        }
        (r << 24) + (g << 16) + (b << 8) + 0xFF
    }
}

} // verus!
