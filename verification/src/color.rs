//! RGB565 colors.
//!
//! A color is one 16-bit word: 5 bits of red, 6 of green, 5 of blue.
//! The packing, unpacking, channel widening to 8 bits, and brightness
//! scaling are all specified bit-exactly.

use vstd::prelude::*;

verus! {

/// A color in RGB565 form: bits 15..11 red, 10..5 green, 4..0 blue.
#[derive(Clone, Copy, Debug, PartialEq, Eq, Structural)]
pub struct Color {
    pub rgb565: u16,
}

/// Packs 5-bit red, 6-bit green and 5-bit blue components into one word.
/// Components wider than their field have their high bits shifted out.
pub open spec fn pack_565(r: u8, g: u8, b: u8) -> u16 {
    ((r as u16) << 11) | ((g as u16) << 5) | (b as u16)
}

/// The 5-bit red component of a packed color.
pub open spec fn red_of(c: u16) -> u8 {
    (c >> 11) as u8
}

/// The 6-bit green component of a packed color.
pub open spec fn green_of(c: u16) -> u8 {
    ((c & 0x07E0) >> 5) as u8
}

/// The 5-bit blue component of a packed color.
pub open spec fn blue_of(c: u16) -> u8 {
    (c & 0x001F) as u8
}

/// Widens a 5-bit component to 8 bits, repeating its top bits below.
pub open spec fn widen_5(v: u8) -> u8 {
    (v << 3) | (v >> 2)
}

/// Widens a 6-bit component to 8 bits, repeating its top bits below.
pub open spec fn widen_6(v: u8) -> u8 {
    (v << 2) | (v >> 4)
}

/// One channel scaled by a brightness level out of 255, capped at the
/// channel's maximum.
pub open spec fn scale_channel(v: int, light: int, cap: int) -> int {
    let x = (v * light) / 255;
    if x > cap {
        cap
    } else {
        x
    }
}

/// Packing components within their widths and unpacking them returns the
/// original components.
pub proof fn lemma_pack_unpack_565(r: u8, g: u8, b: u8)
    requires
        r < 32,
        g < 64,
        b < 32,
    ensures
        red_of(pack_565(r, g, b)) == r,
        green_of(pack_565(r, g, b)) == g,
        blue_of(pack_565(r, g, b)) == b,
{
    assert((((r as u16) << 11) | ((g as u16) << 5) | (b as u16)) >> 11 == r as u16) by (bit_vector)
        requires
            r < 32 && g < 64 && b < 32,
    ;
    assert(((((r as u16) << 11) | ((g as u16) << 5) | (b as u16)) & 0x07E0) >> 5 == g as u16)
        by (bit_vector)
        requires
            r < 32 && g < 64 && b < 32,
    ;
    assert((((r as u16) << 11) | ((g as u16) << 5) | (b as u16)) & 0x001F == b as u16)
        by (bit_vector)
        requires
            r < 32 && g < 64 && b < 32,
    ;
}

impl Color {
    /// Builds a color from RGB565 components: 5-bit red, 6-bit green,
    /// 5-bit blue.
    #[inline]
    pub fn from_components(r: u8, g: u8, b: u8) -> (c: Self)
        ensures
            c.rgb565 == pack_565(r, g, b),
    {
        Color { rgb565: ((r as u16) << 11) | ((g as u16) << 5) | (b as u16) }
    }

    /// Builds a color from ordinary 8-bit per channel RGB values, keeping
    /// each channel's top bits.
    pub fn from_888(r: u8, g: u8, b: u8) -> (c: Self)
        ensures
            c.rgb565 == pack_565(r >> 3, g >> 2, b >> 3),
    {
        Color::from_components(r >> 3, g >> 2, b >> 3)
    }

    /// The color's RGB565 components: 5-bit red, 6-bit green, 5-bit blue.
    pub fn get_components(&self) -> (t: (u8, u8, u8))
        ensures
            t.0 == red_of(self.rgb565),
            t.1 == green_of(self.rgb565),
            t.2 == blue_of(self.rgb565),
            t.0 < 32 && t.1 < 64 && t.2 < 32,
    {
        proof {
            let c = self.rgb565;
            assert(c >> 11 < 32 && (c & 0x07E0) >> 5 < 64 && c & 0x001F < 32) by (bit_vector);
        }
        let r = self.rgb565 >> 11;
        let g = (self.rgb565 & 0x07E0) >> 5;
        let b = self.rgb565 & 0x001F;
        (r as u8, g as u8, b as u8)
    }

    /// The color widened to ordinary 8-bit per channel RGB values.
    pub fn get_888(&self) -> (t: (u8, u8, u8))
        ensures
            t.0 == widen_5(red_of(self.rgb565)),
            t.1 == widen_6(green_of(self.rgb565)),
            t.2 == widen_5(blue_of(self.rgb565)),
    {
        let (r, g, b) = self.get_components();
        ((r << 3) | (r >> 2), (g << 2) | (g >> 4), (b << 3) | (b >> 2))
    }

    /// The color dimmed to a brightness level out of 255: each channel is
    /// scaled proportionally and capped at its width.
    pub fn apply_light(&self, light_level: u8) -> (c: Self)
        ensures
            c.rgb565 == pack_565(
                scale_channel(red_of(self.rgb565) as int, light_level as int, 31) as u8,
                scale_channel(green_of(self.rgb565) as int, light_level as int, 63) as u8,
                scale_channel(blue_of(self.rgb565) as int, light_level as int, 31) as u8,
            ),
    {
        let light = light_level as u16;
        let (r, g, b) = self.get_components();
        proof {
            assert((r as int) * (light as int) <= 63 * 255 && (g as int) * (light as int) <= 63
                * 255 && (b as int) * (light as int) <= 63 * 255) by (nonlinear_arith)
                requires
                    r < 64 && g < 64 && b < 64 && light <= 255,
            ;
        }
        let rs = (r as u16) * light / 255;
        let gs = (g as u16) * light / 255;
        let bs = (b as u16) * light / 255;
        Color::from_components(
            (if rs > 31 {
                31
            } else {
                rs
            }) as u8,
            (if gs > 63 {
                63
            } else {
                gs
            }) as u8,
            (if bs > 31 {
                31
            } else {
                bs
            }) as u8,
        )
    }
}

} // verus!
