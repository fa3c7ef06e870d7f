//! Images in the EIF1 binary form.
//!
//! An EIF1 image is a 4-byte magic tag, a 2-byte little-endian width, a
//! 2-byte little-endian height, then one little-endian RGB565 word per
//! pixel.  [`Image::from_raw`] decodes that form into owned pixels, and
//! [`encode_eif1`] produces it from 8-bit RGBA pixels.

use vstd::prelude::*;
use vstd::slice::slice_subrange;

use crate::color::Color;
use crate::layout::word_at;
use crate::utils::Rect;

verus! {

/// Magic tag opening an EIF1 image: the bytes "EIF1" read little-endian.
pub const EIF1_MAGIC_NUMBER: u32 = 0x31464945;

/// The magic tag at the head of an image's bytes.
pub open spec fn eif1_magic_of(b: Seq<u8>) -> u32
    recommends
        b.len() >= 4,
{
    vstd::bytes::spec_u32_from_le_bytes(b.subrange(0, 4))
}

/// The pixel count an image's header announces: width times height.
pub open spec fn eif1_surface(b: Seq<u8>) -> int
    recommends
        b.len() >= 8,
{
    word_at(b, 4) * word_at(b, 6)
}

/// The RGB565 word a stored 8-bit RGBA pixel becomes: a fully
/// transparent pixel turns white, any other keeps each channel's top
/// bits.
pub open spec fn rgba_to_565(p: (u8, u8, u8, u8)) -> u16 {
    if p.3 == 0 {
        0xFFFF
    } else {
        ((((p.0 & 0xF8) as u16) << 8) | (((p.1 & 0xFC) as u16) << 3)) | ((p.2 as u16) >> 3)
    }
}

/// An image decoded into owned pixels.
pub struct Image {
    /// The magic tag the image was decoded from.
    pub magic_number: u32,
    /// Width in pixels.
    pub width: u16,
    /// Height in pixels.
    pub height: u16,
    /// The pixels, row by row.
    pub pixels: Vec<Color>,
}

impl Image {
    /// Decodes an image, recognizing it by its magic tag: an EIF1 image
    /// yields its pixels, any other tag yields nothing.  The bytes must
    /// hold the whole image the header announces.
    pub fn from_raw(binary: &[u8]) -> (r: Option<Image>)
        requires
            binary@.len() >= 4,
            eif1_magic_of(binary@) == EIF1_MAGIC_NUMBER ==> binary@.len() >= 8 + 2 * eif1_surface(
                binary@,
            ),
        ensures
            r is Some <==> eif1_magic_of(binary@) == EIF1_MAGIC_NUMBER,
            r is Some ==> ({
                let img = r->0;
                &&& img.magic_number == EIF1_MAGIC_NUMBER
                &&& img.width as int == word_at(binary@, 4)
                &&& img.height as int == word_at(binary@, 6)
                &&& img.pixels@.len() == eif1_surface(binary@)
                &&& forall|k: int|
                    0 <= k < img.pixels@.len() ==> img.pixels@[k].rgb565 as int == word_at(
                        binary@,
                        8 + 2 * k,
                    )
            }),
    {
        let magic = vstd::bytes::u32_from_le_bytes(slice_subrange(binary, 0, 4));
        if magic == EIF1_MAGIC_NUMBER {
            Some(Image::from_raw_eif1(binary))
        } else {
            None
        }
    }

    /// Decodes an EIF1 image: reads width and height from the header and
    /// one little-endian RGB565 word per pixel after it.
    pub fn from_raw_eif1(binary: &[u8]) -> (img: Image)
        requires
            binary@.len() >= 8,
            binary@.len() >= 8 + 2 * eif1_surface(binary@),
        ensures
            img.magic_number == eif1_magic_of(binary@),
            img.width as int == word_at(binary@, 4),
            img.height as int == word_at(binary@, 6),
            img.pixels@.len() == eif1_surface(binary@),
            forall|k: int|
                0 <= k < img.pixels@.len() ==> img.pixels@[k].rgb565 as int == word_at(
                    binary@,
                    8 + 2 * k,
                ),
    {
        let blen = binary.len();
        let magic_number = vstd::bytes::u32_from_le_bytes(slice_subrange(binary, 0, 4));
        let width = binary[4] as u16 + binary[5] as u16 * 256;
        let height = binary[6] as u16 + binary[7] as u16 * 256;
        proof {
            assert(word_at(binary@, 4) * word_at(binary@, 6) >= 0) by (nonlinear_arith)
                requires
                    word_at(binary@, 4) >= 0 && word_at(binary@, 6) >= 0,
            ;
        }
        let surface = (width as usize) * (height as usize);
        let mut pixels: Vec<Color> = Vec::new();
        let mut i: usize = 0;
        while i < surface
            invariant
                0 <= i <= surface,
                pixels@.len() == i,
                blen == binary@.len(),
                surface == eif1_surface(binary@),
                8 + 2 * surface <= blen,
                forall|k: int|
                    0 <= k < i ==> pixels@[k].rgb565 as int == word_at(binary@, 8 + 2 * k),
            decreases surface - i,
        {
            let idx = 8 + 2 * i;
            let rgb565 = binary[idx] as u16 + binary[idx + 1] as u16 * 256;
            pixels.push(Color { rgb565 });
            i = i + 1;
        }
        Image { magic_number, width, height, pixels }
    }

    /// The image's pixels, row by row.
    pub fn get_pixels(&self) -> (r: &[Color])
        ensures
            r@ == self.pixels@,
    {
        self.pixels.as_slice()
    }

    /// The rectangle the image covers when its top-left corner is put at
    /// the given point.
    pub fn for_coordinates(&self, x: u16, y: u16) -> (r: Rect)
        ensures
            r == (Rect { x, y, width: self.width, height: self.height }),
    {
        Rect { x, y, width: self.width, height: self.height }
    }
}

/// Encodes 8-bit RGBA pixels into the EIF1 binary form: the magic tag,
/// the dimensions, then one little-endian RGB565 word per pixel, with
/// fully transparent pixels turned white.
pub fn encode_eif1(width: u16, height: u16, pixels: &[(u8, u8, u8, u8)]) -> (r: Vec<u8>)
    requires
        pixels@.len() == width as int * height as int,
    ensures
        r@.len() == 8 + 2 * pixels@.len(),
        eif1_magic_of(r@) == EIF1_MAGIC_NUMBER,
        word_at(r@, 4) == width as int,
        word_at(r@, 6) == height as int,
        eif1_surface(r@) == pixels@.len(),
        forall|k: int|
            0 <= k < pixels@.len() ==> word_at(r@, 8 + 2 * k) == rgba_to_565(pixels@[k]) as int,
{
    let mb = vstd::bytes::u32_to_le_bytes(EIF1_MAGIC_NUMBER);
    let mut out: Vec<u8> = Vec::new();
    out.push(mb[0]);
    out.push(mb[1]);
    out.push(mb[2]);
    out.push(mb[3]);
    out.push((width % 256) as u8);
    out.push((width / 256) as u8);
    out.push((height % 256) as u8);
    out.push((height / 256) as u8);
    proof {
        vstd::arithmetic::div_mod::lemma_fundamental_div_mod(width as int, 256);
        vstd::arithmetic::div_mod::lemma_fundamental_div_mod(height as int, 256);
        assert(out@.subrange(0, 4) =~= mb@);
    }
    let ghost header = out@;
    let count = pixels.len();
    let mut i: usize = 0;
    while i < count
        invariant
            0 <= i <= count,
            count == pixels@.len(),
            out@.len() == 8 + 2 * i,
            out@.subrange(0, 8) == header,
            header.len() == 8,
            word_at(header, 4) == width as int,
            word_at(header, 6) == height as int,
            header.subrange(0, 4) == vstd::bytes::spec_u32_to_le_bytes(EIF1_MAGIC_NUMBER),
            forall|k: int| 0 <= k < i ==> word_at(out@, 8 + 2 * k) == rgba_to_565(pixels@[k]) as int,
        decreases count - i,
    {
        let p = *vstd::slice::slice_index_get(pixels, i);
        let v: u16 = if p.3 == 0 {
            0xFFFF
        } else {
            ((((p.0 & 0xF8) as u16) << 8) | (((p.1 & 0xFC) as u16) << 3)) | ((p.2 as u16) >> 3)
        };
        proof {
            vstd::arithmetic::div_mod::lemma_fundamental_div_mod(v as int, 256);
        }
        out.push((v % 256) as u8);
        out.push((v / 256) as u8);
        proof {
            assert(out@.subrange(0, 8) =~= header);
        }
        i = i + 1;
    }
    proof {
        vstd::bytes::lemma_auto_spec_u32_to_from_le_bytes();
        assert(out@.subrange(0, 4) =~= header.subrange(0, 4));
        assert(word_at(out@, 4) == word_at(header, 4));
        assert(word_at(out@, 6) == word_at(header, 6));
    }
    out
}

} // verus!
