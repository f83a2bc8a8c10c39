//! Candidate-window colors as the settings store them (COLORREF,
//! 0x00BBGGRR) and as the settings center edits them (alpha, red, green,
//! blue).
use vstd::prelude::*;

verus! {

/// A color by its alpha, red, green and blue channels.
#[derive(Clone, Copy, PartialEq, Eq, Structural, Debug)]
pub struct RgbaColor {
    pub a: u8,
    pub r: u8,
    pub g: u8,
    pub b: u8,
}

/// The opaque color of a COLORREF: red in its low byte, then green, then
/// blue; the high byte is ignored.
pub open spec fn rgba_of(colorref: u32) -> RgbaColor {
    RgbaColor {
        a: 255,
        r: (colorref & 0xFF) as u8,
        g: ((colorref >> 8) & 0xFF) as u8,
        b: ((colorref >> 16) & 0xFF) as u8,
    }
}

/// The COLORREF of a color: blue, green and red bytes; alpha is dropped.
pub open spec fn colorref_of(color: RgbaColor) -> u32 {
    ((color.b as u32) << 16) | ((color.g as u32) << 8) | (color.r as u32)
}

/// The opaque color of a COLORREF.
pub fn colorref_to_rgba(colorref: u32) -> (color: RgbaColor)
    ensures
        color == rgba_of(colorref),
{
    let r = (colorref & 0xFF) as u8;
    let g = ((colorref >> 8) & 0xFF) as u8;
    let b = ((colorref >> 16) & 0xFF) as u8;
    RgbaColor { a: 255, r, g, b }
}

/// The COLORREF of a color.
pub fn rgba_to_colorref(color: RgbaColor) -> (colorref: u32)
    ensures
        colorref == colorref_of(color),
{
    ((color.b as u32) << 16) | ((color.g as u32) << 8) | (color.r as u32)
}

/// A COLORREF turned into a color and back keeps its three color bytes
/// (the high byte is cleared); a color turned into a COLORREF and back is
/// the same color, made opaque.
pub proof fn lemma_color_conversion_roundtrip(colorref: u32, color: RgbaColor)
    ensures
        colorref_of(rgba_of(colorref)) == colorref & 0x00FF_FFFF,
        rgba_of(colorref_of(color)) == (RgbaColor { a: 255, ..color }),
{
    let r8 = color.r;
    let g8 = color.g;
    let b8 = color.b;
    assert({
        let c = ((b8 as u32) << 16) | ((g8 as u32) << 8) | (r8 as u32);
        &&& (c & 0xFF) as u8 == r8
        &&& ((c >> 8) & 0xFF) as u8 == g8
        &&& ((c >> 16) & 0xFF) as u8 == b8
    }) by (bit_vector);
    assert({
        let r = (colorref & 0xFF) as u8;
        let g = ((colorref >> 8) & 0xFF) as u8;
        let b = ((colorref >> 16) & 0xFF) as u8;
        ((b as u32) << 16) | ((g as u32) << 8) | (r as u32) == colorref & 0x00FF_FFFF
    }) by (bit_vector);
}

} // verus!
