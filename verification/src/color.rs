//! Encoding of 8-bit RGB triples into the panel's 16-bit pixel format.

use vstd::prelude::*;

verus! {

/// The 5-6-5 packing of a colour: the top five bits of red, the top six of
/// green and the top five of blue, red in the most significant position.
pub open spec fn rgb565(r: u8, g: u8, b: u8) -> int {
    (r as int / 8) * 2048 + (g as int / 4) * 32 + (b as int / 8)
}

/// A 16-bit value with its two bytes exchanged.
pub open spec fn swap_bytes(v: int) -> int {
    (v % 256) * 256 + v / 256
}

/// The pixel that the panel expects for a colour: its 5-6-5 packing in the
/// panel's byte order.
pub open spec fn encoded(r: u8, g: u8, b: u8) -> int {
    swap_bytes(rgb565(r, g, b))
}

/// Encodes a colour as a pixel of the panel.
pub fn rgb565_const(r: u8, g: u8, b: u8) -> (px: u16)
    ensures
        px == encoded(r, g, b),
{
    let r5 = (r >> 3) as u16;
    let g6 = (g >> 2) as u16;
    let b5 = (b >> 3) as u16;
    let rgb = (r5 << 11) | (g6 << 5) | b5;
    let px = (rgb >> 8) | (rgb << 8);
    assert(r5 == r / 8 && g6 == g / 4 && b5 == b / 8) by (bit_vector)
        requires
            r5 == (r >> 3) as u16,
            g6 == (g >> 2) as u16,
            b5 == (b >> 3) as u16,
    ;
    assert(rgb == r5 * 2048 + g6 * 32 + b5) by (bit_vector)
        requires
            rgb == (r5 << 11) | (g6 << 5) | b5,
            r5 < 32,
            g6 < 64,
            b5 < 32,
    ;
    assert(px == (rgb % 256) * 256 + rgb / 256) by (bit_vector)
        requires
            px == (rgb >> 8) | (rgb << 8),
    ;
    px
}

/// Decoding undoes the byte swap: swapping twice gives the packing back.
pub proof fn lemma_swap_bytes_involutive(v: int)
    requires
        0 <= v < 65536,
    ensures
        0 <= swap_bytes(v) < 65536,
        swap_bytes(swap_bytes(v)) == v,
{
}

/// Every encoded colour is a 16-bit value.
pub proof fn lemma_encoded_in_range(r: u8, g: u8, b: u8)
    ensures
        0 <= rgb565(r, g, b) < 65536,
        0 <= encoded(r, g, b) < 65536,
{
}

} // verus!
