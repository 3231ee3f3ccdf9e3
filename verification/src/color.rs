use vstd::prelude::*;

verus! {

/// A 5-bit channel widened to 8 bits by repeating its top bits below it.
pub open spec fn expand5(c: int) -> int {
    c * 8 + c / 4
}

/// Red channel (bits 0-4) of a BGR555 colour.
pub open spec fn red5(bgr: u16) -> int {
    bgr as int % 32
}

/// Green channel (bits 5-9) of a BGR555 colour.
pub open spec fn green5(bgr: u16) -> int {
    (bgr as int / 32) % 32
}

/// Blue channel (bits 10-14) of a BGR555 colour.
pub open spec fn blue5(bgr: u16) -> int {
    (bgr as int / 1024) % 32
}

/// The 0xAARRGGBB value of a BGR555 colour: opaque, each channel widened.
pub open spec fn argb_spec(bgr: u16) -> u32 {
    (0xFF00_0000 + expand5(red5(bgr)) * 0x1_0000 + expand5(green5(bgr)) * 0x100 + expand5(
        blue5(bgr),
    )) as u32
}

/// Converts a 15-bit BGR555 color to a 32-bit ARGB color
///
/// The input format is a 16-bit integer where:
/// - Bits 0-4   = Red (5 bits)
/// - Bits 5-9   = Green (5 bits)
/// - Bits 10-14 = Blue (5 bits)
/// - Bit 15     = Unused/ignored
///
/// Each 5-bit channel is expanded to 8 bits by duplicating the upper bits,
/// and the result is returned in 0xAARRGGBB format with alpha always 255.
pub fn bgr555_to_argb(bgr: u16) -> (r: u32)
    ensures
        r == argb_spec(bgr),
{
    let r = (bgr & 0x1F) as u32;
    let g = ((bgr >> 5) & 0x1F) as u32;
    let b = ((bgr >> 10) & 0x1F) as u32;

    // Expand 5-bit to 8-bit by duplicating upper bits
    let r8 = (r << 3) | (r >> 2);
    let g8 = (g << 3) | (g >> 2);
    let b8 = (b << 3) | (b >> 2);

    proof {
        crate::bits::lemma_bgr_channels(bgr);
        assert(r8 == r * 8 + r / 4 && g8 == g * 8 + g / 4 && b8 == b * 8 + b / 4) by (bit_vector)
            requires
                r < 32,
                g < 32,
                b < 32,
                r8 == (r << 3) | (r >> 2),
                g8 == (g << 3) | (g >> 2),
                b8 == (b << 3) | (b >> 2),
        ;
        assert(((0xFFu32 << 24) | (r8 << 16) | (g8 << 8) | b8) == 0xFF00_0000 + r8 * 0x1_0000 + g8
            * 0x100 + b8) by (bit_vector)
            requires
                r8 < 256,
                g8 < 256,
                b8 < 256,
        ;
    }
    (0xFF << 24) | (r8 << 16) | (g8 << 8) | b8
}

/// The converted colour is always fully opaque, and a channel at zero or at
/// its maximum of 31 becomes 0 or 255.
pub proof fn lemma_argb_opaque(bgr: u16)
    ensures
        argb_spec(bgr) / 0x100_0000 == 0xFF,
        expand5(0) == 0,
        expand5(31) == 255,
        forall|c: int| 0 <= c < 32 ==> 0 <= #[trigger] expand5(c) < 256,
{
}

/// Widening a channel keeps the order of channel values.
pub proof fn lemma_expand5_monotone(a: int, b: int)
    requires
        0 <= a <= b < 32,
    ensures
        expand5(a) <= expand5(b),
{
}

} // verus!
