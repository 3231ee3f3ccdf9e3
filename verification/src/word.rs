use vstd::prelude::*;

verus! {

/// Low byte of a 16-bit word.
pub open spec fn lo_spec(w: u16) -> u8 {
    (w % 256) as u8
}

/// High byte of a 16-bit word.
pub open spec fn hi_spec(w: u16) -> u8 {
    (w / 256) as u8
}

/// The word made of a low and a high byte.
pub open spec fn word_spec(lo: u8, hi: u8) -> u16 {
    (hi as int * 256 + lo as int) as u16
}

/// Returns the low byte of `w`.
pub fn lo(w: u16) -> (r: u8)
    ensures
        r == lo_spec(w),
{
    assert((w & 0xFF) == w % 256) by (bit_vector);
    (w & 0xFF) as u8
}

/// Returns the high byte of `w`.
pub fn hi(w: u16) -> (r: u8)
    ensures
        r == hi_spec(w),
{
    assert((w >> 8) == w / 256) by (bit_vector);
    (w >> 8) as u8
}

/// Builds a word from its two bytes.
pub fn word(lo: u8, hi: u8) -> (r: u16)
    ensures
        r == word_spec(lo, hi),
        lo_spec(r) == lo,
        hi_spec(r) == hi,
{
    assert(((hi as u16) << 8 | lo as u16) == hi as int * 256 + lo as int) by (bit_vector);
    ((hi as u16) << 8) | (lo as u16)
}

/// A word is rebuilt from its two bytes, and the bytes of a rebuilt word are
/// the ones it was built from.
pub proof fn lemma_word_bytes(w: u16)
    ensures
        word_spec(lo_spec(w), hi_spec(w)) == w,
        forall|l: u8, h: u8| #[trigger] word_spec(l, h) == l + 256 * h,
        forall|l: u8, h: u8| lo_spec(#[trigger] word_spec(l, h)) == l && hi_spec(word_spec(l, h)) == h,
{
}

} // verus!
