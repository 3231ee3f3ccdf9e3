use vstd::prelude::*;

verus! {

/// Masks of a byte, read as arithmetic on its value.
pub proof fn lemma_byte_masks(x: u8)
    by (bit_vector)
    ensures
        ((x & 0x01) != 0) == (x % 2 == 1),
        x & 0b11 == x % 4,
        x & 0x01 == x % 2,
        x & 0x07 == x % 8,
        x & 0x0F == x % 16,
        x & 0x7F == x % 128,
        ((x & 0x04) != 0) == ((x / 4) % 2 == 1),
        ((x & 0x10) != 0) == ((x / 16) % 2 == 1),
        ((x & 0x80) != 0) == (x >= 0x80),
        ((x & 0x80) == 0) == (x < 0x80),
        ((x & 0x40) != 0) == ((x / 64) % 2 == 1),
        ((x & 0x02) != 0) == ((x / 2) % 2 == 1),
        ((x >> 0u8) & 1 == 1) == ((x & 0x01) != 0),
        ((x >> 1u8) & 1 == 1) == ((x & 0x02) != 0),
        ((x >> 2u8) & 1 == 1) == ((x & 0x04) != 0),
        ((x >> 3u8) & 1 == 1) == ((x & 0x08) != 0),
        ((x >> 4u8) & 1 == 1) == ((x & 0x10) != 0),
        ((x >> 5u8) & 1 == 1) == ((x & 0x20) != 0),
        ((x >> 6u8) & 1 == 1) == ((x & 0x40) != 0),
        ((x >> 7u8) & 1 == 1) == ((x & 0x80) != 0),
        (x >> 0u8) & 0x03 == x % 4,
        (x >> 1u8) & 0x07 == (x / 2) % 8,
        (x >> 2u8) & 0x03 == (x / 4) % 4,
        (x >> 4u8) & 0x03 == (x / 16) % 4,
        (x >> 6u8) & 0x03 == (x / 64) % 4,
{
}

/// The low 15 bits of a word are its value modulo 0x8000.
pub proof fn lemma_low15(x: u16)
    by (bit_vector)
    ensures
        x & 0x7FFF == x % 0x8000,
{
}

/// The low 9 bits of a word are its value modulo 512.
pub proof fn lemma_low9(x: u16)
    by (bit_vector)
    ensures
        x & 0x01FF == x % 512,
{
}

/// The three 5-bit channels of a BGR555 colour.
pub proof fn lemma_bgr_channels(c: u16)
    by (bit_vector)
    ensures
        c & 0x1F == c % 32,
        (c >> 5) & 0x1F == (c / 32) % 32,
        (c >> 10) & 0x1F == (c / 1024) % 32,
{
}

/// Masks and shifts of a pixel or tile coordinate, read as arithmetic.
pub proof fn lemma_coord_bits(v: usize)
    by (bit_vector)
    ensures
        v & 511usize == v % 512,
        v & 255usize == v % 256,
        v & 0xFF == v % 256,
        v >> 3 == v / 8,
        v & 7 == v % 8,
        v >> 5 == v / 32,
        v & 0x1F == v % 32,
{
}

/// The fields of a tilemap entry: tile number (bits 0-9), palette (10-12),
/// priority (13), horizontal flip (14), vertical flip (15).
pub proof fn lemma_tilemap_entry(entry: u16)
    by (bit_vector)
    ensures
        entry & 0x03FF == entry % 1024,
        (entry >> 10) & 0x07 == (entry / 1024) % 8,
        ((entry & 0x2000) != 0) == ((entry / 0x2000) % 2 == 1),
        ((entry & 0x4000) != 0) == ((entry / 0x4000) % 2 == 1),
        ((entry & 0x8000) != 0) == (entry >= 0x8000),
{
}

} // verus!
