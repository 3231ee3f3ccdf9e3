use vstd::prelude::*;

use vstd::arithmetic::power2::pow2;

verus! {

/// The cartridge header fields that the ROM information view reads.
pub struct RomHeader {
    /// Title, space-padded to 21 bytes in the header.
    pub title: String,
    /// ROM size exponent: the ROM claims `2^rom_size` KB.
    pub rom_size: u8,
    /// SRAM size exponent: `2^ram_size` KB, 0 for none.
    pub ram_size: u8,
    pub developer_id: u8,
    pub rom_version: u8,
    pub checksum: u16,
    pub checksum_complement: u16,
}

/// A display snapshot of a loaded ROM: where it came from, its real size on
/// disk in KB (not what the header claims), and its header.
pub struct RomInfo {
    pub path: String,
    pub file_size_kb: usize,
    pub header: RomHeader,
}

/// What a header size exponent stands for: no memory for 0, else
/// `2^exponent` KB.
pub open spec fn size_kb_spec(exponent: u8) -> Option<usize> {
    if exponent == 0 {
        None
    } else {
        Some(pow2(exponent as nat) as usize)
    }
}

/// Decodes a header size exponent into KB: `None` for 0, `2^exponent`
/// otherwise. The exponent must leave `2^exponent` inside a `usize`.
pub fn decode_size_kb(exponent: u8) -> (r: Option<usize>)
    requires
        (exponent as u32) < usize::BITS,
    ensures
        r == size_kb_spec(exponent),
        r matches Some(kb) ==> kb == pow2(exponent as nat),
{
    if exponent == 0 {
        None
    } else {
        proof {
            vstd::bits::lemma_usize_pow2_no_overflow(exponent as nat);
            vstd::bits::lemma_usize_shl_is_mul(1, exponent as usize);
        }
        Some(1usize << (exponent as usize))
    }
}

impl RomHeader {
    /// Whether checksum and complement agree, as on a valid cartridge: the
    /// two XOR to 0xFFFF, which is the same as summing to 0xFFFF.
    pub fn checksum_valid(&self) -> (r: bool)
        ensures
            r == (self.checksum ^ self.checksum_complement == 0xFFFF),
            r == (self.checksum + self.checksum_complement == 0xFFFF),
    {
        let c = self.checksum;
        let k = self.checksum_complement;
        assert((c ^ k == 0xFFFF) == (c + k == 0xFFFF)) by (bit_vector);
        c ^ k == 0xFFFF
    }
}

impl RomInfo {
    /// Snapshot of a ROM at `path` whose image is `rom_len` bytes long: the
    /// file size is kept in whole KB, rounded down.
    pub fn new(path: String, rom_len: usize, header: RomHeader) -> (r: Self)
        ensures
            r.path == path,
            r.file_size_kb == rom_len / 1024,
            r.header == header,
    {
        RomInfo { path, file_size_kb: rom_len / 1024, header }
    }
}

} // verus!
