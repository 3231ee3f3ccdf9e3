use vstd::prelude::*;

use crate::registers::PPURegisters;
use crate::word::{hi, hi_spec, lo, lo_spec, word, word_spec};
use crate::write_twice::{BytePhase, WriteTwice};

verus! {

/// Number of 16-bit colour words in CGRAM (512 bytes).
pub const CGRAM_WORDS: usize = 256;

/// Colour RAM: 256 BGR555 words, with the word address of the data port and
/// the PPU open-bus byte.
pub struct CGRAM {
    /// CGRAM stored as u16 words
    pub memory: [u16; 256],
    /// Internal 8-bit word address (0-255)
    pub word_addr: u8,
    /// Bit 7 used during high-byte read
    pub ppu_open_bus: u8,
}

/// Colour RAM and the shared CGDATA flip-flop after a write of `value` to
/// $2122: the first write of a pair only latches; the second stores the pair
/// (bit 7 of the high byte dropped) at the word address and steps it. The
/// open-bus byte takes the value in both cases.
pub open spec fn write_data_spec(c: CGRAM, latch: WriteTwice, value: u8) -> (CGRAM, WriteTwice) {
    let mem = match latch.write_result(value) {
        Some((l, h)) => vstd::array::spec_array_update(
            c.memory,
            c.word_addr as int,
            word_spec(l, (h % 128) as u8),
        ),
        None => c.memory,
    };
    let addr = match latch.write_result(value) {
        Some(_) => ((c.word_addr + 1) % 256) as u8,
        None => c.word_addr,
    };
    (
        CGRAM { memory: mem, word_addr: addr, ppu_open_bus: value },
        latch.after_write(value),
    )
}

/// Byte returned by a read of $213B: in the low phase the low byte of the
/// addressed word; in the high phase its high byte with bit 7 taken from the
/// open bus.
pub open spec fn read_value_spec(c: CGRAM, latch: WriteTwice) -> u8 {
    let w = c.memory@[c.word_addr as int];
    match latch.phase {
        BytePhase::Low => lo_spec(w),
        BytePhase::High => hi_spec(w) | (c.ppu_open_bus & 0x80),
    }
}

/// Colour RAM and flip-flop after a read of $213B: the phase flips, the word
/// address steps after the high byte, and the open bus takes the value read.
pub open spec fn read_data_spec(c: CGRAM, latch: WriteTwice) -> (CGRAM, WriteTwice) {
    let addr = match latch.phase {
        BytePhase::High => ((c.word_addr + 1) % 256) as u8,
        BytePhase::Low => c.word_addr,
    };
    (
        CGRAM { word_addr: addr, ppu_open_bus: read_value_spec(c, latch), ..c },
        WriteTwice { phase: latch.phase.flipped(), ..latch },
    )
}

impl CGRAM {
    /// Zeroed memory, address and open bus.
    pub fn new() -> (r: Self)
        ensures
            forall|i: int| 0 <= i < CGRAM_WORDS ==> r.memory@[i] == 0,
            r.memory@.len() == CGRAM_WORDS,
            r.word_addr == 0,
            r.ppu_open_bus == 0,
    {
        Self { memory: [0u16; 256], word_addr: 0, ppu_open_bus: 0 }
    }

    // ============================================================
    // $2121 - CGADD
    // ============================================================

    /// Sets the word address and resets the CGDATA flip-flop.
    pub fn write_addr(&mut self, regs: &mut PPURegisters, value: u8)
        ensures
            *final(self) == (CGRAM { word_addr: value, ..*old(self) }),
            *final(regs) == (PPURegisters {
                cgram_latch: old(regs).cgram_latch.after_reset(),
                ..*old(regs)
            }),
    {
        self.word_addr = value;
        regs.cgram_latch.reset();
    }

    // ============================================================
    // $2122 - CGDATA (Write-twice)
    // ============================================================

    /// Feeds one byte to the colour data port.
    pub fn write_data(&mut self, regs: &mut PPURegisters, value: u8)
        ensures
            *final(self) == write_data_spec(*old(self), old(regs).cgram_latch, value).0,
            *final(regs) == (PPURegisters {
                cgram_latch: write_data_spec(*old(self), old(regs).cgram_latch, value).1,
                ..*old(regs)
            }),
    {
        broadcast use vstd::array::group_array_axioms;
        if let Some((l, h)) = regs.cgram_latch.write(value) {
            proof {
                crate::bits::lemma_byte_masks(h);
            }
            let idx = self.word_addr as usize;
            self.memory[idx] = word(l, h & 0x7F);
            self.word_addr = self.word_addr.wrapping_add(1);
        }
        self.ppu_open_bus = value;
    }

    // ============================================================
    // $213B - CGDATAREAD
    // ============================================================

    /// Reads one byte from the colour data port.
    pub fn read_data(&mut self, regs: &mut PPURegisters) -> (r: u8)
        ensures
            r == read_value_spec(*old(self), old(regs).cgram_latch),
            *final(self) == read_data_spec(*old(self), old(regs).cgram_latch).0,
            *final(regs) == (PPURegisters {
                cgram_latch: read_data_spec(*old(self), old(regs).cgram_latch).1,
                ..*old(regs)
            }),
    {
        broadcast use vstd::array::group_array_axioms;
        let w = self.memory[self.word_addr as usize];
        let value = match regs.cgram_latch.phase {
            BytePhase::Low => lo(w),
            BytePhase::High => hi(w) | (self.ppu_open_bus & 0x80),
        };

        if regs.cgram_latch.phase.is_high() {
            self.word_addr = self.word_addr.wrapping_add(1);
        }
        regs.cgram_latch.phase.flip();
        self.ppu_open_bus = value;
        value
    }

    // ============================================================
    // Helpers
    // ============================================================

    /// The raw word at `word_index`, with no side effect.
    pub fn read(&self, word_index: u8) -> (r: u16)
        ensures
            r == self.memory@[word_index as int],
    {
        broadcast use vstd::array::group_array_axioms;
        self.memory[word_index as usize]
    }
}


/// A colour written through $2121/$2122 reads back through $2121/$213B: the
/// low byte exactly, and the high byte up to bit 7, which CGRAM does not store
/// and which the read takes from the open bus instead.
pub proof fn lemma_colour_round_trip(c: CGRAM, latch: WriteTwice, addr: u8, low: u8, high: u8)
    ensures
        ({
            let c1 = CGRAM { word_addr: addr, ..c };
            let l1 = latch.after_reset();
            let (c2, l2) = write_data_spec(c1, l1, low);
            let (c3, l3) = write_data_spec(c2, l2, high);
            let c4 = CGRAM { word_addr: addr, ..c3 };
            let l4 = l3.after_reset();
            let first = read_value_spec(c4, l4);
            let (c5, l5) = read_data_spec(c4, l4);
            let second = read_value_spec(c5, l5);
            &&& first == low
            &&& second % 128 == high % 128
            &&& c3.memory@[addr as int] == word_spec(low, (high % 128) as u8)
        }),
{
    broadcast use vstd::array::group_array_axioms;
    crate::word::lemma_word_bytes(0);
    let c1 = CGRAM { word_addr: addr, ..c };
    let l1 = latch.after_reset();
    let (c2, l2) = write_data_spec(c1, l1, low);
    let (c3, l3) = write_data_spec(c2, l2, high);
    let c4 = CGRAM { word_addr: addr, ..c3 };
    let l4 = l3.after_reset();
    let (c5, l5) = read_data_spec(c4, l4);
    let w = c5.memory@[addr as int];
    assert(w == word_spec(low, (high % 128) as u8));
    let hb = hi_spec(w);
    assert(hb == high % 128);
    let ob = c5.ppu_open_bus;
    assert(hb < 128 ==> (hb | (ob & 0x80)) % 128 == hb) by (bit_vector);
}

} // verus!
