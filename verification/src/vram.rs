use vstd::prelude::*;

use crate::registers::PPURegisters;
use crate::word::{hi, hi_spec, lo, lo_spec, word, word_spec};

verus! {

/// Number of 16-bit words in VRAM (64 KB).
pub const VRAM_WORDS: usize = 0x8000;

/// Video RAM, stored as 16-bit words, with the word latch that data-port
/// reads go through.
pub struct VRAM {
    /// VRAM stored as u16 words
    pub memory: Vec<u16>,
    /// Word latch for reads
    pub vram_latch: u16,
}

// ============================================================
// Model of the VMADD / VMAIN address logic
// ============================================================

/// The word that a 16-bit VMADD value selects: the address wraps at 15 bits.
pub open spec fn vram_index(vmadd: u16) -> int {
    vmadd as int % 0x8000
}

/// Step added to VMADD by an incrementing access, selected by VMAIN bits 1-0.
pub open spec fn increment_spec(vmain: u8) -> u16 {
    if vmain % 4 == 0 {
        1
    } else if vmain % 4 == 1 {
        32
    } else {
        128
    }
}

/// VMAIN bit 7 clear: the address steps after the low-byte access.
pub open spec fn after_low_spec(vmain: u8) -> bool {
    vmain < 0x80
}

/// VMADD after one step: advanced by the increment, wrapped to 15 bits.
pub open spec fn advance_spec(vmadd: u16, vmain: u8) -> u16 {
    ((vmadd + increment_spec(vmain)) % 0x8000) as u16
}

/// `w` with its low byte replaced by `b`.
pub open spec fn with_lo(w: u16, b: u8) -> u16 {
    word_spec(b, hi_spec(w))
}

/// `w` with its high byte replaced by `b`.
pub open spec fn with_hi(w: u16, b: u8) -> u16 {
    word_spec(lo_spec(w), b)
}

/// Memory after a low-byte store at the word VMADD selects.
pub open spec fn store_lo(mem: Seq<u16>, vmadd: u16, b: u8) -> Seq<u16> {
    mem.update(vram_index(vmadd), with_lo(mem[vram_index(vmadd)], b))
}

/// Memory after a high-byte store at the word VMADD selects.
pub open spec fn store_hi(mem: Seq<u16>, vmadd: u16, b: u8) -> Seq<u16> {
    mem.update(vram_index(vmadd), with_hi(mem[vram_index(vmadd)], b))
}

/// VMADD after an access that steps it when `steps` holds.
pub open spec fn step_if(vmadd: u16, vmain: u8, steps: bool) -> u16 {
    if steps {
        advance_spec(vmadd, vmain)
    } else {
        vmadd
    }
}

/// Memory and VMADD after a full-word write through $2118/$2119: low byte
/// first, then high byte, each followed by the step VMAIN selects for it.
pub open spec fn write_word_spec(mem: Seq<u16>, vmadd: u16, vmain: u8, value: u16) -> (
    Seq<u16>,
    u16,
) {
    let m1 = store_lo(mem, vmadd, lo_spec(value));
    let a1 = step_if(vmadd, vmain, after_low_spec(vmain));
    let m2 = store_hi(m1, a1, hi_spec(value));
    let a2 = step_if(a1, vmain, !after_low_spec(vmain));
    (m2, a2)
}

/// Result, latch and VMADD after a full-word read through $2139/$213A: the
/// low byte of the latch, a step (and reload) if VMAIN says so, then the high
/// byte of the latch, and a step (and reload) if VMAIN says so.
pub open spec fn read_word_spec(mem: Seq<u16>, latch: u16, vmadd: u16, vmain: u8) -> (
    u16,
    u16,
    u16,
) {
    let low = lo_spec(latch);
    let a1 = step_if(vmadd, vmain, after_low_spec(vmain));
    let l1 = if after_low_spec(vmain) {
        mem[vram_index(a1)]
    } else {
        latch
    };
    let high = hi_spec(l1);
    let a2 = step_if(a1, vmain, !after_low_spec(vmain));
    let l2 = if !after_low_spec(vmain) {
        mem[vram_index(a2)]
    } else {
        l1
    };
    (word_spec(low, high), l2, a2)
}

impl VRAM {
    /// VRAM holds exactly its 0x8000 words.
    pub open spec fn wf(&self) -> bool {
        self.memory@.len() == VRAM_WORDS
    }

    /// Zeroed memory and latch.
    pub fn new() -> (r: Self)
        ensures
            r.wf(),
            forall|i: int| 0 <= i < VRAM_WORDS ==> r.memory@[i] == 0,
            r.vram_latch == 0,
    {
        Self { memory: vec![0u16; VRAM_WORDS], vram_latch: 0 }
    }

    // ============================================================
    // Address increment logic
    // ============================================================

    /// Step of an incrementing access: 1, 32 or 128 words by VMAIN bits 1-0.
    pub fn increment_amount(regs: &PPURegisters) -> (r: u16)
        ensures
            r == increment_spec(regs.vmain),
    {
        let m = regs.vmain;
        proof {
            crate::bits::lemma_byte_masks(m);
        }
        match regs.vmain & 0b11 {
            0 => 1,
            1 => 32,
            _ => 128,
        }
    }

    /// Whether accesses step the address after the low byte (VMAIN bit 7 clear).
    pub fn increment_after_low(regs: &PPURegisters) -> (r: bool)
        ensures
            r == after_low_spec(regs.vmain),
    {
        let m = regs.vmain;
        proof {
            crate::bits::lemma_byte_masks(m);
        }
        (regs.vmain & 0x80) == 0
    }

    /// Whether accesses step the address after the high byte (VMAIN bit 7 set).
    pub fn increment_after_high(regs: &PPURegisters) -> (r: bool)
        ensures
            r == !after_low_spec(regs.vmain),
    {
        let m = regs.vmain;
        proof {
            crate::bits::lemma_byte_masks(m);
        }
        (regs.vmain & 0x80) != 0
    }

    /// Advances VMADD by the configured step, wrapping at 15 bits.
    pub fn increment_vmadd(regs: &mut PPURegisters)
        ensures
            *final(regs) == (PPURegisters {
                vmadd: advance_spec(old(regs).vmadd, old(regs).vmain),
                ..*old(regs)
            }),
    {
        let amount = Self::increment_amount(regs);
        let sum = regs.vmadd.wrapping_add(amount);
        proof {
            crate::bits::lemma_low15(sum);
        }
        regs.vmadd = sum & 0x7FFF;
    }

    // ============================================================
    // VMADD ($2116 / $2117)
    // ============================================================

    /// Sets VMADD (bit 15 dropped) and loads the latch from the new address.
    pub fn write_vmadd(&mut self, regs: &mut PPURegisters, addr: u16)
        requires
            old(self).wf(),
        ensures
            final(self).wf(),
            *final(regs) == (PPURegisters { vmadd: (addr % 0x8000) as u16, ..*old(regs) }),
            final(self).memory@ == old(self).memory@,
            final(self).vram_latch == old(self).memory@[vram_index(addr)],
    {
        proof {
            crate::bits::lemma_low15(addr);
        }
        regs.vmadd = addr & 0x7FFF;
        self.load_latch(regs.vmadd);
    }

    /// Sets the low byte of VMADD and loads the latch from the new address.
    pub fn write_vmadd_low(&mut self, regs: &mut PPURegisters, value: u8)
        requires
            old(self).wf(),
        ensures
            final(self).wf(),
            *final(regs) == (PPURegisters { vmadd: with_lo(old(regs).vmadd, value), ..*old(regs) }),
            final(self).memory@ == old(self).memory@,
            final(self).vram_latch == old(self).memory@[vram_index(final(regs).vmadd)],
    {
        regs.vmadd = word(value, hi(regs.vmadd));
        self.load_latch(regs.vmadd);
    }

    /// Sets the high byte of VMADD (bit 7 dropped) and loads the latch from
    /// the new address.
    pub fn write_vmadd_high(&mut self, regs: &mut PPURegisters, value: u8)
        requires
            old(self).wf(),
        ensures
            final(self).wf(),
            *final(regs) == (PPURegisters {
                vmadd: with_hi(old(regs).vmadd, value % 128),
                ..*old(regs)
            }),
            final(self).memory@ == old(self).memory@,
            final(self).vram_latch == old(self).memory@[vram_index(final(regs).vmadd)],
    {
        proof {
            crate::bits::lemma_byte_masks(value);
        }
        regs.vmadd = word(lo(regs.vmadd), value & 0x7F);
        self.load_latch(regs.vmadd);
    }

    // ============================================================
    // VRAM DATA WRITE ($2118 / $2119)
    // ============================================================

    /// Writes a full word: low byte then high byte, stepping VMADD after
    /// whichever byte VMAIN names.
    pub fn write_vmdata(&mut self, regs: &mut PPURegisters, value: u16)
        requires
            old(self).wf(),
        ensures
            final(self).wf(),
            final(self).memory@ == write_word_spec(
                old(self).memory@,
                old(regs).vmadd,
                old(regs).vmain,
                value,
            ).0,
            *final(regs) == (PPURegisters {
                vmadd: write_word_spec(old(self).memory@, old(regs).vmadd, old(regs).vmain, value).1,
                ..*old(regs)
            }),
            final(self).vram_latch == old(self).vram_latch,
    {
        self.write_vmdatal(regs, lo(value));
        self.write_vmdatah(regs, hi(value));
    }

    /// Writes the low byte of the addressed word ($2118).
    pub fn write_vmdatal(&mut self, regs: &mut PPURegisters, value: u8)
        requires
            old(self).wf(),
        ensures
            final(self).wf(),
            final(self).memory@ == store_lo(old(self).memory@, old(regs).vmadd, value),
            *final(regs) == (PPURegisters {
                vmadd: step_if(old(regs).vmadd, old(regs).vmain, after_low_spec(old(regs).vmain)),
                ..*old(regs)
            }),
            final(self).vram_latch == old(self).vram_latch,
    {
        let a = regs.vmadd;
        proof {
            crate::bits::lemma_low15(a);
        }
        let addr = (regs.vmadd & 0x7FFF) as usize;
        let old_word = self.memory[addr];
        self.memory[addr] = word(value, hi(old_word));
        if Self::increment_after_low(regs) {
            Self::increment_vmadd(regs);
        }
    }

    /// Writes the high byte of the addressed word ($2119).
    pub fn write_vmdatah(&mut self, regs: &mut PPURegisters, value: u8)
        requires
            old(self).wf(),
        ensures
            final(self).wf(),
            final(self).memory@ == store_hi(old(self).memory@, old(regs).vmadd, value),
            *final(regs) == (PPURegisters {
                vmadd: step_if(old(regs).vmadd, old(regs).vmain, !after_low_spec(old(regs).vmain)),
                ..*old(regs)
            }),
            final(self).vram_latch == old(self).vram_latch,
    {
        let a = regs.vmadd;
        proof {
            crate::bits::lemma_low15(a);
        }
        let addr = (regs.vmadd & 0x7FFF) as usize;
        let old_word = self.memory[addr];
        self.memory[addr] = word(lo(old_word), value);
        if Self::increment_after_high(regs) {
            Self::increment_vmadd(regs);
        }
    }

    // ============================================================
    // VRAM DATA READ ($2139 / $213A)
    // ============================================================

    /// Reads a full word through the latch: low byte then high byte, stepping
    /// VMADD (and reloading the latch) after whichever byte VMAIN names.
    pub fn read_vmdata(&mut self, regs: &mut PPURegisters) -> (r: u16)
        requires
            old(self).wf(),
        ensures
            final(self).wf(),
            final(self).memory@ == old(self).memory@,
            r == read_word_spec(old(self).memory@, old(self).vram_latch, old(regs).vmadd, old(regs).vmain).0,
            final(self).vram_latch == read_word_spec(
                old(self).memory@,
                old(self).vram_latch,
                old(regs).vmadd,
                old(regs).vmain,
            ).1,
            *final(regs) == (PPURegisters {
                vmadd: read_word_spec(old(self).memory@, old(self).vram_latch, old(regs).vmadd, old(regs).vmain).2,
                ..*old(regs)
            }),
    {
        let low = lo(self.vram_latch);

        if Self::increment_after_low(regs) {
            Self::increment_vmadd(regs);
            self.load_latch(regs.vmadd);
        }

        let high = hi(self.vram_latch);

        if Self::increment_after_high(regs) {
            Self::increment_vmadd(regs);
            self.load_latch(regs.vmadd);
        }

        word(low, high)
    }

    /// Reads the low byte of the latch ($2139); steps VMADD and reloads the
    /// latch when VMAIN says the low byte steps.
    pub fn read_vmdatal(&mut self, regs: &mut PPURegisters) -> (r: u8)
        requires
            old(self).wf(),
        ensures
            final(self).wf(),
            final(self).memory@ == old(self).memory@,
            r == lo_spec(old(self).vram_latch),
            *final(regs) == (PPURegisters {
                vmadd: step_if(old(regs).vmadd, old(regs).vmain, after_low_spec(old(regs).vmain)),
                ..*old(regs)
            }),
            final(self).vram_latch == if after_low_spec(old(regs).vmain) {
                old(self).memory@[vram_index(final(regs).vmadd)]
            } else {
                old(self).vram_latch
            },
    {
        let value = lo(self.vram_latch);

        if Self::increment_after_low(regs) {
            Self::increment_vmadd(regs);
            self.load_latch(regs.vmadd);
        }

        value
    }

    /// Reads the high byte of the latch ($213A); steps VMADD and reloads the
    /// latch when VMAIN says the high byte steps.
    pub fn read_vmdatah(&mut self, regs: &mut PPURegisters) -> (r: u8)
        requires
            old(self).wf(),
        ensures
            final(self).wf(),
            final(self).memory@ == old(self).memory@,
            r == hi_spec(old(self).vram_latch),
            *final(regs) == (PPURegisters {
                vmadd: step_if(old(regs).vmadd, old(regs).vmain, !after_low_spec(old(regs).vmain)),
                ..*old(regs)
            }),
            final(self).vram_latch == if !after_low_spec(old(regs).vmain) {
                old(self).memory@[vram_index(final(regs).vmadd)]
            } else {
                old(self).vram_latch
            },
    {
        let value = hi(self.vram_latch);

        if Self::increment_after_high(regs) {
            Self::increment_vmadd(regs);
            self.load_latch(regs.vmadd);
        }

        value
    }

    // ============================================================
    // Helpers
    // ============================================================

    /// Loads the latch from the word `vmadd` selects.
    pub fn load_latch(&mut self, vmadd: u16)
        requires
            old(self).wf(),
        ensures
            final(self).wf(),
            final(self).memory@ == old(self).memory@,
            final(self).vram_latch == old(self).memory@[vram_index(vmadd)],
    {
        proof {
            crate::bits::lemma_low15(vmadd);
        }
        self.vram_latch = self.memory[(vmadd & 0x7FFF) as usize];
    }
}

/// A word written through the data port at a 15-bit address reads back
/// unchanged through the data port once VMADD is set to that address again
/// (which reloads the latch), in either step mode: when the address steps
/// after the high byte both bytes share the word at `addr`; when it steps
/// after the low byte the high byte goes to the next word, and the read
/// takes it from there.
pub proof fn lemma_word_round_trip(mem: Seq<u16>, addr: u16, vmain: u8, value: u16)
    requires
        mem.len() == VRAM_WORDS,
        addr < 0x8000,
    ensures
        ({
            let (written, _) = write_word_spec(mem, addr, vmain, value);
            let latch = written[vram_index(addr)];
            read_word_spec(written, latch, addr, vmain).0 == value
        }),
{
    crate::word::lemma_word_bytes(value);
    let m1 = store_lo(mem, addr, lo_spec(value));
    if !after_low_spec(vmain) {
        let m2 = store_hi(m1, addr, hi_spec(value));
        let w = m2[vram_index(addr)];
        assert(w == with_hi(with_lo(mem[vram_index(addr)], lo_spec(value)), hi_spec(value)));
        crate::word::lemma_word_bytes(with_lo(mem[vram_index(addr)], lo_spec(value)));
        crate::word::lemma_word_bytes(w);
    } else {
        let a1 = advance_spec(addr, vmain);
        assert(vram_index(a1) != vram_index(addr));
        let m2 = store_hi(m1, a1, hi_spec(value));
        assert(m2[vram_index(addr)] == with_lo(mem[vram_index(addr)], lo_spec(value)));
        assert(m2[vram_index(a1)] == with_hi(m1[vram_index(a1)], hi_spec(value)));
        crate::word::lemma_word_bytes(mem[vram_index(addr)]);
        crate::word::lemma_word_bytes(m1[vram_index(a1)]);
        crate::word::lemma_word_bytes(m2[vram_index(addr)]);
        crate::word::lemma_word_bytes(m2[vram_index(a1)]);
    }
}

/// Every step keeps VMADD inside the 15-bit VRAM address space.
pub proof fn lemma_advance_in_range(vmadd: u16, vmain: u8)
    ensures
        advance_spec(vmadd, vmain) < 0x8000,
        vram_index(advance_spec(vmadd, vmain)) == advance_spec(vmadd, vmain),
{
}

} // verus!
