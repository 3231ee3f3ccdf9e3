use vstd::prelude::*;

use crate::cgram::{read_data_spec, read_value_spec, write_data_spec, CGRAM};
use crate::constants::{
    HBLANK_START_DOT, MASTER_CYCLES_PER_SCANLINE, SCANLINES_PER_FRAME, SCREEN_HEIGHT,
    VBLANK_START_LINE, VBLANK_START_LINE_OVERSCAN,
};
use crate::oam::{self, OAM};
use crate::registers::PPURegisters;
use crate::vram::{after_low_spec, step_if, store_hi, store_lo, vram_index, with_hi, with_lo, VRAM};
use crate::word::{hi_spec, lo_spec, word, word_spec};

verus! {

/// What a master cycle crossed.
#[derive(Clone, Copy, PartialEq, Eq, Debug, Structural)]
pub enum PpuEvent {
    /// Nothing crossed.
    Nothing,
    /// A new dot began mid-scanline.
    DotStart,
    /// A new dot began, and it is the first dot of H-Blank.
    HBlankStart,
    /// A new scanline began. Implies a new dot and the end of H-Blank.
    ScanlineStart(ScanlineKind),
}

/// The kind of scanline that began.
#[derive(Clone, Copy, PartialEq, Eq, Debug, Structural)]
pub enum ScanlineKind {
    /// Any line that isn't a V-Blank boundary, visible or not.
    Normal,
    /// First line of V-Blank (225, or 240 with overscan).
    VBlankStart,
    /// Line 0: V-Blank ends and a new frame begins.
    FrameStart,
}

/// The picture processing unit: registers, video memories and beam position.
pub struct PPU {
    pub regs: PPURegisters,
    pub vram: VRAM,
    pub cgram: CGRAM,
    pub oam: OAM,
    // Timing
    pub scanline: u16,
    /// Master cycles elapsed inside the current scanline (0..1364).
    pub h_cycles: u32,
    pub frame: u64,
    pub odd_frame: bool,
}

// ============================================================
// Register writes
// ============================================================

/// Low byte committed by a BGnHOFS write: bits 7-3 of the shared offset latch
/// and bits 2-0 of the horizontal latch.
pub open spec fn hofs_low(r: PPURegisters) -> u8 {
    (r.bgofs_latch & 0xF8) | (r.bghofs_latch & 0x07)
}

/// A 10-bit background scroll value: `low`, and bits 1-0 of `value` above it.
pub open spec fn scroll_word(low: u8, value: u8) -> u16 {
    word_spec(low, value & 0x03)
}

/// Registers after a write of `value` to a register that lives in the
/// register file alone (every address but the VRAM and CGRAM ports).
/// Unhandled addresses leave the registers as they are.
pub open spec fn regs_write_spec(r: PPURegisters, addr: u16, value: u8) -> PPURegisters {
    if addr == 0x2100 {
        PPURegisters { inidisp: value, ..r }
    } else if addr == 0x2133 {
        PPURegisters { setini: value, ..r }
    } else if addr == 0x2101 {
        PPURegisters { objsel: value, ..r }
    } else if addr == 0x2102 {
        PPURegisters { oamadd: with_lo(r.oamadd, value), ..r }
    } else if addr == 0x2103 {
        PPURegisters { oamadd: with_hi(r.oamadd, value & 0x01), ..r }
    } else if addr == 0x2104 {
        PPURegisters { oamdata: value, ..r }
    } else if addr == 0x2105 {
        PPURegisters { bgmode: value, ..r }
    } else if addr == 0x2106 {
        PPURegisters { mosaic: value, ..r }
    } else if 0x2107 <= addr <= 0x210A {
        PPURegisters { bgsc: vstd::array::spec_array_update(r.bgsc, addr - 0x2107, value), ..r }
    } else if addr == 0x210B {
        PPURegisters { bg12nba: value, ..r }
    } else if addr == 0x210C {
        PPURegisters { bg34nba: value, ..r }
    } else if addr == 0x210D {
        PPURegisters {
            bg1hofs: scroll_word(hofs_low(r), value),
            m7hofs: word_spec(r.mode7_latch, value),
            bgofs_latch: value,
            bghofs_latch: value,
            mode7_latch: value,
            ..r
        }
    } else if addr == 0x210E {
        PPURegisters {
            bg1vofs: scroll_word(r.bgofs_latch, value),
            m7vofs: word_spec(r.mode7_latch, value),
            bgofs_latch: value,
            mode7_latch: value,
            ..r
        }
    } else if addr == 0x210F || addr == 0x2111 || addr == 0x2113 {
        PPURegisters {
            bghofs: vstd::array::spec_array_update(
                r.bghofs,
                (addr - 0x210F) / 2,
                scroll_word(hofs_low(r), value),
            ),
            bgofs_latch: value,
            bghofs_latch: value,
            ..r
        }
    } else if addr == 0x2110 || addr == 0x2112 || addr == 0x2114 {
        PPURegisters {
            bgvofs: vstd::array::spec_array_update(
                r.bgvofs,
                (addr - 0x2110) / 2,
                scroll_word(r.bgofs_latch, value),
            ),
            bgofs_latch: value,
            ..r
        }
    } else if addr == 0x2115 {
        PPURegisters { vmain: value, ..r }
    } else if addr == 0x211A {
        PPURegisters { m7sel: value, ..r }
    } else if addr == 0x211B {
        PPURegisters { m7a: word_spec(r.mode7_latch, value), mode7_latch: value, ..r }
    } else if addr == 0x211C {
        PPURegisters { m7b: word_spec(r.mode7_latch, value), mode7_latch: value, ..r }
    } else if addr == 0x211D {
        PPURegisters { m7c: word_spec(r.mode7_latch, value), mode7_latch: value, ..r }
    } else if addr == 0x211E {
        PPURegisters { m7d: word_spec(r.mode7_latch, value), mode7_latch: value, ..r }
    } else if addr == 0x211F {
        PPURegisters { m7x: word_spec(r.mode7_latch, value), mode7_latch: value, ..r }
    } else if addr == 0x2120 {
        PPURegisters { m7y: word_spec(r.mode7_latch, value), mode7_latch: value, ..r }
    } else if addr == 0x2123 {
        PPURegisters { w12sel: value, ..r }
    } else if addr == 0x2124 {
        PPURegisters { w34sel: value, ..r }
    } else if addr == 0x2125 {
        PPURegisters { wobjsel: value, ..r }
    } else if addr == 0x2126 {
        PPURegisters { wh0: value, ..r }
    } else if addr == 0x2127 {
        PPURegisters { wh1: value, ..r }
    } else if addr == 0x2128 {
        PPURegisters { wh2: value, ..r }
    } else if addr == 0x2129 {
        PPURegisters { wh3: value, ..r }
    } else if addr == 0x212A {
        PPURegisters { wbglog: value, ..r }
    } else if addr == 0x212B {
        PPURegisters { wobjlog: value, ..r }
    } else if addr == 0x212C {
        PPURegisters { tm: value, ..r }
    } else if addr == 0x212D {
        PPURegisters { ts: value, ..r }
    } else if addr == 0x212E {
        PPURegisters { tmw: value, ..r }
    } else if addr == 0x212F {
        PPURegisters { tsw: value, ..r }
    } else if addr == 0x2130 {
        PPURegisters { cgwsel: value, ..r }
    } else if addr == 0x2131 {
        PPURegisters { cgadsub: value, ..r }
    } else if addr == 0x2132 {
        PPURegisters { coldata: value, ..r }
    } else {
        r
    }
}

/// Addresses served by the VRAM ports ($2116-$2119).
pub open spec fn is_vram_write_port(addr: u16) -> bool {
    0x2116 <= addr <= 0x2119
}

/// Addresses served by the CGRAM ports ($2121-$2122).
pub open spec fn is_cgram_write_port(addr: u16) -> bool {
    addr == 0x2121 || addr == 0x2122
}

// ============================================================
// Timing
// ============================================================

/// Master cycles in the current scanline: non-interlace odd frames shorten
/// scanline 240 to 1360 cycles.
pub open spec fn scanline_length_spec(odd_frame: bool, scanline: u16) -> u32 {
    if odd_frame && scanline == 240 {
        (MASTER_CYCLES_PER_SCANLINE - 4) as u32
    } else {
        MASTER_CYCLES_PER_SCANLINE
    }
}

/// First line of V-Blank: 240 with overscan (SETINI bit 2), 225 otherwise.
pub open spec fn vblank_start_line_spec(setini: u8) -> u16 {
    if (setini / 4) % 2 == 1 {
        VBLANK_START_LINE_OVERSCAN
    } else {
        VBLANK_START_LINE
    }
}

/// The dot a master-cycle count falls in: four cycles per dot.
pub open spec fn dot_spec(h_cycles: u32) -> u16 {
    (h_cycles / 4) as u16
}

/// How a write of `value` to register `addr` changes the PPU (see [`PPU::write`]).
pub open spec fn write_effect(old: PPU, new: PPU, addr: u16, value: u8) -> bool {
    &&& (new.same_timing(&old))
    &&& (!is_vram_write_port(addr) && !is_cgram_write_port(addr) ==> {
                &&& new.regs == regs_write_spec(old.regs, addr, value)
                &&& new.vram.memory@ == old.vram.memory@
                &&& new.vram.vram_latch == old.vram.vram_latch
                &&& new.cgram == old.cgram
                &&& new.oam == if addr == 0x2102 || addr == 0x2103 {
                    oam::write_addr_spec(old.oam, new.regs.oamadd)
                } else if addr == 0x2104 {
                    oam::write_data_spec(old.oam, value)
                } else {
                    old.oam
                }
            })
    &&& (is_vram_write_port(addr) || is_cgram_write_port(addr) ==> new.oam == old.oam)
    &&& (is_vram_write_port(addr) ==> new.cgram == old.cgram)
    &&& (is_cgram_write_port(addr) ==> {
                &&& new.vram.memory@ == old.vram.memory@
                &&& new.vram.vram_latch == old.vram.vram_latch
            })
    &&& (addr == 0x2116 ==> {
                &&& new.regs == (PPURegisters {
                    vmadd: with_lo(old.regs.vmadd, value),
                    ..old.regs
                })
                &&& new.vram.memory@ == old.vram.memory@
                &&& new.vram.vram_latch == old.vram.memory@[vram_index(
                    new.regs.vmadd,
                )]
            })
    &&& (addr == 0x2117 ==> {
                &&& new.regs == (PPURegisters {
                    vmadd: with_hi(old.regs.vmadd, value % 128),
                    ..old.regs
                })
                &&& new.vram.memory@ == old.vram.memory@
                &&& new.vram.vram_latch == old.vram.memory@[vram_index(
                    new.regs.vmadd,
                )]
            })
    &&& (addr == 0x2118 ==> {
                &&& new.regs == (PPURegisters {
                    vmadd: step_if(
                        old.regs.vmadd,
                        old.regs.vmain,
                        after_low_spec(old.regs.vmain),
                    ),
                    ..old.regs
                })
                &&& new.vram.memory@ == store_lo(
                    old.vram.memory@,
                    old.regs.vmadd,
                    value,
                )
                &&& new.vram.vram_latch == old.vram.vram_latch
            })
    &&& (addr == 0x2119 ==> {
                &&& new.regs == (PPURegisters {
                    vmadd: step_if(
                        old.regs.vmadd,
                        old.regs.vmain,
                        !after_low_spec(old.regs.vmain),
                    ),
                    ..old.regs
                })
                &&& new.vram.memory@ == store_hi(
                    old.vram.memory@,
                    old.regs.vmadd,
                    value,
                )
                &&& new.vram.vram_latch == old.vram.vram_latch
            })
    &&& (addr == 0x2121 ==> {
                &&& new.cgram == (CGRAM { word_addr: value, ..old.cgram })
                &&& new.regs == (PPURegisters {
                    cgram_latch: old.regs.cgram_latch.after_reset(),
                    ..old.regs
                })
            })
    &&& (addr == 0x2122 ==> {
                &&& new.cgram == write_data_spec(
                    old.cgram,
                    old.regs.cgram_latch,
                    value,
                ).0
                &&& new.regs == (PPURegisters {
                    cgram_latch: write_data_spec(
                        old.cgram,
                        old.regs.cgram_latch,
                        value,
                    ).1,
                    ..old.regs
                })
            })
}

/// How a read of register `addr` returning `r` changes the PPU (see [`PPU::read`]).
pub open spec fn read_effect(old: PPU, new: PPU, addr: u16, r: u8) -> bool {
    &&& (new.same_timing(&old))
    &&& (new.oam == old.oam)
    &&& (new.vram.memory@ == old.vram.memory@)
    &&& (addr == 0x2139 ==> {
                &&& r == lo_spec(old.vram.vram_latch)
                &&& new.regs == (PPURegisters {
                    vmadd: step_if(
                        old.regs.vmadd,
                        old.regs.vmain,
                        after_low_spec(old.regs.vmain),
                    ),
                    ..old.regs
                })
                &&& new.vram.vram_latch == if after_low_spec(old.regs.vmain) {
                    old.vram.memory@[vram_index(new.regs.vmadd)]
                } else {
                    old.vram.vram_latch
                }
                &&& new.cgram == old.cgram
            })
    &&& (addr == 0x213A ==> {
                &&& r == hi_spec(old.vram.vram_latch)
                &&& new.regs == (PPURegisters {
                    vmadd: step_if(
                        old.regs.vmadd,
                        old.regs.vmain,
                        !after_low_spec(old.regs.vmain),
                    ),
                    ..old.regs
                })
                &&& new.vram.vram_latch == if !after_low_spec(old.regs.vmain) {
                    old.vram.memory@[vram_index(new.regs.vmadd)]
                } else {
                    old.vram.vram_latch
                }
                &&& new.cgram == old.cgram
            })
    &&& (addr == 0x213B ==> {
                &&& r == read_value_spec(old.cgram, old.regs.cgram_latch)
                &&& new.cgram == read_data_spec(old.cgram, old.regs.cgram_latch).0
                &&& new.regs == (PPURegisters {
                    cgram_latch: read_data_spec(old.cgram, old.regs.cgram_latch).1,
                    ..old.regs
                })
                &&& new.vram.vram_latch == old.vram.vram_latch
            })
    &&& (addr != 0x2139 && addr != 0x213A && addr != 0x213B ==> {
                &&& r == 0
                &&& new.regs == old.regs
                &&& new.cgram == old.cgram
                &&& new.vram.vram_latch == old.vram.vram_latch
            })
}

/// The beam position and frame parity of a PPU.
pub struct Beam {
    pub scanline: u16,
    pub h_cycles: u32,
    pub frame: u64,
    pub odd_frame: bool,
}

/// The beam of `p`.
pub open spec fn beam_of(p: &PPU) -> Beam {
    Beam { scanline: p.scanline, h_cycles: p.h_cycles, frame: p.frame, odd_frame: p.odd_frame }
}

/// The beam inside its frame: a scanline of the frame, and a cycle inside
/// that scanline.
pub open spec fn beam_in_frame(b: Beam) -> bool {
    &&& b.scanline < SCANLINES_PER_FRAME
    &&& b.h_cycles < scanline_length_spec(b.odd_frame, b.scanline)
}

/// One master cycle: the beam advances one cycle; at the end of a scanline
/// it moves to the start of the next one, and after the last scanline to
/// scanline 0 of the next frame, which flips the frame parity. The event
/// says what the cycle crossed.
pub open spec fn tick_spec(b: Beam, setini: u8) -> (Beam, PpuEvent) {
    let h1 = b.h_cycles + 1;
    if h1 >= scanline_length_spec(b.odd_frame, b.scanline) {
        let s1 = b.scanline + 1;
        if s1 >= SCANLINES_PER_FRAME {
            (
                Beam {
                    scanline: 0,
                    h_cycles: 0,
                    frame: (b.frame + 1) as u64,
                    odd_frame: !b.odd_frame,
                },
                PpuEvent::ScanlineStart(ScanlineKind::FrameStart),
            )
        } else {
            (
                Beam { scanline: s1 as u16, h_cycles: 0, ..b },
                PpuEvent::ScanlineStart(
                    if s1 == vblank_start_line_spec(setini) {
                        ScanlineKind::VBlankStart
                    } else {
                        ScanlineKind::Normal
                    },
                ),
            )
        }
    } else {
        (
            Beam { h_cycles: h1 as u32, ..b },
            if dot_spec(h1 as u32) != dot_spec(b.h_cycles) {
                if dot_spec(h1 as u32) == HBLANK_START_DOT {
                    PpuEvent::HBlankStart
                } else {
                    PpuEvent::DotStart
                }
            } else {
                PpuEvent::Nothing
            },
        )
    }
}

/// The beam after `n` master cycles.
pub open spec fn run_spec(b: Beam, setini: u8, n: nat) -> Beam
    decreases n,
{
    if n == 0 {
        b
    } else {
        run_spec(tick_spec(b, setini).0, setini, (n - 1) as nat)
    }
}

/// Master cycles from the start of a frame to the start of scanline `j`.
pub open spec fn cycles_until(odd_frame: bool, j: int) -> int
    decreases j,
{
    if j <= 0 {
        0
    } else {
        cycles_until(odd_frame, j - 1) + scanline_length_spec(odd_frame, (j - 1) as u16)
    }
}

/// Master cycles in a frame: 262 scanlines of 1364 cycles, 4 fewer on odd
/// frames.
pub open spec fn frame_cycles(odd_frame: bool) -> int {
    SCANLINES_PER_FRAME * MASTER_CYCLES_PER_SCANLINE - if odd_frame {
        4int
    } else {
        0int
    }
}

impl PPU {
    /// VRAM holds all its words.
    pub open spec fn wf(&self) -> bool {
        self.vram.wf()
    }

    /// The beam sits inside the frame: a scanline of the frame, and a cycle
    /// inside that scanline.
    pub open spec fn in_frame(&self) -> bool {
        &&& self.scanline < SCANLINES_PER_FRAME
        &&& self.h_cycles < scanline_length_spec(self.odd_frame, self.scanline)
    }

    /// Everything but the registers, memories and beam position: unchanged.
    pub open spec fn same_timing(&self, other: &PPU) -> bool {
        &&& self.scanline == other.scanline
        &&& self.h_cycles == other.h_cycles
        &&& self.frame == other.frame
        &&& self.odd_frame == other.odd_frame
    }

    /// Same video memories as `other`.
    pub open spec fn same_memories(&self, other: &PPU) -> bool {
        &&& self.vram.memory@ == other.vram.memory@
        &&& self.vram.vram_latch == other.vram.vram_latch
        &&& self.cgram == other.cgram
        &&& self.oam == other.oam
    }

    /// The power-on state: registers and memories zeroed, the beam at the
    /// very start of scanline 0 of frame 0.
    pub open spec fn at_power_on(&self) -> bool {
        &&& self.wf()
        &&& self.in_frame()
        &&& self.regs.is_power_on()
        &&& forall|i: int| 0 <= i < crate::vram::VRAM_WORDS ==> self.vram.memory@[i] == 0
        &&& self.vram.vram_latch == 0
        &&& forall|i: int| 0 <= i < crate::cgram::CGRAM_WORDS ==> self.cgram.memory@[i] == 0
        &&& self.cgram.word_addr == 0
        &&& self.cgram.ppu_open_bus == 0
        &&& forall|i: int| 0 <= i < crate::oam::OAM_SIZE ==> self.oam.data@[i] == 0
        &&& self.oam.word_addr == 0
        &&& !self.oam.write_phase_high
        &&& self.scanline == 0
        &&& self.h_cycles == 0
        &&& self.frame == 0
        &&& !self.odd_frame
    }

    /// A PPU at power-on: registers and memories zeroed, at the very start of
    /// scanline 0 of frame 0.
    pub fn new() -> (r: Self)
        ensures
            r.at_power_on(),
            r.wf(),
            r.in_frame(),
            r.regs.is_power_on(),
            forall|i: int| 0 <= i < crate::vram::VRAM_WORDS ==> r.vram.memory@[i] == 0,
            r.vram.vram_latch == 0,
            forall|i: int| 0 <= i < crate::cgram::CGRAM_WORDS ==> r.cgram.memory@[i] == 0,
            r.cgram.word_addr == 0,
            r.cgram.ppu_open_bus == 0,
            forall|i: int| 0 <= i < crate::oam::OAM_SIZE ==> r.oam.data@[i] == 0,
            r.oam.word_addr == 0,
            !r.oam.write_phase_high,
            r.scanline == 0,
            r.h_cycles == 0,
            r.frame == 0,
            !r.odd_frame,
    {
        Self {
            regs: PPURegisters::new(),
            vram: VRAM::new(),
            cgram: CGRAM::new(),
            oam: OAM::new(),
            scanline: 0,
            h_cycles: 0,
            frame: 0,
            odd_frame: false,
        }
    }

    /// Handles a CPU write of `value` to PPU register `addr`.
    ///
    /// Registers that live in the register file alone take the value as
    /// [`regs_write_spec`] says; $2102-$2104 also drive the OAM port, the
    /// VRAM ports ($2116-$2119) and the CGRAM ports ($2121/$2122) go to their
    /// memories. Unhandled addresses change nothing.
    pub fn write(&mut self, addr: u16, value: u8)
        requires
            old(self).wf(),
        ensures
            final(self).wf(),
            write_effect(*old(self), *final(self), addr, value),
    {
        broadcast use vstd::array::group_array_axioms;
        match addr {
            // ==========================
            // DISPLAY
            // ==========================
            0x2100 => self.regs.inidisp = value,
            0x2133 => self.regs.setini = value,
            // ==========================
            // OAM
            // ==========================
            0x2101 => self.regs.objsel = value,
            0x2102 => {
                self.regs.oamadd = word(value, crate::word::hi(self.regs.oamadd));
                self.oam.write_addr(self.regs.oamadd);
            },
            0x2103 => {
                self.regs.oamadd = word(crate::word::lo(self.regs.oamadd), value & 0x01);
                self.oam.write_addr(self.regs.oamadd);
            },
            0x2104 => {
                self.regs.oamdata = value;
                self.oam.write_data(value);
            },
            // ==========================
            // BACKGROUNDS
            // ==========================
            0x2105 => self.regs.bgmode = value,
            0x2106 => self.regs.mosaic = value,
            0x2107 => self.regs.bgsc[0] = value,
            0x2108 => self.regs.bgsc[1] = value,
            0x2109 => self.regs.bgsc[2] = value,
            0x210A => self.regs.bgsc[3] = value,
            0x210B => self.regs.bg12nba = value,
            0x210C => self.regs.bg34nba = value,
            // BG1HOFS / M7HOFS - same address ($210D)
            0x210D => {
                // BG1HOFS (W8x2): result = (value << 8) | (bgofs_latch & ~7) | (bghofs_latch & 7)
                let lo = (self.regs.bgofs_latch & 0xF8) | (self.regs.bghofs_latch & 0x07);
                self.regs.bg1hofs = word(lo, value & 0x03);
                // M7HOFS (W8x2): result = (value << 8) | mode7_latch
                self.regs.m7hofs = word(self.regs.mode7_latch, value);
                // Update latches
                self.regs.bgofs_latch = value;
                self.regs.bghofs_latch = value;
                self.regs.mode7_latch = value;
            },
            // BG1VOFS / M7VOFS - same address ($210E)
            0x210E => {
                // BG1VOFS (W8x2): result = (value << 8) | bgofs_latch
                self.regs.bg1vofs = word(self.regs.bgofs_latch, value & 0x03);
                // M7VOFS (W8x2): result = (value << 8) | mode7_latch
                self.regs.m7vofs = word(self.regs.mode7_latch, value);
                // Update latches
                self.regs.bgofs_latch = value;
                self.regs.mode7_latch = value;
            },
            // BG2HOFS ($210F), BG3HOFS ($2111), BG4HOFS ($2113)
            0x210F | 0x2111 | 0x2113 => {
                let lo = (self.regs.bgofs_latch & 0xF8) | (self.regs.bghofs_latch & 0x07);
                let n = ((addr - 0x210F) / 2) as usize;
                self.regs.bghofs[n] = word(lo, value & 0x03);
                self.regs.bgofs_latch = value;
                self.regs.bghofs_latch = value;
            },
            // BG2VOFS ($2110), BG3VOFS ($2112), BG4VOFS ($2114)
            0x2110 | 0x2112 | 0x2114 => {
                let n = ((addr - 0x2110) / 2) as usize;
                self.regs.bgvofs[n] = word(self.regs.bgofs_latch, value & 0x03);
                self.regs.bgofs_latch = value;
            },
            // ==========================
            // VRAM
            // ==========================
            0x2115 => self.regs.vmain = value,
            0x2116 => self.vram.write_vmadd_low(&mut self.regs, value),
            0x2117 => self.vram.write_vmadd_high(&mut self.regs, value),
            0x2118 => self.vram.write_vmdatal(&mut self.regs, value),
            0x2119 => self.vram.write_vmdatah(&mut self.regs, value),
            // ==========================
            // Mode 7 (W8x2 via mode7_latch)
            // ==========================
            0x211A => self.regs.m7sel = value,
            0x211B => {
                self.regs.m7a = word(self.regs.mode7_latch, value);
                self.regs.mode7_latch = value;
            },
            0x211C => {
                self.regs.m7b = word(self.regs.mode7_latch, value);
                self.regs.mode7_latch = value;
            },
            0x211D => {
                self.regs.m7c = word(self.regs.mode7_latch, value);
                self.regs.mode7_latch = value;
            },
            0x211E => {
                self.regs.m7d = word(self.regs.mode7_latch, value);
                self.regs.mode7_latch = value;
            },
            0x211F => {
                self.regs.m7x = word(self.regs.mode7_latch, value);
                self.regs.mode7_latch = value;
            },
            0x2120 => {
                self.regs.m7y = word(self.regs.mode7_latch, value);
                self.regs.mode7_latch = value;
            },
            // ==========================
            // CGRAM
            // ==========================
            0x2121 => self.cgram.write_addr(&mut self.regs, value),
            0x2122 => self.cgram.write_data(&mut self.regs, value),
            // ==========================
            // Window
            // ==========================
            0x2123 => self.regs.w12sel = value,
            0x2124 => self.regs.w34sel = value,
            0x2125 => self.regs.wobjsel = value,
            0x2126 => self.regs.wh0 = value,
            0x2127 => self.regs.wh1 = value,
            0x2128 => self.regs.wh2 = value,
            0x2129 => self.regs.wh3 = value,
            0x212A => self.regs.wbglog = value,
            0x212B => self.regs.wobjlog = value,
            // ==========================
            // COLOR MATH / LAYER ENABLE
            // ==========================
            0x212C => self.regs.tm = value,
            0x212D => self.regs.ts = value,
            0x212E => self.regs.tmw = value,
            0x212F => self.regs.tsw = value,
            0x2130 => self.regs.cgwsel = value,
            0x2131 => self.regs.cgadsub = value,
            0x2132 => self.regs.coldata = value,
            // Registers not handled by the PPU: the write is ignored.
            _ => {},
        }
    }

    /// Handles a CPU read of PPU register `addr`.
    ///
    /// The VRAM data ports ($2139/$213A) and the CGRAM data port ($213B) are
    /// served by their memories; every other register reads as 0 and the
    /// read changes nothing.
    pub fn read(&mut self, addr: u16) -> (r: u8)
        requires
            old(self).wf(),
        ensures
            final(self).wf(),
            read_effect(*old(self), *final(self), addr, r),
    {
        match addr {
            // ==========================
            // VRAM
            // ==========================
            0x2139 => self.vram.read_vmdatal(&mut self.regs),
            0x213A => self.vram.read_vmdatah(&mut self.regs),
            // ==========================
            // CGRAM
            // ==========================
            0x213B => self.cgram.read_data(&mut self.regs),
            // Multiply, OAM, counters and status reads are not implemented,
            // and other addresses are not PPU registers: both read as 0.
            _ => 0,
        }
    }

    /// Current dot (0..339).
    pub fn dot(&self) -> (r: u16)
        ensures
            r == dot_spec(self.h_cycles),
    {
        (self.h_cycles / 4) as u16
    }

    /// Non-interlace odd frames shorten scanline 240 to 1360 cycles.
    pub fn scanline_length(&self) -> (r: u32)
        ensures
            r == scanline_length_spec(self.odd_frame, self.scanline),
    {
        if self.odd_frame && self.scanline == 240 {
            MASTER_CYCLES_PER_SCANLINE - 4
        } else {
            MASTER_CYCLES_PER_SCANLINE
        }
    }

    /// First line of V-Blank: 240 with overscan (SETINI bit 2), 225 otherwise.
    pub fn vblank_start_line(&self) -> (r: u16)
        ensures
            r == vblank_start_line_spec(self.regs.setini),
    {
        let s = self.regs.setini;
        proof {
            crate::bits::lemma_byte_masks(s);
        }
        if self.regs.setini & 0x04 != 0 {
            VBLANK_START_LINE_OVERSCAN
        } else {
            VBLANK_START_LINE
        }
    }

    /// Framebuffer row this scanline draws into, if it's a visible one.
    /// Scanline 0 is the dummy/pre-render line; 1..=224 are visible.
    pub fn visible_line(&self) -> (r: Option<usize>)
        ensures
            1 <= self.scanline <= SCREEN_HEIGHT ==> r == Some((self.scanline - 1) as usize),
            !(1 <= self.scanline <= SCREEN_HEIGHT) ==> r is None,
    {
        if 1 <= self.scanline && self.scanline <= SCREEN_HEIGHT as u16 {
            Some(self.scanline as usize - 1)
        } else {
            None
        }
    }

    /// Advance one master cycle, and report what the cycle crossed.
    pub fn tick(&mut self) -> (r: PpuEvent)
        requires
            old(self).h_cycles < u32::MAX,
            old(self).scanline < u16::MAX,
            old(self).frame < u64::MAX,
        ensures
            final(self).regs == old(self).regs,
            final(self).same_memories(old(self)),
            final(self).vram.wf() == old(self).vram.wf(),
            (beam_of(final(self)), r) == tick_spec(beam_of(old(self)), old(self).regs.setini),
    {
        let prev_dot = self.dot();
        self.h_cycles += 1;

        if self.h_cycles >= self.scanline_length() {
            self.h_cycles = 0;
            self.scanline += 1;

            let kind = if self.scanline >= SCANLINES_PER_FRAME {
                self.scanline = 0;
                self.frame += 1;
                self.odd_frame = !self.odd_frame;
                ScanlineKind::FrameStart
            } else if self.scanline == self.vblank_start_line() {
                ScanlineKind::VBlankStart
            } else {
                ScanlineKind::Normal
            };

            PpuEvent::ScanlineStart(kind)
        } else if self.dot() != prev_dot {
            if self.dot() == HBLANK_START_DOT {
                PpuEvent::HBlankStart
            } else {
                PpuEvent::DotStart
            }
        } else {
            PpuEvent::Nothing
        }
    }

    /// Whether forced blanking is on (INIDISP bit 7).
    pub fn force_blank(&self) -> (r: bool)
        ensures
            r == (self.regs.inidisp >= 0x80),
    {
        let v = self.regs.inidisp;
        proof {
            crate::bits::lemma_byte_masks(v);
        }
        (self.regs.inidisp & 0x80) != 0
    }

    /// Screen brightness: INIDISP bits 3-0.
    pub fn brightness(&self) -> (r: u8)
        ensures
            r == self.regs.inidisp % 16,
    {
        let v = self.regs.inidisp;
        proof {
            crate::bits::lemma_byte_masks(v);
        }
        self.regs.inidisp & 0x0F
    }
}

/// Every master cycle keeps the beam inside its frame.
pub proof fn lemma_tick_stays_in_frame(b: Beam, setini: u8)
    requires
        beam_in_frame(b),
    ensures
        beam_in_frame(tick_spec(b, setini).0),
{
}

/// Running `m + n` cycles is running `m` cycles, then `n`.
pub proof fn lemma_run_split(b: Beam, setini: u8, m: nat, n: nat)
    ensures
        run_spec(b, setini, m + n) == run_spec(run_spec(b, setini, m), setini, n),
    decreases m,
{
    if m > 0 {
        lemma_run_split(tick_spec(b, setini).0, setini, (m - 1) as nat, n);
        assert((m + n - 1) as nat == (m - 1) as nat + n);
    }
}

/// Inside a scanline, `k` cycles only advance the cycle count.
proof fn lemma_run_in_line(b: Beam, setini: u8, k: nat)
    requires
        b.h_cycles + k < scanline_length_spec(b.odd_frame, b.scanline),
    ensures
        run_spec(b, setini, k) == (Beam { h_cycles: (b.h_cycles + k) as u32, ..b }),
    decreases k,
{
    if k > 0 {
        let b1 = tick_spec(b, setini).0;
        assert(b1 == Beam { h_cycles: (b.h_cycles + 1) as u32, ..b });
        lemma_run_in_line(b1, setini, (k - 1) as nat);
    }
}

/// From the start of a scanline, one scanline's worth of cycles lands on the
/// start of the next scanline (or of the next frame after the last one).
proof fn lemma_run_line(b: Beam, setini: u8)
    requires
        b.h_cycles == 0,
        b.scanline < SCANLINES_PER_FRAME,
    ensures
        run_spec(b, setini, scanline_length_spec(b.odd_frame, b.scanline) as nat) == (if b.scanline
            + 1 >= SCANLINES_PER_FRAME {
            Beam { scanline: 0, h_cycles: 0, frame: (b.frame + 1) as u64, odd_frame: !b.odd_frame }
        } else {
            Beam { scanline: (b.scanline + 1) as u16, h_cycles: 0, ..b }
        }),
{
    let len = scanline_length_spec(b.odd_frame, b.scanline) as nat;
    lemma_run_split(b, setini, (len - 1) as nat, 1);
    lemma_run_in_line(b, setini, (len - 1) as nat);
    let b1 = run_spec(b, setini, (len - 1) as nat);
    reveal_with_fuel(run_spec, 2);
    assert(run_spec(b1, setini, 1) == tick_spec(b1, setini).0);
}

/// The start of scanline `j` of a frame is `cycles_until(j)` cycles after the
/// start of the frame, and every cycle before it belongs to the same frame.
proof fn lemma_frame_prefix(b: Beam, setini: u8, j: int)
    requires
        b.scanline == 0,
        b.h_cycles == 0,
        0 <= j < SCANLINES_PER_FRAME,
    ensures
        cycles_until(b.odd_frame, j) >= 0,
        run_spec(b, setini, cycles_until(b.odd_frame, j) as nat) == (Beam {
            scanline: j as u16,
            ..b
        }),
        forall|n: nat| n < cycles_until(b.odd_frame, j) ==> (#[trigger] run_spec(b, setini, n)).frame
            == b.frame,
    decreases j,
{
    if j > 0 {
        lemma_frame_prefix(b, setini, j - 1);
        let c = cycles_until(b.odd_frame, j - 1) as nat;
        let line_start = Beam { scanline: (j - 1) as u16, ..b };
        let len = scanline_length_spec(b.odd_frame, (j - 1) as u16) as nat;
        lemma_run_split(b, setini, c, len);
        lemma_run_line(line_start, setini);
        assert forall|n: nat| n < cycles_until(b.odd_frame, j) implies (#[trigger] run_spec(
            b,
            setini,
            n,
        )).frame == b.frame by {
            if n >= c {
                let k = (n - c) as nat;
                lemma_run_split(b, setini, c, k);
                lemma_run_in_line(line_start, setini, k);
            }
        }
    }
}

/// Cycles to the start of scanline `j`: 1364 per scanline, 4 fewer once the
/// short scanline 240 of an odd frame is behind.
proof fn lemma_cycles_until(odd_frame: bool, j: int)
    requires
        0 <= j <= SCANLINES_PER_FRAME,
    ensures
        cycles_until(odd_frame, j) == j * MASTER_CYCLES_PER_SCANLINE - if odd_frame && j > 240 {
            4int
        } else {
            0int
        },
    decreases j,
{
    if j > 0 {
        lemma_cycles_until(odd_frame, j - 1);
    }
}

/// A frame lasts 262 x 1364 master cycles on even frames and 4 cycles less
/// on odd ones: from the start of a frame, the beam reaches the start of the
/// next frame (with the parity flipped) after exactly that many cycles, and
/// not before.
pub proof fn lemma_frame_length(b: Beam, setini: u8)
    requires
        b.scanline == 0,
        b.h_cycles == 0,
        b.frame < u64::MAX,
    ensures
        run_spec(b, setini, frame_cycles(b.odd_frame) as nat) == (Beam {
            scanline: 0,
            h_cycles: 0,
            frame: (b.frame + 1) as u64,
            odd_frame: !b.odd_frame,
        }),
        forall|n: nat| n < frame_cycles(b.odd_frame) ==> (#[trigger] run_spec(b, setini, n)).frame
            == b.frame,
{
    let last = (SCANLINES_PER_FRAME - 1) as int;
    lemma_frame_prefix(b, setini, last);
    lemma_cycles_until(b.odd_frame, last);
    lemma_cycles_until(b.odd_frame, last + 1);
    let c = cycles_until(b.odd_frame, last) as nat;
    let line_start = Beam { scanline: last as u16, ..b };
    let len = scanline_length_spec(b.odd_frame, last as u16) as nat;
    assert(c + len == frame_cycles(b.odd_frame));
    lemma_run_split(b, setini, c, len);
    lemma_run_line(line_start, setini);
    assert forall|n: nat| n < frame_cycles(b.odd_frame) implies (#[trigger] run_spec(
        b,
        setini,
        n,
    )).frame == b.frame by {
        if n >= c {
            let k = (n - c) as nat;
            lemma_run_split(b, setini, c, k);
            lemma_run_in_line(line_start, setini, k);
        }
    }
}

} // verus!
