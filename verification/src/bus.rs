use vstd::prelude::*;

use crate::ppu::{read_effect, write_effect, PPU};

verus! {

/// First address of the PPU register window on the B bus.
pub const PPU_REGS_FIRST: u16 = 0x2100;

/// Last address of the PPU register window on the B bus.
pub const PPU_REGS_LAST: u16 = 0x213F;

/// Whether a CPU access to `addr` is routed to the PPU.
pub open spec fn is_ppu_register(addr: u16) -> bool {
    PPU_REGS_FIRST <= addr <= PPU_REGS_LAST
}

/// The bus between the CPU and the PPU.
///
/// CPU reads and writes whose address falls in the PPU register window
/// ($2100-$213F) are forwarded to the PPU; every other address is ignored
/// on write and reads as 0.
pub struct Bus {
    /// The PPU that register accesses are forwarded to.
    pub ppu: PPU,
}

impl Bus {
    /// A bus with a freshly powered-on PPU.
    pub fn new() -> (r: Self)
        ensures
            r.ppu.at_power_on(),
    {
        Bus { ppu: PPU::new() }
    }

    /// A CPU write of `value` to `addr`: forwarded to the PPU inside the
    /// register window, ignored elsewhere.
    pub fn cpu_write(&mut self, addr: u16, value: u8)
        requires
            old(self).ppu.wf(),
        ensures
            final(self).ppu.wf(),
            is_ppu_register(addr) ==> write_effect(old(self).ppu, final(self).ppu, addr, value),
            !is_ppu_register(addr) ==> final(self).ppu == old(self).ppu,
    {
        if PPU_REGS_FIRST <= addr && addr <= PPU_REGS_LAST {
            self.ppu.write(addr, value);
        }
    }

    /// A CPU read of `addr`: served by the PPU inside the register window,
    /// 0 elsewhere.
    pub fn cpu_read(&mut self, addr: u16) -> (r: u8)
        requires
            old(self).ppu.wf(),
        ensures
            final(self).ppu.wf(),
            is_ppu_register(addr) ==> read_effect(old(self).ppu, final(self).ppu, addr, r),
            !is_ppu_register(addr) ==> r == 0 && final(self).ppu == old(self).ppu,
    {
        if PPU_REGS_FIRST <= addr && addr <= PPU_REGS_LAST {
            self.ppu.read(addr)
        } else {
            0
        }
    }
}

} // verus!
