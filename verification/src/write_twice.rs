use vstd::prelude::*;

verus! {

/// Helper enum to keep track of the byte phase of a two-write register.
#[derive(Debug, PartialEq, Eq, Structural)]
pub enum BytePhase {
    /// Next read/write affects the low byte of the addressed word
    Low,
    /// Next read/write affects the high byte of the addressed word
    High,
}

impl BytePhase {
    /// The other phase.
    pub open spec fn flipped(self) -> BytePhase {
        match self {
            BytePhase::Low => BytePhase::High,
            BytePhase::High => BytePhase::Low,
        }
    }

    /// Toggles the phase: `Low` becomes `High` and `High` becomes `Low`.
    pub fn flip(&mut self)
        ensures
            *final(self) == old(self).flipped(),
    {
        *self = match self {
            BytePhase::Low => BytePhase::High,
            BytePhase::High => BytePhase::Low,
        };
    }

    /// Whether the phase is `High`.
    pub fn is_high(&self) -> (r: bool)
        ensures
            r == (*self is High),
    {
        *self == BytePhase::High
    }
}

/// Two-write latch used by registers like BG1HOFS, BG1VOFS, CGDATA.
/// Models a hardware flipflop: first access = low byte, second = high byte.
pub struct WriteTwice {
    pub latch: u8,
    pub phase: BytePhase,
}

impl WriteTwice {
    /// The byte held since the first write of the current pair.
    pub open spec fn latched(self) -> u8 {
        self.latch
    }

    /// What a write of `value` returns.
    pub open spec fn write_result(self, value: u8) -> Option<(u8, u8)> {
        match self.phase {
            BytePhase::Low => None,
            BytePhase::High => Some((self.latched(), value)),
        }
    }

    /// The latch after a write of `value`.
    pub open spec fn after_write(self, value: u8) -> WriteTwice {
        match self.phase {
            BytePhase::Low => WriteTwice { latch: value, phase: BytePhase::High },
            BytePhase::High => WriteTwice { latch: self.latch, phase: BytePhase::Low },
        }
    }

    /// The latch after a reset.
    pub open spec fn after_reset(self) -> WriteTwice {
        WriteTwice { latch: self.latch, phase: BytePhase::Low }
    }

    /// A latch in the low phase, holding 0.
    pub fn new() -> (r: Self)
        ensures
            r.phase is Low,
            r.latched() == 0,
    {
        Self { latch: 0, phase: BytePhase::Low }
    }

    /// Feed one byte. Returns `Some((lo, hi))` on the second write, `None` on the first.
    pub fn write(&mut self, value: u8) -> (r: Option<(u8, u8)>)
        ensures
            r == old(self).write_result(value),
            *final(self) == old(self).after_write(value),
            final(self).phase == old(self).phase.flipped(),
            old(self).phase is Low ==> final(self).latched() == value,
            old(self).phase is High ==> final(self).latched() == old(self).latched(),
    {
        match self.phase {
            BytePhase::Low => {
                self.latch = value;
                self.phase = BytePhase::High;
                None
            },
            BytePhase::High => {
                let lo = self.latch;
                self.phase = BytePhase::Low;
                Some((lo, value))
            },
        }
    }

    /// Cancels a pending first write: the next write starts a new pair.
    pub fn reset(&mut self)
        ensures
            *final(self) == old(self).after_reset(),
            final(self).phase is Low,
            final(self).latched() == old(self).latched(),
    {
        self.phase = BytePhase::Low;
    }
}

/// Two writes into a latch in the low phase hand back the pair, first byte
/// low and second byte high, and leave the latch in the low phase again, so
/// that a third write starts a new pair.
pub proof fn lemma_write_pair(w: WriteTwice, a: u8, b: u8)
    requires
        w.phase is Low,
    ensures
        w.write_result(a) is None,
        w.after_write(a).write_result(b) == Some((a, b)),
        w.after_write(a).after_write(b).phase is Low,
        w.after_write(a).after_write(b).write_result(b) is None,
{
}

/// After a reset, whatever the phase before it, the next write only latches.
pub proof fn lemma_reset_restarts_pair(w: WriteTwice, a: u8)
    ensures
        w.after_reset().phase is Low,
        w.after_reset().write_result(a) is None,
{
}

} // verus!
