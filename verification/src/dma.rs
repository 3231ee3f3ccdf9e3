use vstd::prelude::*;

verus! {

/// Master cycles per byte moved.
pub const BYTE_COST: u32 = 8;

/// One-off cost when a DMA transfer begins.
pub const DMA_START_COST: u32 = 8;

/// Cost when a DMA channel begins, paid once per channel.
pub const DMA_CHANNEL_COST: u32 = 8;

/// Per-scanline cost when any HDMA channel is enabled.
pub const HDMA_LINE_COST: u32 = 18;

/// Per-channel cost when a channel does anything on a line.
pub const HDMA_CHANNEL_COST: u32 = 8;

/// Extra cost, only when a new indirect address must be loaded.
pub const HDMA_INDIRECT_LOAD_COST: u32 = 16;

/// Frame-start init, per direct channel.
pub const HDMA_INIT_DIRECT_COST: u32 = 8;

/// Frame-start init, per indirect channel.
pub const HDMA_INIT_INDIRECT_COST: u32 = 24;

/// A 24-bit SNES address: bank byte and 16-bit address inside the bank.
#[derive(Clone, Copy, Debug, PartialEq, Eq, Structural)]
pub struct SnesAddress {
    pub bank: u8,
    pub addr: u16,
}

/// Who holds the bus.
#[derive(Clone, Copy, Debug, PartialEq, Eq, Structural)]
pub enum DmaState {
    /// The CPU has the bus.
    Idle,
    /// Aligning to the 8-cycle grid before a DMA transfer.
    Startup,
    /// A DMA transfer holds the bus.
    Dma,
    /// HDMA holds the bus, possibly having preempted a DMA.
    Hdma,
}

impl Default for DmaState {
    /// The CPU has the bus.
    fn default() -> (r: Self)
        ensures
            r == DmaState::Idle,
    {
        DmaState::Idle
    }
}

/// Where a DMA transfer is: its channel, and the position in the channel's
/// transfer pattern, which survives preemption by HDMA.
#[derive(Clone, Copy, Debug, PartialEq, Eq, Structural)]
pub struct DmaProgress {
    pub channel: u8,
    pub unit_index: u32,
}

/// Per-channel HDMA state for the current frame.
#[derive(Clone, Copy, Debug, PartialEq, Eq, Structural)]
pub struct HdmaChannelState {
    /// Live line counter: bit 7 = repeat, bits 6-0 = scanlines remaining.
    pub line_counter: u8,
    /// Whether this channel transfers on the current scanline.
    pub do_transfer: bool,
    /// Set when the table hit its `0` terminator, until the next frame.
    pub finished: bool,
}

/// The zeroed HDMA channel state.
pub open spec fn hdma_channel_zero() -> HdmaChannelState {
    HdmaChannelState { line_counter: 0, do_transfer: false, finished: false }
}

impl Default for HdmaChannelState {
    /// Counter 0, no transfer pending, not finished.
    fn default() -> (r: Self)
        ensures
            r == hdma_channel_zero(),
    {
        HdmaChannelState { line_counter: 0, do_transfer: false, finished: false }
    }
}

/// The DMA unit: who holds the bus, the cycles still to wait, the transfer
/// in progress and the HDMA pass state.
pub struct Dma {
    pub state: DmaState,
    /// Cycles still to burn before the next action.
    pub wait: u32,
    /// A DMA transfer is underway.
    pub dma_running: bool,
    pub dma: Option<DmaProgress>,
    /// H-Blank has come due and HDMA is pending.
    pub hdma_pending: bool,
    /// Whether the pending pass is the once-per-frame init.
    pub hdma_init: bool,
    /// Channels left to service in the current HDMA pass.
    pub hdma_queue: u8,
    pub channels: [HdmaChannelState; 8],
}

impl Dma {
    /// An idle unit: nothing pending, nothing running, all channels zeroed.
    pub open spec fn is_idle_reset(&self) -> bool {
        &&& self.state == DmaState::Idle
        &&& self.wait == 0
        &&& !self.dma_running
        &&& self.dma.is_none()
        &&& !self.hdma_pending
        &&& !self.hdma_init
        &&& self.hdma_queue == 0
        &&& forall|i: int| 0 <= i < 8 ==> #[trigger] self.channels[i] == hdma_channel_zero()
    }
}

impl Default for Dma {
    /// An idle unit: nothing pending, nothing running, all channels zeroed.
    fn default() -> (r: Self)
        ensures
            r.is_idle_reset(),
    {
        let zero = HdmaChannelState { line_counter: 0, do_transfer: false, finished: false };
        Dma {
            state: DmaState::Idle,
            wait: 0,
            dma_running: false,
            dma: None,
            hdma_pending: false,
            hdma_init: false,
            hdma_queue: 0,
            channels: [zero, zero, zero, zero, zero, zero, zero, zero],
        }
    }
}

/// The B-bus offsets written per transfer unit, by the low three bits of
/// the channel's DMAP register.
pub open spec fn transfer_pattern_spec(mode: u8) -> Seq<u8> {
    let m = mode % 8;
    if m == 0 {
        seq![0u8]
    } else if m == 1 {
        seq![0u8, 1u8]
    } else if m == 2 || m == 6 {
        seq![0u8, 0u8]
    } else if m == 3 || m == 7 {
        seq![0u8, 0u8, 1u8, 1u8]
    } else if m == 4 {
        seq![0u8, 1u8, 2u8, 3u8]
    } else {
        seq![0u8, 1u8, 0u8, 1u8]
    }
}

/// The B-bus address for register `bbad` plus a pattern offset: the sum
/// wraps inside the $21xx page, in bank 0.
pub open spec fn b_address_spec(bbad: u8, offset: u8) -> SnesAddress {
    SnesAddress { bank: 0, addr: (0x2100 + (bbad as int + offset as int) % 256) as u16 }
}

/// Only the low three bits of DMAP choose the pattern, modes 6 and 7 repeat
/// modes 2 and 3, and every pattern is 1, 2 or 4 offsets, each in 0-3.
pub proof fn lemma_transfer_patterns(mode: u8)
    ensures
        transfer_pattern_spec(mode) == transfer_pattern_spec(mode % 8),
        mode % 8 == 6 ==> transfer_pattern_spec(mode) == transfer_pattern_spec(2),
        mode % 8 == 7 ==> transfer_pattern_spec(mode) == transfer_pattern_spec(3),
        transfer_pattern_spec(mode).len() == 1 || transfer_pattern_spec(mode).len() == 2
            || transfer_pattern_spec(mode).len() == 4,
        forall|i: int|
            0 <= i < transfer_pattern_spec(mode).len() ==> #[trigger] transfer_pattern_spec(mode)[i]
                < 4,
{
}

/// A B-bus address always lies in bank 0, page $21.
pub proof fn lemma_b_address_in_page(bbad: u8, offset: u8)
    ensures
        b_address_spec(bbad, offset).bank == 0,
        0x2100 <= b_address_spec(bbad, offset).addr <= 0x21FF,
{
}

impl Dma {
    /// The B-bus offsets written per transfer unit, by DMAP bits 2-0:
    /// mode 0 one register, 1 two registers, 2 and 6 one register twice,
    /// 3 and 7 two registers twice each, 4 four registers, 5 two registers
    /// alternating.
    pub fn transfer_pattern(mode: u8) -> (r: &'static [u8])
        ensures
            r@ == transfer_pattern_spec(mode),
    {
        let m = mode & 0x07;
        assert(m == mode % 8) by (bit_vector)
            requires
                m == mode & 0x07,
        ;
        if m == 0 {
            &[0]
        } else if m == 1 {
            &[0, 1]
        } else if m == 2 || m == 6 {
            &[0, 0]
        } else if m == 3 || m == 7 {
            &[0, 0, 1, 1]
        } else if m == 4 {
            &[0, 1, 2, 3]
        } else {
            &[0, 1, 0, 1]
        }
    }

    /// B-bus address for a unit offset: the sum wraps inside the `$21xx`
    /// page rather than spilling into `$22xx`.
    pub fn b_address(bbad: u8, offset: u8) -> (r: SnesAddress)
        ensures
            r == b_address_spec(bbad, offset),
    {
        let lo = bbad.wrapping_add(offset);
        let addr: u16 = 0x2100u16 | (lo as u16);
        assert(addr == 0x2100 + lo) by (bit_vector)
            requires
                addr == 0x2100u16 | (lo as u16),
        ;
        SnesAddress { bank: 0, addr }
    }
}


/// Whether bit `i` of `m` is set.
pub open spec fn bit_set8(m: u8, i: u8) -> bool {
    (m >> i) & 1 == 1
}

/// The lowest set bit of `m` at or above bit `i`; 8 when there is none.
pub open spec fn lowest_from(m: u8, i: u8) -> u8
    decreases 8 - i,
{
    if i >= 8 {
        8
    } else if bit_set8(m, i) {
        i
    } else {
        lowest_from(m, (i + 1) as u8)
    }
}

/// The lowest set bit of `m`; 8 for `m == 0`.
pub open spec fn lowest_bit(m: u8) -> u8 {
    lowest_from(m, 0)
}

/// `m` with bit `i` cleared.
pub open spec fn clear_bit(m: u8, i: u8) -> u8 {
    m & !(1u8 << i)
}

/// A byte with none of its eight bits set is zero; clearing a bit clears it
/// and keeps the others.
pub proof fn lemma_byte_bits(m: u8, i: u8, j: u8)
    by (bit_vector)
    requires
        i < 8,
        j < 8,
    ensures
        (m >> 0u8) & 1 != 1 && (m >> 1u8) & 1 != 1 && (m >> 2u8) & 1 != 1 && (m >> 3u8) & 1 != 1
            && (m >> 4u8) & 1 != 1 && (m >> 5u8) & 1 != 1 && (m >> 6u8) & 1 != 1 && (m >> 7u8) & 1
            != 1 ==> m == 0,
        ((m & !(1u8 << i)) >> i) & 1 != 1,
        i != j ==> (((m & !(1u8 << i)) >> j) & 1 == 1) == ((m >> j) & 1 == 1),
        (m >> i) & 1 == 1 ==> (m & !(1u8 << i)) < m,
        m == 0 ==> (m >> i) & 1 != 1,
{
}

/// The lowest set bit of `m` at or above bit `i`: when there is one it is
/// below 8 and set, no bit between `i` and it is set; otherwise none is.
pub proof fn lemma_lowest_from(m: u8, i: u8)
    requires
        i <= 8,
    ensures
        i <= lowest_from(m, i) <= 8,
        lowest_from(m, i) < 8 ==> bit_set8(m, lowest_from(m, i)),
        forall|k: u8| i <= k < lowest_from(m, i) ==> !#[trigger] bit_set8(m, k),
    decreases 8 - i,
{
    if i < 8 && !bit_set8(m, i) {
        lemma_lowest_from(m, (i + 1) as u8);
    }
}

/// A non-zero byte's lowest set bit is below 8 and set, and no lower bit is
/// set.
pub proof fn lemma_lowest_bit(m: u8)
    requires
        m != 0,
    ensures
        lowest_bit(m) < 8,
        bit_set8(m, lowest_bit(m)),
        forall|k: u8| k < lowest_bit(m) ==> !#[trigger] bit_set8(m, k),
{
    lemma_lowest_from(m, 0);
    if lowest_bit(m) == 8 {
        lemma_byte_bits(m, 0, 0);
        assert(!bit_set8(m, 0u8) && !bit_set8(m, 1u8) && !bit_set8(m, 2u8) && !bit_set8(m, 3u8)
            && !bit_set8(m, 4u8) && !bit_set8(m, 5u8) && !bit_set8(m, 6u8) && !bit_set8(m, 7u8));
    }
}

/// The lowest set bit of `m` (8 for 0), as the channel order of MDMAEN and
/// HDMAEN wants it: channels run lowest bit first.
pub fn lowest_set_bit(m: u8) -> (r: u8)
    ensures
        r == lowest_bit(m),
        m != 0 ==> r < 8 && bit_set8(m, r),
{
    let mut i: u8 = 0;
    while i < 8 && (m >> i) & 1 != 1
        invariant
            i <= 8,
            lowest_from(m, 0) == lowest_from(m, i),
            forall|k: u8| k < i ==> !bit_set8(m, k),
        decreases 8 - i,
    {
        i = i + 1;
    }
    proof {
        if m != 0 && i == 8 {
            lemma_byte_bits(m, 0, 0);
            assert(!bit_set8(m, 0u8) && !bit_set8(m, 1u8) && !bit_set8(m, 2u8) && !bit_set8(m, 3u8)
                && !bit_set8(m, 4u8) && !bit_set8(m, 5u8) && !bit_set8(m, 6u8) && !bit_set8(m, 7u8));
        }
    }
    i
}

/// What the DMA unit does with one master cycle.
#[derive(Clone, Copy, Debug, PartialEq, Eq, Structural)]
pub enum DmaCycle {
    /// The CPU has the bus.
    Free,
    /// DMA holds the bus and spends the cycle waiting.
    Held,
    /// DMA holds the bus: run one DMA action.
    DmaStep,
    /// DMA holds the bus: run one HDMA action.
    HdmaStep,
}

/// The unit after picking up a transfer requested through MDMAEN
/// (`mdmaen`), with HDMAEN `hdmaen`, at master cycle `master_cycles`: a
/// channel enabled for both loses its general-purpose transfer; a transfer
/// that remains starts with an alignment to the 8-cycle grid plus the
/// start-up cost. A running transfer, or none requested, changes nothing.
pub open spec fn start_pending_spec(d: DmaModel, mdmaen: u8, hdmaen: u8, master_cycles: u64) -> (
    DmaModel,
    u8,
) {
    if d.dma_running || mdmaen == 0 {
        (d, mdmaen)
    } else {
        let m = mdmaen & !hdmaen;
        if m == 0 {
            (d, m)
        } else {
            (
                DmaModel {
                    dma_running: true,
                    state: DmaState::Startup,
                    wait: (8 - master_cycles % 8 + DMA_START_COST - 1) as u32,
                    ..d
                },
                m,
            )
        }
    }
}

/// The scalar state of the DMA unit.
#[derive(Clone, Copy, Debug, PartialEq, Eq, Structural)]
pub struct DmaModel {
    pub state: DmaState,
    pub wait: u32,
    pub dma_running: bool,
    pub dma: Option<DmaProgress>,
    pub hdma_pending: bool,
    pub hdma_init: bool,
    pub hdma_queue: u8,
}

/// One master cycle of scheduling after the start check: pending HDMA
/// preempts on a unit boundary (taking the HDMAEN channels as its queue and
/// paying the per-line cost), a wait burns a cycle, otherwise the state
/// says what to run; Startup moves on to Dma.
pub open spec fn schedule_spec(d: DmaModel, hdmaen: u8) -> (DmaModel, DmaCycle) {
    if d.hdma_pending && d.wait == 0 {
        (
            DmaModel {
                hdma_pending: false,
                hdma_queue: hdmaen,
                state: DmaState::Hdma,
                wait: (HDMA_LINE_COST - 1) as u32,
                ..d
            },
            DmaCycle::Held,
        )
    } else if d.wait > 0 {
        (DmaModel { wait: (d.wait - 1) as u32, ..d }, DmaCycle::Held)
    } else {
        match d.state {
            DmaState::Idle => (d, DmaCycle::Free),
            DmaState::Startup => (DmaModel { state: DmaState::Dma, ..d }, DmaCycle::Held),
            DmaState::Dma => (d, DmaCycle::DmaStep),
            DmaState::Hdma => (d, DmaCycle::HdmaStep),
        }
    }
}

impl Dma {
    /// The scalar state.
    pub open spec fn model(&self) -> DmaModel {
        DmaModel {
            state: self.state,
            wait: self.wait,
            dma_running: self.dma_running,
            dma: self.dma,
            hdma_pending: self.hdma_pending,
            hdma_init: self.hdma_init,
            hdma_queue: self.hdma_queue,
        }
    }

    /// Picks up a transfer requested through MDMAEN, as
    /// [`start_pending_spec`] says.
    pub fn start_pending_dma(&mut self, mdmaen: &mut u8, hdmaen: u8, master_cycles: u64)
        ensures
            (final(self).model(), *final(mdmaen)) == start_pending_spec(
                old(self).model(),
                *old(mdmaen),
                hdmaen,
                master_cycles,
            ),
            final(self).channels == old(self).channels,
    {
        if self.dma_running || *mdmaen == 0 {
            return;
        }
        *mdmaen = *mdmaen & !hdmaen;
        if *mdmaen == 0 {
            return;
        }
        self.dma_running = true;
        self.state = DmaState::Startup;
        let align = 8 - (master_cycles % 8) as u32;
        self.wait = align + DMA_START_COST - 1;
    }

    /// One master cycle of the DMA unit: picks up a requested transfer,
    /// then schedules as [`schedule_spec`] says. Anything but `Free` means
    /// DMA holds the bus and the CPU sits the cycle out; `DmaStep` and
    /// `HdmaStep` ask for one DMA or HDMA action.
    pub fn update_dma_cycles(&mut self, mdmaen: &mut u8, hdmaen: u8, master_cycles: u64) -> (r: DmaCycle)
        ensures
            ({
                let (d1, m1) = start_pending_spec(old(self).model(), *old(mdmaen), hdmaen, master_cycles);
                *final(mdmaen) == m1 && (final(self).model(), r) == schedule_spec(d1, hdmaen)
            }),
            final(self).channels == old(self).channels,
    {
        self.start_pending_dma(mdmaen, hdmaen, master_cycles);
        if self.hdma_pending && self.wait == 0 {
            self.hdma_pending = false;
            self.hdma_queue = hdmaen;
            self.state = DmaState::Hdma;
            self.wait = HDMA_LINE_COST - 1;
            return DmaCycle::Held;
        }
        if self.wait > 0 {
            self.wait = self.wait - 1;
            return DmaCycle::Held;
        }
        match self.state {
            DmaState::Idle => DmaCycle::Free,
            DmaState::Startup => {
                self.state = DmaState::Dma;
                DmaCycle::Held
            },
            DmaState::Dma => DmaCycle::DmaStep,
            DmaState::Hdma => DmaCycle::HdmaStep,
        }
    }

    /// The first half of a DMA action. With a transfer under way, hands back
    /// its progress: the caller moves one byte and calls
    /// [`Self::finish_dma_byte`]. Otherwise selects the next channel: none
    /// left in MDMAEN ends the transfer and frees the bus; else the lowest
    /// queued channel starts at pattern position 0, after its start-up cost.
    pub fn begin_dma_step(&mut self, mdmaen: u8) -> (r: Option<DmaProgress>)
        ensures
            final(self).channels == old(self).channels,
            final(self).hdma_pending == old(self).hdma_pending,
            final(self).hdma_init == old(self).hdma_init,
            final(self).hdma_queue == old(self).hdma_queue,
            match old(self).dma {
                Some(p) => r == Some(p) && final(self).model() == old(self).model(),
                None => {
                    &&& r is None
                    &&& mdmaen == 0 ==> {
                        &&& !final(self).dma_running
                        &&& final(self).state == DmaState::Idle
                        &&& final(self).dma is None
                        &&& final(self).wait == old(self).wait
                    }
                    &&& mdmaen != 0 ==> {
                        &&& final(self).dma == Some(DmaProgress { channel: lowest_bit(mdmaen), unit_index: 0 })
                        &&& final(self).wait == DMA_CHANNEL_COST - 1
                        &&& final(self).state == old(self).state
                        &&& final(self).dma_running == old(self).dma_running
                    }
                },
            },
            old(self).dma is None ==> forall|s: Seq<u16>|
                #[trigger] dma_action(DmaRun { mdmaen, current: None, das: s }) == (
                    DmaRun { mdmaen, current: final(self).dma, das: s },
                    Seq::<u8>::empty(),
                ),
    {
        match self.dma {
            Some(p) => Some(p),
            None => {
                if mdmaen == 0 {
                    self.dma_running = false;
                    self.state = DmaState::Idle;
                } else {
                    let channel = lowest_set_bit(mdmaen);
                    self.dma = Some(DmaProgress { channel, unit_index: 0 });
                    self.wait = DMA_CHANNEL_COST - 1;
                }
                None
            },
        }
    }

    /// The second half of a DMA action, once a byte has moved: the
    /// channel's live byte counter `das` counts down (0 wraps to 0xFFFF, so
    /// a count of 0 moves 65 536 bytes); at 0 the channel leaves MDMAEN and
    /// the next channel comes up, otherwise the pattern position advances.
    /// Each byte costs 8 master cycles.
    pub fn finish_dma_byte(&mut self, progress: DmaProgress, das: &mut u16, mdmaen: &mut u8)
        requires
            progress.channel < 8,
        ensures
            *final(das) == (if *old(das) == 0 { 0xFFFFu16 } else { (*old(das) - 1) as u16 }),
            *final(das) == 0 ==> *final(mdmaen) == clear_bit(*old(mdmaen), progress.channel)
                && final(self).dma is None,
            *final(das) != 0 ==> *final(mdmaen) == *old(mdmaen) && final(self).dma == Some(
                DmaProgress {
                    channel: progress.channel,
                    unit_index: (if progress.unit_index == u32::MAX {
                        0
                    } else {
                        progress.unit_index + 1
                    }) as u32,
                },
            ),
            final(self).wait == BYTE_COST - 1,
            final(self).state == old(self).state,
            final(self).dma_running == old(self).dma_running,
            final(self).hdma_pending == old(self).hdma_pending,
            final(self).hdma_init == old(self).hdma_init,
            final(self).hdma_queue == old(self).hdma_queue,
            final(self).channels == old(self).channels,
            forall|s: Seq<u16>|
                s.len() == 8 && s[progress.channel as int] == *old(das) ==> #[trigger] dma_action(
                    DmaRun { mdmaen: *old(mdmaen), current: Some(progress), das: s },
                ) == (
                    DmaRun {
                        mdmaen: *final(mdmaen),
                        current: final(self).dma,
                        das: s.update(progress.channel as int, *final(das)),
                    },
                    seq![progress.channel],
                ),
    {
        *das = das.wrapping_sub(1);
        if *das == 0 {
            *mdmaen = *mdmaen & !(1u8 << progress.channel);
            self.dma = None;
        } else {
            self.dma = Some(DmaProgress {
                unit_index: progress.unit_index.wrapping_add(1),
                channel: progress.channel,
            });
        }
        self.wait = BYTE_COST - 1;
    }

    /// Selects what an HDMA action serves: with no channel left in the
    /// pass, the pass ends (the init flag clears) and the bus goes back to
    /// a paused DMA transfer or to the CPU; otherwise the lowest queued
    /// channel leaves the queue and is handed back, with whether this pass
    /// is the once-per-frame init.
    pub fn next_hdma_channel(&mut self) -> (r: Option<(u8, bool)>)
        ensures
            final(self).channels == old(self).channels,
            final(self).wait == old(self).wait,
            final(self).dma == old(self).dma,
            final(self).dma_running == old(self).dma_running,
            final(self).hdma_pending == old(self).hdma_pending,
            old(self).hdma_queue == 0 ==> {
                &&& r is None
                &&& !final(self).hdma_init
                &&& final(self).hdma_queue == 0
                &&& final(self).state == (if old(self).dma_running {
                    DmaState::Dma
                } else {
                    DmaState::Idle
                })
            },
            old(self).hdma_queue != 0 ==> {
                &&& r == Some((lowest_bit(old(self).hdma_queue), old(self).hdma_init))
                &&& final(self).hdma_queue == clear_bit(old(self).hdma_queue, lowest_bit(old(self).hdma_queue))
                &&& final(self).hdma_init == old(self).hdma_init
                &&& final(self).state == old(self).state
            },
    {
        if self.hdma_queue == 0 {
            self.hdma_init = false;
            if self.dma_running {
                self.state = DmaState::Dma;
            } else {
                self.state = DmaState::Idle;
            }
            return None;
        }
        let channel = lowest_set_bit(self.hdma_queue);
        self.hdma_queue = self.hdma_queue & !(1u8 << channel);
        Some((channel, self.hdma_init))
    }
}

/// The A-bus address after a byte: unchanged for a fixed transfer (DMAP
/// bit 3, which wins over bit 4), one down for a decrementing one (bit 4),
/// one up otherwise; it wraps inside its bank.
pub open spec fn next_a_address_spec(addr: u16, dmap: u8) -> u16 {
    if (dmap / 8) % 2 == 1 {
        addr
    } else if (dmap / 16) % 2 == 1 {
        (if addr == 0 { 0xFFFF } else { addr - 1 }) as u16
    } else {
        (if addr == 0xFFFF { 0 } else { addr + 1 }) as u16
    }
}

impl Dma {
    /// Whether a channel with DMAP `dmap` moves bytes from the B bus to the
    /// A bus (bit 7).
    pub fn b_to_a(dmap: u8) -> (r: bool)
        ensures
            r == (dmap >= 0x80),
    {
        proof {
            crate::bits::lemma_byte_masks(dmap);
        }
        dmap & 0x80 != 0
    }

    /// The A-bus address after a byte, as [`next_a_address_spec`] says.
    pub fn next_a_address(addr: u16, dmap: u8) -> (r: u16)
        ensures
            r == next_a_address_spec(addr, dmap),
    {
        let fixed = dmap & 0x08 != 0;
        let decrement = dmap & 0x10 != 0;
        assert(fixed == ((dmap / 8) % 2 == 1) && decrement == ((dmap / 16) % 2 == 1)) by (bit_vector)
            requires
                fixed == (dmap & 0x08 != 0),
                decrement == (dmap & 0x10 != 0),
        ;
        if fixed {
            addr
        } else if decrement {
            addr.wrapping_sub(1)
        } else {
            addr.wrapping_add(1)
        }
    }

    /// The B-bus offset of the byte at pattern position `unit_index` of a
    /// channel with DMAP `dmap`: the pattern repeats.
    pub fn unit_offset(dmap: u8, unit_index: u32) -> (r: u8)
        ensures
            r == transfer_pattern_spec(dmap)[(unit_index as nat % transfer_pattern_spec(dmap).len()) as int],
    {
        let pattern = Self::transfer_pattern(dmap);
        pattern[(unit_index as usize) % pattern.len()]
    }
}

impl HdmaChannelState {
    /// Whether the line counter ran out, so the next table entry loads.
    pub fn needs_reload(&self) -> (r: bool)
        ensures
            r == (self.line_counter % 128 == 0),
    {
        proof {
            crate::bits::lemma_byte_masks(self.line_counter);
        }
        self.line_counter & 0x7F == 0
    }

    /// Loads a table entry's line count: 0 ends the channel for the rest of
    /// the frame (it does not mean 256); anything else becomes the counter,
    /// and the channel transfers on this line.
    pub fn reload(&mut self, counter: u8)
        ensures
            counter == 0 ==> *final(self) == (HdmaChannelState { finished: true, ..*old(self) }),
            counter != 0 ==> *final(self) == (HdmaChannelState {
                line_counter: counter,
                do_transfer: true,
                ..*old(self)
            }),
    {
        if counter == 0 {
            self.finished = true;
        } else {
            self.line_counter = counter;
            self.do_transfer = true;
        }
    }

    /// Steps the counter after a line. Bit 7 is the repeat flag: set means
    /// a write on every line of the run, clear means one write then a hold
    /// until the run ends.
    pub fn advance_line(&mut self)
        ensures
            final(self).line_counter == (if old(self).line_counter == 0 {
                255
            } else {
                old(self).line_counter - 1
            }),
            final(self).do_transfer == (old(self).line_counter >= 0x80 || final(self).line_counter
                % 128 == 0),
            final(self).finished == old(self).finished,
    {
        let repeat = self.line_counter & 0x80 != 0;
        proof {
            crate::bits::lemma_byte_masks(self.line_counter);
        }
        self.line_counter = self.line_counter.wrapping_sub(1);
        proof {
            crate::bits::lemma_byte_masks(self.line_counter);
        }
        self.do_transfer = repeat || (self.line_counter & 0x7F) == 0;
    }
}

/// Bytes a channel moves before it leaves MDMAEN when its counter starts at
/// `das`: `das`, or 65 536 for 0.
pub open spec fn dma_byte_count(das: u16) -> nat {
    if das == 0 {
        0x10000
    } else {
        das as nat
    }
}

/// The counter after `k` bytes from `das`.
pub open spec fn das_after(das: u16, k: nat) -> int {
    (das as int - k as int) % 0x10000
}

/// A channel whose counter starts at `das` reaches 0 after exactly
/// [`dma_byte_count`] bytes, and not before.
pub proof fn lemma_dma_byte_count(das: u16, k: nat)
    requires
        1 <= k <= dma_byte_count(das),
    ensures
        das_after(das, k) == 0 <==> k == dma_byte_count(das),
{
}

/// The part of the DMA state that a general-purpose transfer works on: the
/// channels still queued in MDMAEN, the transfer under way, and the eight
/// channels' byte counters (DAS).
pub struct DmaRun {
    pub mdmaen: u8,
    pub current: Option<DmaProgress>,
    pub das: Seq<u16>,
}

/// The pattern position after a byte (it wraps).
pub open spec fn next_unit(u: u32) -> u32 {
    if u == u32::MAX {
        0
    } else {
        (u + 1) as u32
    }
}

/// One DMA action, as [`Dma::begin_dma_step`] and, when it hands back the
/// transfer under way, the byte move and [`Dma::finish_dma_byte`] perform it:
/// with no transfer under way the lowest queued channel is selected (none
/// queued ends the transfer and changes nothing here); otherwise one byte of
/// the current channel moves, its counter steps down, and at 0 the channel
/// leaves MDMAEN. The second part is the channel whose byte moved, if any.
pub open spec fn dma_action(r: DmaRun) -> (DmaRun, Seq<u8>) {
    match r.current {
        None => if r.mdmaen == 0 {
            (r, Seq::empty())
        } else {
            (
                DmaRun {
                    current: Some(DmaProgress { channel: lowest_bit(r.mdmaen), unit_index: 0 }),
                    ..r
                },
                Seq::empty(),
            )
        },
        Some(p) => {
            let d = r.das[p.channel as int];
            let nd: u16 = if d == 0 {
                0xFFFF
            } else {
                (d - 1) as u16
            };
            let das = r.das.update(p.channel as int, nd);
            if nd == 0 {
                (
                    DmaRun { mdmaen: clear_bit(r.mdmaen, p.channel), current: None, das },
                    seq![p.channel],
                )
            } else {
                (
                    DmaRun {
                        mdmaen: r.mdmaen,
                        current: Some(
                            DmaProgress { channel: p.channel, unit_index: next_unit(p.unit_index) },
                        ),
                        das,
                    },
                    seq![p.channel],
                )
            }
        },
    }
}

/// `n` DMA actions from `r`: the state reached and the channels of the
/// bytes moved, in order.
pub open spec fn dma_run(r: DmaRun, n: nat) -> (DmaRun, Seq<u8>)
    decreases n,
{
    if n == 0 {
        (r, Seq::empty())
    } else {
        let (r1, m1) = dma_run(r, (n - 1) as nat);
        let (r2, m2) = dma_action(r1);
        (r2, m1 + m2)
    }
}

/// The DMA actions a transfer of the channels in `m` takes, with counters
/// `das`: per channel, one to select it and one per byte.
pub open spec fn transfer_actions(m: u8, das: Seq<u16>) -> nat
    decreases m,
{
    if m == 0 {
        0
    } else {
        let c = lowest_bit(m);
        proof {
            lemma_lowest_bit(m);
            lemma_byte_bits(m, c, c);
        }
        1 + dma_byte_count(das[c as int]) + transfer_actions(clear_bit(m, c), das)
    }
}

/// The channels of the bytes a transfer of the channels in `m` moves, in
/// order: lowest channel first, each channel its whole count at once.
pub open spec fn transfer_order(m: u8, das: Seq<u16>) -> Seq<u8>
    decreases m,
{
    if m == 0 {
        Seq::empty()
    } else {
        let c = lowest_bit(m);
        proof {
            lemma_lowest_bit(m);
            lemma_byte_bits(m, c, c);
        }
        Seq::new(dma_byte_count(das[c as int]), |i: int| c) + transfer_order(clear_bit(m, c), das)
    }
}

/// Running `a + b` actions is running `a`, then `b`.
proof fn lemma_run_split(r: DmaRun, a: nat, b: nat)
    ensures
        dma_run(r, a + b).0 == dma_run(dma_run(r, a).0, b).0,
        dma_run(r, a + b).1 == dma_run(r, a).1 + dma_run(dma_run(r, a).0, b).1,
    decreases b,
{
    if b == 0 {
        assert(dma_run(r, a).1 + Seq::<u8>::empty() =~= dma_run(r, a).1);
    } else {
        lemma_run_split(r, a, (b - 1) as nat);
        assert((a + b - 1) as nat == a + (b - 1) as nat);
        let x = dma_run(r, a).1;
        let y = dma_run(dma_run(r, a).0, (b - 1) as nat).1;
        let z = dma_action(dma_run(dma_run(r, a).0, (b - 1) as nat).0).1;
        assert((x + y) + z =~= x + (y + z));
    }
}

/// Serving one channel: from the first byte of channel `c`, after `j`
/// actions its counter has counted `j` bytes down; until its count is done
/// the channel stays current and queued, and with the last byte it leaves
/// MDMAEN and no transfer is under way.
proof fn lemma_serve_channel(m: u8, c: u8, u: u32, das: Seq<u16>, j: nat)
    requires
        das.len() == 8,
        c < 8,
        j <= dma_byte_count(das[c as int]),
    ensures
        ({
            let (r, moved) = dma_run(
                DmaRun { mdmaen: m, current: Some(DmaProgress { channel: c, unit_index: u }), das },
                j,
            );
            &&& moved =~= Seq::new(j, |i: int| c)
            &&& r.das =~= das.update(c as int, das_after(das[c as int], j) as u16)
            &&& j < dma_byte_count(das[c as int]) ==> r.mdmaen == m && r.current is Some
                && r.current.unwrap().channel == c
            &&& j == dma_byte_count(das[c as int]) ==> r.mdmaen == clear_bit(m, c)
                && r.current is None
        }),
    decreases j,
{
    let d = das[c as int];
    let r0 = DmaRun { mdmaen: m, current: Some(DmaProgress { channel: c, unit_index: u }), das };
    if j == 0 {
        assert(das_after(d, 0) == d as int);
        assert(das.update(c as int, d) =~= das);
    } else {
        lemma_serve_channel(m, c, u, das, (j - 1) as nat);
        let r1 = dma_run(r0, (j - 1) as nat).0;
        let x = das_after(d, (j - 1) as nat);
        assert(r1.das[c as int] == x as u16);
        assert(0 <= x < 0x10000);
        assert(das_after(d, j) == if x == 0 { 0xFFFFint } else { x - 1 });
        lemma_dma_byte_count(d, j);
    }
}

/// Channels not queued in `m` play no part in a transfer of `m`: counters
/// that agree on the queued channels give the same actions and order.
proof fn lemma_transfer_frame(m: u8, d1: Seq<u16>, d2: Seq<u16>)
    requires
        forall|k: u8| k < 8 && bit_set8(m, k) ==> d1[k as int] == d2[k as int],
    ensures
        transfer_actions(m, d1) == transfer_actions(m, d2),
        transfer_order(m, d1) == transfer_order(m, d2),
    decreases m,
{
    if m != 0 {
        let c = lowest_bit(m);
        lemma_lowest_bit(m);
        lemma_byte_bits(m, c, c);
        let m2 = clear_bit(m, c);
        assert forall|k: u8| k < 8 && bit_set8(m2, k) implies d1[k as int] == d2[k as int] by {
            lemma_byte_bits(m, c, k);
        }
        lemma_transfer_frame(m2, d1, d2);
    }
}

/// The channels in a transfer order are queued channels, in ascending order.
proof fn lemma_order_sorted(m: u8, das: Seq<u16>)
    ensures
        forall|i: int|
            0 <= i < transfer_order(m, das).len() ==> #[trigger] transfer_order(m, das)[i] < 8
                && bit_set8(m, transfer_order(m, das)[i]) && lowest_bit(m) <= transfer_order(m, das)[i],
        forall|i: int, j: int|
            0 <= i < j < transfer_order(m, das).len() ==> #[trigger] transfer_order(m, das)[i]
                <= #[trigger] transfer_order(m, das)[j],
    decreases m,
{
    if m != 0 {
        let c = lowest_bit(m);
        lemma_lowest_bit(m);
        lemma_byte_bits(m, c, c);
        let m2 = clear_bit(m, c);
        lemma_order_sorted(m2, das);
        let block = Seq::new(dma_byte_count(das[c as int]), |i: int| c);
        let rest = transfer_order(m2, das);
        assert(transfer_order(m, das) == block + rest);
        if m2 != 0 {
            lemma_lowest_bit(m2);
            let c2 = lowest_bit(m2);
            lemma_byte_bits(m, c, c2);
            if c2 <= c {
                if c2 < c {
                    assert(!bit_set8(m, c2));
                }
            }
            assert(c < c2);
        }
        assert forall|i: int| 0 <= i < rest.len() implies #[trigger] rest[i] < 8 && bit_set8(m, rest[i]) && c < rest[i] by {
            lemma_byte_bits(m, c, rest[i]);
        }
    }
}

/// A whole general-purpose DMA transfer. Started with the channels `m`
/// queued in MDMAEN, no transfer under way and counters `das`, after
/// [`transfer_actions`] DMA actions: the queued channels were served one at
/// a time, lowest channel first, each moving its whole count of bytes
/// ([`dma_byte_count`]: its DAS, or 65 536 for 0) before the next starts
/// ([`transfer_order`]); every queued channel ends with DAS 0, every other
/// channel keeps its DAS; MDMAEN is empty and no transfer is under way, so
/// the next action ends the transfer and frees the bus.
pub proof fn lemma_whole_transfer(m: u8, das: Seq<u16>)
    requires
        das.len() == 8,
    ensures
        ({
            let (r, moved) = dma_run(DmaRun { mdmaen: m, current: None, das }, transfer_actions(m, das));
            &&& r.mdmaen == 0
            &&& r.current is None
            &&& r.das.len() == 8
            &&& forall|k: u8| k < 8 ==> #[trigger] r.das[k as int] == if bit_set8(m, k) {
                0
            } else {
                das[k as int]
            }
            &&& moved == transfer_order(m, das)
            &&& forall|i: int| 0 <= i < moved.len() ==> #[trigger] moved[i] < 8 && bit_set8(m, moved[i])
            &&& forall|i: int, j: int| 0 <= i < j < moved.len() ==> #[trigger] moved[i] <= #[trigger] moved[j]
        }),
    decreases m,
{
    lemma_order_sorted(m, das);
    let r0 = DmaRun { mdmaen: m, current: None, das };
    if m == 0 {
        assert forall|k: u8| k < 8 implies !#[trigger] bit_set8(m, k) by {
            lemma_byte_bits(m, k, k);
        }
    } else {
        let c = lowest_bit(m);
        lemma_lowest_bit(m);
        lemma_byte_bits(m, c, c);
        let m2 = clear_bit(m, c);
        let cnt = dma_byte_count(das[c as int]);
        let das2 = das.update(c as int, 0);
        // Select the channel.
        let ra = DmaRun { mdmaen: m, current: Some(DmaProgress { channel: c, unit_index: 0 }), das };
        assert(dma_run(r0, 0) == (r0, Seq::<u8>::empty()));
        assert(dma_run(r0, 1).0 == ra);
        assert(dma_run(r0, 1).1 =~= Seq::<u8>::empty());
        // Move its bytes.
        lemma_serve_channel(m, c, 0, das, cnt);
        lemma_dma_byte_count(das[c as int], cnt);
        assert(das_after(das[c as int], cnt) == 0);
        let rb = DmaRun { mdmaen: m2, current: None, das: das2 };
        assert(dma_run(ra, cnt).0 == rb);
        lemma_run_split(r0, 1, cnt);
        // The rest of the queue.
        assert forall|k: u8| k < 8 && bit_set8(m2, k) implies das2[k as int] == das[k as int] by {
            lemma_byte_bits(m, c, k);
        }
        lemma_transfer_frame(m2, das2, das);
        lemma_whole_transfer(m2, das2);
        lemma_run_split(r0, 1 + cnt, transfer_actions(m2, das));
        assert(transfer_actions(m, das) == 1 + cnt + transfer_actions(m2, das));
        let (r, moved) = dma_run(r0, transfer_actions(m, das));
        assert forall|k: u8| k < 8 implies #[trigger] r.das[k as int] == if bit_set8(m, k) {
            0
        } else {
            das[k as int]
        } by {
            lemma_byte_bits(m, c, k);
        }
        assert(moved =~= Seq::<u8>::empty() + Seq::new(cnt, |i: int| c) + transfer_order(m2, das2));
        assert(moved =~= transfer_order(m, das));
    }
}

} // verus!
