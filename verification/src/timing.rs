use vstd::prelude::*;

use crate::constants::HDMA_START_DOT;
use crate::dma::Dma;

verus! {

/// Master cycles the auto-joypad read keeps HVBJOY bit 0 busy.
pub const AUTO_JOYPAD_READ_CYCLES: u32 = 4224;

/// Master cycles from the start of V-Blank to the auto-joypad strobe.
pub const AUTO_JOYPAD_START_DELAY: u32 = 298;

/// The once-per-frame auto-joypad read, in its two hardware phases.
#[derive(Clone, Copy, Debug, PartialEq, Eq, Structural)]
pub enum AutoJoypad {
    /// Not reading this frame.
    Idle,
    /// V-Blank started; master cycles left before the controllers are strobed.
    Pending(u32),
    /// Strobed; master cycles left before HVBJOY bit 0 clears.
    Reading(u32),
}

/// What a master cycle of the auto-joypad read does to the bus.
#[derive(Clone, Copy, Debug, PartialEq, Eq, Structural)]
pub enum JoypadAction {
    /// Nothing.
    Nothing,
    /// Snapshot the pads and set the busy flag.
    Strobe,
    /// Clear the busy flag.
    Done,
}

/// A state that counts down from at least one cycle.
pub open spec fn joypad_ok(s: AutoJoypad) -> bool {
    match s {
        AutoJoypad::Pending(n) => n >= 1,
        AutoJoypad::Reading(n) => n >= 1,
        AutoJoypad::Idle => true,
    }
}

/// One master cycle of the auto-joypad read: the pending count runs down to
/// the strobe, which starts the read; the read count runs down to the end
/// of the read.
pub open spec fn joypad_step_spec(s: AutoJoypad) -> (AutoJoypad, JoypadAction) {
    match s {
        AutoJoypad::Pending(n) => if n == 1 {
            (AutoJoypad::Reading(AUTO_JOYPAD_READ_CYCLES), JoypadAction::Strobe)
        } else {
            (AutoJoypad::Pending((n - 1) as u32), JoypadAction::Nothing)
        },
        AutoJoypad::Reading(n) => if n == 1 {
            (AutoJoypad::Idle, JoypadAction::Done)
        } else {
            (AutoJoypad::Reading((n - 1) as u32), JoypadAction::Nothing)
        },
        AutoJoypad::Idle => (AutoJoypad::Idle, JoypadAction::Nothing),
    }
}

/// One master cycle of the auto-joypad read, as [`joypad_step_spec`] says.
pub fn step_auto_joypad(s: AutoJoypad) -> (r: (AutoJoypad, JoypadAction))
    requires
        joypad_ok(s),
    ensures
        r == joypad_step_spec(s),
        joypad_ok(r.0),
{
    match s {
        AutoJoypad::Pending(1) => (AutoJoypad::Reading(AUTO_JOYPAD_READ_CYCLES), JoypadAction::Strobe),
        AutoJoypad::Pending(n) => (AutoJoypad::Pending(n - 1), JoypadAction::Nothing),
        AutoJoypad::Reading(1) => (AutoJoypad::Idle, JoypadAction::Done),
        AutoJoypad::Reading(n) => (AutoJoypad::Reading(n - 1), JoypadAction::Nothing),
        AutoJoypad::Idle => (AutoJoypad::Idle, JoypadAction::Nothing),
    }
}

/// The read scheduled at the start of V-Blank: it starts when auto-joypad
/// reading is enabled, and otherwise the state stays.
pub fn schedule_auto_joypad(s: AutoJoypad, enabled: bool) -> (r: AutoJoypad)
    ensures
        r == (if enabled {
            AutoJoypad::Pending(AUTO_JOYPAD_START_DELAY)
        } else {
            s
        }),
{
    if enabled {
        AutoJoypad::Pending(AUTO_JOYPAD_START_DELAY)
    } else {
        s
    }
}

/// The state after `k` master cycles from `s`, and the action of the last.
pub open spec fn joypad_run(s: AutoJoypad, k: nat) -> (AutoJoypad, JoypadAction)
    decreases k,
{
    if k == 0 {
        (s, JoypadAction::Nothing)
    } else {
        joypad_step_spec(joypad_run(s, (k - 1) as nat).0)
    }
}

proof fn lemma_joypad_countdown(n: u32, k: nat, reading: bool)
    requires
        1 <= k < n,
    ensures
        joypad_run(if reading { AutoJoypad::Reading(n) } else { AutoJoypad::Pending(n) }, k) == (
            if reading {
                AutoJoypad::Reading((n - k) as u32)
            } else {
                AutoJoypad::Pending((n - k) as u32)
            },
            JoypadAction::Nothing,
        ),
    decreases k,
{
    let s = if reading {
        AutoJoypad::Reading(n)
    } else {
        AutoJoypad::Pending(n)
    };
    assert(joypad_run(s, k) == joypad_step_spec(joypad_run(s, (k - 1) as nat).0));
    if k > 1 {
        lemma_joypad_countdown(n, (k - 1) as nat, reading);
    }
}

proof fn lemma_joypad_run_split(s: AutoJoypad, a: nat, b: nat)
    ensures
        joypad_run(s, a + b).0 == joypad_run(joypad_run(s, a).0, b).0,
        b > 0 ==> joypad_run(s, a + b).1 == joypad_run(joypad_run(s, a).0, b).1,
    decreases b,
{
    if b > 0 {
        lemma_joypad_run_split(s, a, (b - 1) as nat);
        assert((a + b - 1) as nat == a + (b - 1) as nat);
    }
}

/// Once scheduled, the controllers are strobed on exactly the 298th master
/// cycle, and the busy flag clears exactly 4224 cycles after that; nothing
/// happens on the cycles between.
pub proof fn lemma_auto_joypad_timeline(k: nat)
    requires
        1 <= k <= AUTO_JOYPAD_START_DELAY + AUTO_JOYPAD_READ_CYCLES,
    ensures
        joypad_run(AutoJoypad::Pending(AUTO_JOYPAD_START_DELAY), k).1 == if k
            == AUTO_JOYPAD_START_DELAY {
            JoypadAction::Strobe
        } else if k == AUTO_JOYPAD_START_DELAY + AUTO_JOYPAD_READ_CYCLES {
            JoypadAction::Done
        } else {
            JoypadAction::Nothing
        },
        joypad_run(
            AutoJoypad::Pending(AUTO_JOYPAD_START_DELAY),
            (AUTO_JOYPAD_START_DELAY + AUTO_JOYPAD_READ_CYCLES) as nat,
        ).0 == AutoJoypad::Idle,
{
    let s = AutoJoypad::Pending(AUTO_JOYPAD_START_DELAY);
    let d = AUTO_JOYPAD_START_DELAY as nat;
    let r = AUTO_JOYPAD_READ_CYCLES as nat;
    // The strobe.
    lemma_joypad_countdown(AUTO_JOYPAD_START_DELAY, (d - 1) as nat, false);
    assert(joypad_run(s, d) == (AutoJoypad::Reading(AUTO_JOYPAD_READ_CYCLES), JoypadAction::Strobe));
    // The end of the read.
    let t = AutoJoypad::Reading(AUTO_JOYPAD_READ_CYCLES);
    lemma_joypad_countdown(AUTO_JOYPAD_READ_CYCLES, (r - 1) as nat, true);
    assert(joypad_run(t, r) == (AutoJoypad::Idle, JoypadAction::Done));
    lemma_joypad_run_split(s, d, r);
    if k < d {
        lemma_joypad_countdown(AUTO_JOYPAD_START_DELAY, k, false);
    } else if d < k && k < d + r {
        lemma_joypad_countdown(AUTO_JOYPAD_READ_CYCLES, (k - d) as nat, true);
        lemma_joypad_run_split(s, d, (k - d) as nat);
    }
}

/// How the CPU's H/V timer interrupt is set (NMITIMEN bits 5-4).
#[derive(Clone, Copy, Debug, PartialEq, Eq, Structural)]
pub enum IrqMode {
    Disabled,
    H,
    V,
    HV,
}

/// The timer mode of NMITIMEN `nmitimen`.
pub fn irq_mode(nmitimen: u8) -> (r: IrqMode)
    ensures
        r == match (nmitimen / 16) % 4 {
            0 => IrqMode::Disabled,
            1 => IrqMode::H,
            2 => IrqMode::V,
            _ => IrqMode::HV,
        },
{
    let bits = (nmitimen >> 4u8) & 0x03;
    assert(bits == (nmitimen / 16) % 4) by (bit_vector)
        requires
            bits == (nmitimen >> 4u8) & 0x03,
    ;
    match bits {
        0 => IrqMode::Disabled,
        1 => IrqMode::H,
        2 => IrqMode::V,
        _ => IrqMode::HV,
    }
}

/// The master cycle of the scanline at which the timer interrupt fires, if
/// it fires on scanline `v`: in H mode on every line at `h_offset` plus 4
/// per dot of HTIME; in V mode on line VTIME at `v_cycles`; in HV mode on
/// line VTIME at the H position, or at `v_cycles` when HTIME is 0.
pub open spec fn irq_target_spec(mode: IrqMode, v: u16, vtime: u16, htime: u16, h_offset: u32, v_cycles: u32) -> Option<int> {
    match mode {
        IrqMode::Disabled => None,
        IrqMode::H => Some(h_offset + htime * 4),
        IrqMode::V => if v != vtime {
            None
        } else {
            Some(v_cycles as int)
        },
        IrqMode::HV => if v != vtime {
            None
        } else if htime == 0 {
            Some(v_cycles as int)
        } else {
            Some(h_offset + htime * 4)
        },
    }
}

/// Whether the timer interrupt fires at master cycle `h_cycles` of scanline
/// `v`, as [`irq_target_spec`] places it.
pub fn hv_irq_fires(
    mode: IrqMode,
    v: u16,
    h_cycles: u32,
    vtime: u16,
    htime: u16,
    h_offset: u32,
    v_cycles: u32,
) -> (r: bool)
    requires
        h_offset + htime * 4 <= u32::MAX,
    ensures
        r == (irq_target_spec(mode, v, vtime, htime, h_offset, v_cycles) == Some(h_cycles as int)),
{
    let target = match mode {
        IrqMode::Disabled => {
            return false;
        },
        IrqMode::H => h_offset + htime as u32 * 4,
        IrqMode::V => {
            if v != vtime {
                return false;
            }
            v_cycles
        },
        IrqMode::HV => {
            if v != vtime {
                return false;
            }
            if htime == 0 {
                v_cycles
            } else {
                h_offset + htime as u32 * 4
            }
        },
    };
    h_cycles == target
}

/// The NMI request after a master cycle: it rises when the NMI line (NMI
/// enabled and the V-Blank NMI flag set) goes from low to high, and stays
/// otherwise. Returns the new pending request and the new line level.
pub fn poll_nmi(nmi_enabled: bool, nmi_flag: bool, line_before: bool, pending: bool) -> (r: (bool, bool))
    ensures
        r.1 == (nmi_enabled && nmi_flag),
        r.0 == (pending || (r.1 && !line_before)),
{
    let line = nmi_enabled && nmi_flag;
    let now_pending = if line && !line_before {
        true
    } else {
        pending
    };
    (now_pending, line)
}

impl Dma {
    /// HDMA comes due at dot 278 of every scanline before V-Blank while
    /// HDMAEN selects a channel.
    pub fn poll_hdma_start(&mut self, h_cycles: u32, scanline: u16, vblank_start_line: u16, hdmaen: u8)
        ensures
            final(self).hdma_pending == (old(self).hdma_pending || (h_cycles == HDMA_START_DOT * 4
                && scanline < vblank_start_line && hdmaen != 0)),
            final(self).hdma_init == old(self).hdma_init,
            final(self).state == old(self).state,
            final(self).wait == old(self).wait,
            final(self).dma == old(self).dma,
            final(self).dma_running == old(self).dma_running,
            final(self).hdma_queue == old(self).hdma_queue,
            final(self).channels == old(self).channels,
    {
        if h_cycles == HDMA_START_DOT as u32 * 4 && scanline < vblank_start_line && hdmaen != 0 {
            self.hdma_pending = true;
        }
    }

    /// At the start of a frame, HDMA with a channel selected is due for its
    /// once-per-frame init.
    pub fn on_frame_start(&mut self, hdmaen: u8)
        ensures
            hdmaen != 0 ==> final(self).hdma_pending && final(self).hdma_init,
            hdmaen == 0 ==> final(self).hdma_pending == old(self).hdma_pending
                && final(self).hdma_init == old(self).hdma_init,
            final(self).state == old(self).state,
            final(self).wait == old(self).wait,
            final(self).dma == old(self).dma,
            final(self).dma_running == old(self).dma_running,
            final(self).hdma_queue == old(self).hdma_queue,
            final(self).channels == old(self).channels,
    {
        if hdmaen != 0 {
            self.hdma_pending = true;
            self.hdma_init = true;
        }
    }
}

/// APU steps owed after one more master cycle, and the remaining debt: the
/// APU clock `apu_hz` accrues each master cycle and one step is paid per
/// whole `master_hz`.
pub fn apu_catch_up(debt: u64, apu_hz: u64, master_hz: u64) -> (r: (u64, u64))
    requires
        master_hz > 0,
        debt + apu_hz <= u64::MAX,
    ensures
        r.0 == (debt + apu_hz) % (master_hz as int),
        r.1 == (debt + apu_hz) / (master_hz as int),
{
    let mut d = debt + apu_hz;
    let mut steps: u64 = 0;
    while d >= master_hz
        invariant
            master_hz > 0,
            debt + apu_hz <= u64::MAX,
            d + steps * master_hz == debt + apu_hz,
        decreases d,
    {
        proof {
            assert((steps + 1) * master_hz == steps * master_hz + master_hz) by (nonlinear_arith);
            assert(steps + 1 <= (steps + 1) * master_hz) by (nonlinear_arith)
                requires
                    master_hz >= 1,
            ;
        }
        d = d - master_hz;
        steps = steps + 1;
    }
    proof {
        vstd::arithmetic::div_mod::lemma_fundamental_div_mod_converse(
            (debt + apu_hz) as int,
            master_hz as int,
            steps as int,
            d as int,
        );
    }
    (d, steps)
}

/// Debt and steps after `n` master cycles from no debt.
pub open spec fn apu_run(apu_hz: nat, master_hz: nat, n: nat) -> (nat, nat)
    decreases n,
{
    if n == 0 {
        (0, 0)
    } else {
        let (d, s) = apu_run(apu_hz, master_hz, (n - 1) as nat);
        ((d + apu_hz) % master_hz, s + (d + apu_hz) / master_hz)
    }
}

/// After `n` master cycles the APU has taken exactly `n * apu_hz / master_hz`
/// steps (rounded down), and the debt is the remainder: the APU keeps the
/// clock ratio with no drift.
pub proof fn lemma_apu_no_drift(apu_hz: nat, master_hz: nat, n: nat)
    requires
        master_hz > 0,
    ensures
        apu_run(apu_hz, master_hz, n).0 == (n * apu_hz) % master_hz,
        apu_run(apu_hz, master_hz, n).1 == (n * apu_hz) / master_hz,
    decreases n,
{
    if n > 0 {
        lemma_apu_no_drift(apu_hz, master_hz, (n - 1) as nat);
        let prev = ((n - 1) * apu_hz) as int;
        let m = master_hz as int;
        let a = apu_hz as int;
        assert(n * apu_hz == prev + a) by (nonlinear_arith)
            requires
                prev == (n - 1) * apu_hz,
                a == apu_hz,
        ;
        let q1 = prev / m;
        let r1 = prev % m;
        let q2 = (r1 + a) / m;
        let r2 = (r1 + a) % m;
        vstd::arithmetic::div_mod::lemma_fundamental_div_mod(prev, m);
        vstd::arithmetic::div_mod::lemma_fundamental_div_mod(r1 + a, m);
        assert(prev + a == (q1 + q2) * m + r2) by (nonlinear_arith)
            requires
                prev == m * q1 + r1,
                r1 + a == m * q2 + r2,
        ;
        vstd::arithmetic::div_mod::lemma_fundamental_div_mod_converse(prev + a, m, q1 + q2, r2);
        assert(apu_run(apu_hz, master_hz, (n - 1) as nat) == (r1 as nat, q1 as nat));
        assert(r1 >= 0 && q1 >= 0 && q2 >= 0 && r2 >= 0) by {
            vstd::arithmetic::div_mod::lemma_div_pos_is_pos(prev, m);
            vstd::arithmetic::div_mod::lemma_div_pos_is_pos(r1 + a, m);
        }
        assert(apu_run(apu_hz, master_hz, n) == (r2 as nat, (q1 + q2) as nat));
    } else {
        assert(n * apu_hz == 0) by (nonlinear_arith)
            requires
                n == 0,
        ;
    }
}

} // verus!
