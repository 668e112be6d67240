//! The audio processor: two pulse channels, a triangle channel, a noise
//! channel, a sampled channel that stays silent, the frame counter that
//! sequences them, and the levels that the mixer is fed.

use crate::mapper::{read_outcome, write_outcome, AddressSpace, BusError};
use crate::common::Clocked;
use vstd::prelude::*;

verus! {

/// The registers of the audio processor as the processor sees them.
#[allow(non_camel_case_types)]
#[derive(Copy, Clone, Debug, PartialEq, Eq, Structural)]
pub enum ApuPort {
    SQ1_VOL,
    SQ1_SWEEP,
    SQ1_LO,
    SQ1_HI,
    SQ2_VOL,
    SQ2_SWEEP,
    SQ2_LO,
    SQ2_HI,
    TRI_LINEAR,
    TRI_LO,
    TRI_HI,
    NOISE_VOL,
    NOISE_LO,
    NOISE_HI,
    DMC_FREQ,
    DMC_RAW,
    DMC_START,
    DMC_LEN,
    SND_CHN,
    FRAME_COUNTER,
}

/// The register that the processor address `ptr` names: `$4000..=$4013`
/// without `$4009` and `$400D`, then `$4015` and `$4017`.
pub open spec fn apu_port_at(ptr: u16) -> Option<ApuPort> {
    if ptr == 0x4000 {
        Some(ApuPort::SQ1_VOL)
    } else if ptr == 0x4001 {
        Some(ApuPort::SQ1_SWEEP)
    } else if ptr == 0x4002 {
        Some(ApuPort::SQ1_LO)
    } else if ptr == 0x4003 {
        Some(ApuPort::SQ1_HI)
    } else if ptr == 0x4004 {
        Some(ApuPort::SQ2_VOL)
    } else if ptr == 0x4005 {
        Some(ApuPort::SQ2_SWEEP)
    } else if ptr == 0x4006 {
        Some(ApuPort::SQ2_LO)
    } else if ptr == 0x4007 {
        Some(ApuPort::SQ2_HI)
    } else if ptr == 0x4008 {
        Some(ApuPort::TRI_LINEAR)
    } else if ptr == 0x400A {
        Some(ApuPort::TRI_LO)
    } else if ptr == 0x400B {
        Some(ApuPort::TRI_HI)
    } else if ptr == 0x400C {
        Some(ApuPort::NOISE_VOL)
    } else if ptr == 0x400E {
        Some(ApuPort::NOISE_LO)
    } else if ptr == 0x400F {
        Some(ApuPort::NOISE_HI)
    } else if ptr == 0x4010 {
        Some(ApuPort::DMC_FREQ)
    } else if ptr == 0x4011 {
        Some(ApuPort::DMC_RAW)
    } else if ptr == 0x4012 {
        Some(ApuPort::DMC_START)
    } else if ptr == 0x4013 {
        Some(ApuPort::DMC_LEN)
    } else if ptr == 0x4015 {
        Some(ApuPort::SND_CHN)
    } else if ptr == 0x4017 {
        Some(ApuPort::FRAME_COUNTER)
    } else {
        None
    }
}

/// The register that the processor address `ptr` names.
pub fn map_apu_port(ptr: u16) -> (r: Option<ApuPort>)
    ensures
        r == apu_port_at(ptr),
{
    match ptr {
        0x4000 => Some(ApuPort::SQ1_VOL),
        0x4001 => Some(ApuPort::SQ1_SWEEP),
        0x4002 => Some(ApuPort::SQ1_LO),
        0x4003 => Some(ApuPort::SQ1_HI),
        0x4004 => Some(ApuPort::SQ2_VOL),
        0x4005 => Some(ApuPort::SQ2_SWEEP),
        0x4006 => Some(ApuPort::SQ2_LO),
        0x4007 => Some(ApuPort::SQ2_HI),
        0x4008 => Some(ApuPort::TRI_LINEAR),
        0x400A => Some(ApuPort::TRI_LO),
        0x400B => Some(ApuPort::TRI_HI),
        0x400C => Some(ApuPort::NOISE_VOL),
        0x400E => Some(ApuPort::NOISE_LO),
        0x400F => Some(ApuPort::NOISE_HI),
        0x4010 => Some(ApuPort::DMC_FREQ),
        0x4011 => Some(ApuPort::DMC_RAW),
        0x4012 => Some(ApuPort::DMC_START),
        0x4013 => Some(ApuPort::DMC_LEN),
        0x4015 => Some(ApuPort::SND_CHN),
        0x4017 => Some(ApuPort::FRAME_COUNTER),
        _ => None,
    }
}

/// The sequencer that times the envelopes, counters and sweeps: `step`
/// counts up to 14914 in four-step mode and to 18640 in five-step mode,
/// then starts over.
#[derive(Copy, Clone, Debug, PartialEq, Eq, Structural)]
pub struct FrameCounter {
    pub step: u16,
    pub interrupt_inhibit: bool,
    /// Clear for four steps, set for five.
    pub mode: bool,
}

/// The step after `step`.
pub open spec fn next_step(step: u16, mode: bool) -> u16 {
    let cap: int = if mode {
        18641
    } else {
        14915
    };
    if step + 1 >= cap {
        (step + 1 - cap) as u16
    } else {
        (step + 1) as u16
    }
}

/// Whether envelopes and the linear counter are clocked at `step`.
pub open spec fn quarter_frame_at(step: u16, mode: bool) -> bool {
    step == 3728 || step == 7456 || step == 11185 || (!mode && step == 14914) || (mode && step
        == 18640)
}

/// Whether length counters and sweeps are clocked at `step`.
pub open spec fn half_frame_at(step: u16, mode: bool) -> bool {
    step == 7456 || (!mode && step == 14914) || (mode && step == 18640)
}

impl FrameCounter {
    /// A fresh one, as at power-on.
    pub fn new() -> (r: FrameCounter)
        ensures
            r == (FrameCounter { step: 0, interrupt_inhibit: false, mode: false }),
    {
        FrameCounter { step: 0, interrupt_inhibit: false, mode: false }
    }

    /// Whether envelopes and the linear counter are clocked at this step.
    pub fn is_quarter_frame_edge(&self) -> (r: bool)
        ensures
            r == quarter_frame_at(self.step, self.mode),
    {
        self.step == 3728 || self.step == 7456 || self.step == 11185 || (!self.mode && self.step
            == 14914) || (self.mode && self.step == 18640)
    }

    /// Whether length counters and sweeps are clocked at this step.
    pub fn is_half_frame_edge(&self) -> (r: bool)
        ensures
            r == half_frame_at(self.step, self.mode),
    {
        self.step == 7456 || (!self.mode && self.step == 14914) || (self.mode && self.step
            == 18640)
    }

    /// Whether a four-step sequence ends at this step.
    pub fn is_frame_edge(&self) -> (r: bool)
        ensures
            r == (!self.mode && self.step == 14914),
    {
        !self.mode && self.step == 14914
    }

    /// Takes a write to `$4017`: bit 7 selects five steps, bit 6 inhibits
    /// the interrupt.
    pub fn write_control(&mut self, value: u8)
        ensures
            *final(self) == (FrameCounter {
                mode: value >= 128,
                interrupt_inhibit: (value / 64) % 2 == 1,
                ..*old(self)
            }),
    {
        self.mode = value >= 128;
        self.interrupt_inhibit = (value / 64) % 2 == 1;
    }

    /// Advances by one step.
    pub fn clock(&mut self)
        ensures
            *final(self) == (FrameCounter {
                step: next_step(old(self).step, old(self).mode),
                ..*old(self)
            }),
    {
        let cap: u32 = if self.mode {
            18641
        } else {
            14915
        };
        let next: u32 = self.step as u32 + 1;
        if next >= cap {
            self.step = (next - cap) as u16;
        } else {
            self.step = next as u16;
        }
    }
}

/// Counts down the length of a note; a channel is silent once it is at zero.
#[derive(Copy, Clone, Debug, PartialEq, Eq, Structural)]
pub struct LengthCounter {
    pub enabled: bool,
    pub halt: bool,
    pub counter: u8,
}

/// The lengths that the 32 values of a length load stand for.
pub const LENGTH_COUNTER_LOOKUP_TABLE: [u8; 32] = [
    10,
    254,
    20,
    2,
    40,
    4,
    80,
    6,
    160,
    8,
    60,
    10,
    14,
    12,
    26,
    14,
    12,
    16,
    24,
    18,
    48,
    20,
    96,
    22,
    192,
    24,
    72,
    26,
    16,
    28,
    32,
    30,
];

/// The counter after a half-frame clock.
pub open spec fn length_clocked(c: LengthCounter) -> LengthCounter {
    if c.counter == 0 || c.halt {
        c
    } else {
        LengthCounter { counter: (c.counter - 1) as u8, ..c }
    }
}

impl LengthCounter {
    /// A fresh one, as at power-on.
    pub fn new() -> (r: LengthCounter)
        ensures
            r == (LengthCounter { enabled: true, halt: false, counter: 0 }),
    {
        LengthCounter { enabled: true, halt: false, counter: 0 }
    }

    /// Whether the unit silences its channel.
    pub fn is_silenced(&self) -> (r: bool)
        ensures
            r == (self.counter == 0 || !self.enabled),
    {
        self.counter == 0 || !self.enabled
    }

    /// Whether the channel is enabled.
    pub fn is_enabled(&self) -> (r: bool)
        ensures
            r == self.enabled,
    {
        self.enabled
    }

    /// Enables or disables the counter; disabling empties it.
    pub fn set_enabled(&mut self, x: bool)
        ensures
            *final(self) == (LengthCounter {
                enabled: x,
                counter: if x {
                    old(self).counter
                } else {
                    0
                },
                ..*old(self)
            }),
    {
        if !x {
            self.counter = 0;
        }
        self.enabled = x;
    }

    /// Sets the halt flag.
    pub fn set_halt(&mut self, x: bool)
        ensures
            *final(self) == (LengthCounter { halt: x, ..*old(self) }),
    {
        self.halt = x;
    }

    /// Loads the length that the low five bits of `x` stand for, if enabled.
    pub fn set_load(&mut self, x: u8)
        ensures
            *final(self) == (LengthCounter {
                counter: if old(self).enabled {
                    LENGTH_COUNTER_LOOKUP_TABLE[(x % 32) as int]
                } else {
                    old(self).counter
                },
                ..*old(self)
            }),
    {
        if self.enabled {
            self.counter = LENGTH_COUNTER_LOOKUP_TABLE[(x % 32) as usize];
        }
    }

    /// Advances by one clock.
    pub fn clock(&mut self)
        ensures
            *final(self) == length_clocked(*old(self)),
    {
        if self.counter == 0 || self.halt {
        } else {
            self.counter = self.counter - 1;
        }
    }
}

/// The second counter of the triangle channel.
#[derive(Copy, Clone, Debug, PartialEq, Eq, Structural)]
pub struct LinearCounter {
    pub counter: u8,
    pub reload_value: u8,
    pub reload: bool,
    pub enabled: bool,
}

/// The counter after a quarter-frame clock: reloaded while the reload flag
/// is up, else counted down; the flag falls if the counter is enabled.
pub open spec fn linear_clocked(c: LinearCounter) -> LinearCounter {
    LinearCounter {
        counter: if c.reload {
            c.reload_value
        } else if c.counter != 0 {
            (c.counter - 1) as u8
        } else {
            c.counter
        },
        reload: c.reload && !c.enabled,
        ..c
    }
}

impl LinearCounter {
    /// A fresh one, as at power-on.
    pub fn new() -> (r: LinearCounter)
        ensures
            r == (LinearCounter { counter: 0, reload_value: 0, reload: false, enabled: false }),
    {
        LinearCounter { counter: 0, reload_value: 0, reload: false, enabled: false }
    }

    /// Sets the value the counter reloads to.
    pub fn set_reload_value(&mut self, value: u8)
        ensures
            *final(self) == (LinearCounter { reload_value: value, ..*old(self) }),
    {
        self.reload_value = value;
    }

    /// Sets the reload flag.
    pub fn set_reload_flag(&mut self, value: bool)
        ensures
            *final(self) == (LinearCounter { reload: value, ..*old(self) }),
    {
        self.reload = value;
    }

    /// Whether the unit silences its channel.
    pub fn is_silenced(&self) -> (r: bool)
        ensures
            r == (self.counter == 0),
    {
        self.counter == 0
    }

    /// Enables or disables the channel.
    pub fn set_enabled(&mut self, value: bool)
        ensures
            *final(self) == (LinearCounter { enabled: value, ..*old(self) }),
    {
        self.enabled = value;
    }

    /// Advances by one clock.
    pub fn clock(&mut self)
        ensures
            *final(self) == linear_clocked(*old(self)),
    {
        if self.reload {
            self.counter = self.reload_value;
        } else {
            if self.counter != 0 {
                self.counter = self.counter - 1;
            }
        }
        if self.enabled {
            self.reload = false;
        }
    }
}

/// `period` with its low byte replaced by `x`.
pub open spec fn with_low_byte(period: u16, x: u8) -> u16 {
    ((period / 256) * 256 + x) as u16
}

/// `period` with bits 8 to 10 taken from the low three bits of `x` and
/// nothing above them.
pub open spec fn with_high_bits(period: u16, x: u8) -> u16 {
    (period % 256 + (x % 8) * 256) as u16
}

/// Computes [`with_low_byte`].
pub fn set_low_byte(period: u16, x: u8) -> (r: u16)
    ensures
        r == with_low_byte(period, x),
{
    (period / 256) * 256 + x as u16
}

/// Computes [`with_high_bits`].
pub fn set_high_bits(period: u16, x: u8) -> (r: u16)
    ensures
        r == with_high_bits(period, x),
{
    period % 256 + ((x % 8) as u16) * 256
}

/// The triangle channel.
#[derive(Copy, Clone, Debug, PartialEq, Eq, Structural)]
pub struct Triangle {
    pub timer_period: u16,
    pub timer: u16,
    pub sequencer_step: u8,
    pub length_counter: LengthCounter,
    pub linear_counter: LinearCounter,
}

/// Whether either counter of the channel is at zero or the channel disabled.
pub open spec fn triangle_silenced(t: Triangle) -> bool {
    t.length_counter.counter == 0 || !t.length_counter.enabled || t.linear_counter.counter == 0
}

/// The channel after a timer clock: the timer counts down and, from zero,
/// reloads and moves the sequencer one of its 32 steps on unless the
/// channel is silenced.
pub open spec fn triangle_clocked(t: Triangle) -> Triangle {
    if t.timer == 0 {
        Triangle {
            timer: t.timer_period,
            sequencer_step: if triangle_silenced(t) {
                t.sequencer_step
            } else {
                ((t.sequencer_step + 1) % 32) as u8
            },
            ..t
        }
    } else {
        Triangle { timer: (t.timer - 1) as u16, ..t }
    }
}

/// The level of the triangle at sequencer step `step`: down from 15 to 0,
/// then up from 0 to 15.
pub open spec fn triangle_level(step: u8) -> u8 {
    if step % 32 < 16 {
        (15 - step % 32) as u8
    } else {
        (step % 32 - 16) as u8
    }
}

impl Triangle {
    /// A fresh one, as at power-on.
    pub fn new() -> (r: Triangle)
        ensures
            r == (Triangle {
                timer_period: 0,
                timer: 0,
                sequencer_step: 0,
                length_counter: LengthCounter { enabled: true, halt: false, counter: 0 },
                linear_counter: LinearCounter {
                    counter: 0,
                    reload_value: 0,
                    reload: false,
                    enabled: false,
                },
            }),
    {
        Triangle {
            timer_period: 0,
            timer: 0,
            sequencer_step: 0,
            length_counter: LengthCounter::new(),
            linear_counter: LinearCounter::new(),
        }
    }

    /// Whether the unit silences its channel.
    pub fn is_silenced(&self) -> (r: bool)
        ensures
            r == triangle_silenced(*self),
    {
        self.length_counter.is_silenced() || self.linear_counter.is_silenced()
    }

    /// Whether the channel is enabled.
    pub fn is_enabled(&self) -> (r: bool)
        ensures
            r == self.length_counter.enabled,
    {
        self.length_counter.is_enabled()
    }

    /// Enables or disables both counters.
    pub fn set_enabled(&mut self, x: bool)
        ensures
            *final(self) == (Triangle {
                length_counter: LengthCounter {
                    enabled: x,
                    counter: if x {
                        old(self).length_counter.counter
                    } else {
                        0
                    },
                    ..old(self).length_counter
                },
                linear_counter: LinearCounter { enabled: x, ..old(self).linear_counter },
                ..*old(self)
            }),
    {
        self.length_counter.set_enabled(x);
        self.linear_counter.set_enabled(x);
    }

    /// Enables or disables the length counter.
    pub fn write_enabled(&mut self, x: bool)
        ensures
            *final(self) == (Triangle {
                length_counter: LengthCounter {
                    enabled: x,
                    counter: if x {
                        old(self).length_counter.counter
                    } else {
                        0
                    },
                    ..old(self).length_counter
                },
                ..*old(self)
            }),
    {
        self.length_counter.set_enabled(x);
    }

    /// Takes a write to `$4008`: bit 7 halts the length counter and raises
    /// the reload flag, the low seven bits are the reload value.
    pub fn write_linear_counter(&mut self, x: u8)
        ensures
            *final(self) == (Triangle {
                length_counter: LengthCounter { halt: x >= 128, ..old(self).length_counter },
                linear_counter: LinearCounter {
                    reload: x >= 128,
                    reload_value: x % 128,
                    ..old(self).linear_counter
                },
                ..*old(self)
            }),
    {
        let flag = x >= 128;
        self.length_counter.set_halt(flag);
        self.linear_counter.set_reload_flag(flag);
        self.linear_counter.set_reload_value(x % 128);
    }

    /// Takes a write to `$400A`: the low byte of the timer period.
    pub fn write_timer_low(&mut self, x: u8)
        ensures
            *final(self) == (Triangle {
                timer_period: with_low_byte(old(self).timer_period, x),
                ..*old(self)
            }),
    {
        self.timer_period = set_low_byte(self.timer_period, x);
    }

    /// Takes a write to `$400B`: the high bits of the timer period and the
    /// length load; the linear counter is set to reload.
    pub fn write_timer_high(&mut self, x: u8)
        ensures
            *final(self) == (Triangle {
                timer_period: with_high_bits(old(self).timer_period, x),
                length_counter: LengthCounter {
                    counter: if old(self).length_counter.enabled {
                        LENGTH_COUNTER_LOOKUP_TABLE[((x / 8) % 32) as int]
                    } else {
                        old(self).length_counter.counter
                    },
                    ..old(self).length_counter
                },
                linear_counter: LinearCounter { reload: true, ..old(self).linear_counter },
                ..*old(self)
            }),
    {
        self.timer_period = set_high_bits(self.timer_period, x);
        self.length_counter.set_load(x / 8);
        self.linear_counter.set_reload_flag(true);
    }

    /// The level the channel puts out, 0 to 15.
    pub fn sample(&self) -> (r: u8)
        ensures
            r == triangle_level(self.sequencer_step),
            r <= 15,
    {
        let step = self.sequencer_step % 32;
        if step < 16 {
            15 - step
        } else {
            step - 16
        }
    }

    /// Takes a half-frame clock.
    pub fn clock_half_frame(&mut self)
        ensures
            *final(self) == (Triangle {
                length_counter: length_clocked(old(self).length_counter),
                ..*old(self)
            }),
    {
        self.length_counter.clock();
    }

    /// Takes a quarter-frame clock.
    pub fn clock_quarter_frame(&mut self)
        ensures
            *final(self) == (Triangle {
                linear_counter: linear_clocked(old(self).linear_counter),
                ..*old(self)
            }),
    {
        self.linear_counter.clock();
    }

    /// Advances by one clock.
    pub fn clock(&mut self)
        ensures
            *final(self) == triangle_clocked(*old(self)),
    {
        if self.timer == 0 {
            self.timer = self.timer_period;
            if !self.is_silenced() {
                self.sequencer_step = ((self.sequencer_step as u16 + 1) % 32) as u8;
            }
        } else {
            self.timer = self.timer - 1;
        }
    }
}

/// The unit that bends the period of a pulse channel.
#[derive(Copy, Clone, Debug, PartialEq, Eq, Structural)]
pub struct Sweep {
    /// Clear for one's complement (first pulse), set for two's complement.
    pub negation: bool,
    pub enabled: bool,
    pub divider_period: u8,
    pub divider: u8,
    pub negate: bool,
    pub shift_count: u8,
    pub reload: bool,
    pub period: u16,
    pub timer: u16,
}

/// The negative of `value` within sixteen bits, in two's complement if
/// `twos`, else in one's complement.
pub open spec fn sweep_negated(value: u16, twos: bool) -> u16 {
    if twos {
        ((0x1_0000 - value) % 0x1_0000) as u16
    } else {
        (0xFFFF - value) as u16
    }
}

/// The amount by which the sweep changes the period.
pub open spec fn sweep_change(s: Sweep) -> u16 {
    let change = s.timer >> ((s.shift_count % 8) as u16);
    if s.negate {
        sweep_negated(change, s.negation)
    } else {
        change
    }
}

/// The period the sweep aims at.
pub open spec fn sweep_target(s: Sweep) -> u16 {
    ((s.period + sweep_change(s)) % 0x1_0000) as u16
}

/// Whether the sweep mutes its channel: the period is below 8 or the
/// target above `$7FF`.
pub open spec fn sweep_muted(s: Sweep) -> bool {
    s.period < 8 || sweep_target(s) > 0x7ff
}

/// The sweep after a half-frame clock.
pub open spec fn sweep_clocked(s: Sweep) -> Sweep {
    let adjusted = if s.divider == 0 && s.enabled && !sweep_muted(s) && s.shift_count != 0 {
        Sweep { period: sweep_target(s), ..s }
    } else {
        s
    };
    if s.divider == 0 || s.reload {
        Sweep { divider: s.divider_period, reload: false, ..adjusted }
    } else {
        Sweep { divider: (s.divider - 1) as u8, ..adjusted }
    }
}

impl Sweep {
    /// A fresh one, as at power-on.
    pub fn new(negation: bool) -> (r: Sweep)
        ensures
            r == (Sweep {
                negation: negation,
                enabled: false,
                divider_period: 0,
                divider: 0,
                negate: false,
                shift_count: 0,
                reload: false,
                period: 0,
                timer: 0,
            }),
    {
        Sweep {
            negation: negation,
            enabled: false,
            divider_period: 0,
            divider: 0,
            negate: false,
            shift_count: 0,
            reload: false,
            period: 0,
            timer: 0,
        }
    }

    /// Sets the period.
    pub fn set_period(&mut self, period: u16)
        ensures
            *final(self) == (Sweep { period: period, ..*old(self) }),
    {
        self.period = period;
    }

    /// Whether the channel is muted.
    pub fn is_muted(&self) -> (r: bool)
        ensures
            r == sweep_muted(*self),
    {
        self.period < 8 || self.target_period() > 0x7ff
    }

    /// Takes a write to the sweep register: shift count in bits 0 to 2,
    /// negate in bit 3, divider period in bits 4 to 6, enable in bit 7.
    pub fn write_control(&mut self, x: u8)
        ensures
            *final(self) == (Sweep {
                shift_count: x % 8,
                negate: (x / 8) % 2 == 1,
                divider_period: (x / 16) % 8,
                enabled: x >= 128,
                ..*old(self)
            }),
    {
        self.shift_count = x % 8;
        self.negate = (x / 8) % 2 == 1;
        self.divider_period = (x / 16) % 8;
        self.enabled = x >= 128;
    }

    /// The period.
    pub fn period(&self) -> (r: u16)
        ensures
            r == self.period,
    {
        self.period
    }

    /// The period the sweep aims at.
    pub fn target_period(&self) -> (r: u16)
        ensures
            r == sweep_target(*self),
    {
        let mut change = self.timer >> ((self.shift_count % 8) as u16);
        if self.negate {
            change = self.negate(change);
        }
        self.period.wrapping_add(change)
    }

    /// The negative of `value` as this sweep forms it.
    pub fn negate(&self, value: u16) -> (r: u16)
        ensures
            r == sweep_negated(value, self.negation),
    {
        if self.negation {
            if value == 0 {
                0
            } else {
                (0x1_0000u32 - value as u32) as u16
            }
        } else {
            0xFFFF - value
        }
    }

    /// Advances by one clock.
    pub fn clock(&mut self)
        ensures
            *final(self) == sweep_clocked(*old(self)),
    {
        if self.divider == 0 && self.enabled && !self.is_muted() && self.shift_count != 0 {
            self.period = self.target_period();
        }
        if self.divider == 0 || self.reload {
            self.divider = self.divider_period;
            self.reload = false;
        } else {
            self.divider = self.divider - 1;
        }
    }
}

/// The unit that shapes the volume of a note.
#[derive(Copy, Clone, Debug, PartialEq, Eq, Structural)]
pub struct Envelope {
    pub looping: bool,
    pub constant: bool,
    pub period: u8,
    pub divider: u8,
    pub volume: u8,
    pub start: bool,
}

/// The envelope after a quarter-frame clock.
pub open spec fn envelope_clocked(e: Envelope) -> Envelope {
    if e.start {
        Envelope { start: false, volume: 15, divider: e.period, ..e }
    } else if e.divider > 0 {
        Envelope { divider: (e.divider - 1) as u8, ..e }
    } else {
        Envelope {
            volume: if e.volume > 0 {
                (e.volume - 1) as u8
            } else if e.looping {
                15
            } else {
                e.volume
            },
            divider: e.period,
            ..e
        }
    }
}

/// The level of the envelope: its period if the volume is constant, else
/// its decaying volume.
pub open spec fn envelope_level(e: Envelope) -> u8 {
    if e.constant {
        e.period
    } else {
        e.volume
    }
}

impl Envelope {
    /// A fresh one, as at power-on.
    pub fn new() -> (r: Envelope)
        ensures
            r == (Envelope {
                looping: false,
                constant: false,
                period: 0,
                divider: 0,
                volume: 0,
                start: false,
            }),
    {
        Envelope { looping: false, constant: false, period: 0, divider: 0, volume: 0, start: false }
    }

    /// Takes the low six bits of a volume register: period and volume in
    /// bits 0 to 3, constant volume in bit 4, looping in bit 5.
    pub fn set_control(&mut self, v: u8)
        ensures
            *final(self) == (Envelope {
                period: v % 16,
                volume: v % 16,
                constant: (v / 16) % 2 == 1,
                looping: (v / 32) % 2 == 1,
                ..*old(self)
            }),
    {
        self.period = v % 16;
        self.volume = v % 16;
        self.constant = (v / 16) % 2 == 1;
        self.looping = (v / 32) % 2 == 1;
    }

    /// The level the unit puts out.
    pub fn sample(&self) -> (r: u8)
        ensures
            r == envelope_level(*self),
    {
        if self.constant {
            self.period
        } else {
            self.volume
        }
    }

    /// Restarts the envelope at its next clock.
    pub fn reset(&mut self)
        ensures
            *final(self) == (Envelope { start: true, ..*old(self) }),
    {
        self.start = true;
    }

    /// Advances by one clock.
    pub fn clock(&mut self)
        ensures
            *final(self) == envelope_clocked(*old(self)),
    {
        if self.start {
            self.start = false;
            self.volume = 15;
            self.divider = self.period;
        } else if self.divider > 0 {
            self.divider = self.divider - 1;
        } else {
            if self.volume > 0 {
                self.volume = self.volume - 1;
            } else if self.looping {
                self.volume = 15;
            }
            self.divider = self.period;
        }
    }
}

/// A pulse channel.
#[derive(Copy, Clone, Debug, PartialEq, Eq, Structural)]
pub struct Pulse {
    pub sweep: Sweep,
    pub timer_period: u16,
    pub timer: u16,
    pub duty_cycle: u8,
    pub sequencer_step: u8,
    pub envelope: Envelope,
    pub length_counter: LengthCounter,
}

/// The four wave forms of a pulse channel, one bit per step, step 0 in bit 7.
pub const PULSE_SEQUENCER_DUTY_TABLE: [u8; 4] = [0x40, 0x60, 0x78, 0x9F];

/// Whether step `step` of wave form `duty` is high.
pub open spec fn duty_high(duty: u8, step: u8) -> bool {
    let wave = PULSE_SEQUENCER_DUTY_TABLE[(duty % 4) as int];
    (wave >> ((7 - step % 8) as u8)) & 1 == 1
}

/// Whether the channel is muted by its sweep or its length counter.
pub open spec fn pulse_muted(p: Pulse) -> bool {
    sweep_muted(p.sweep) || p.length_counter.counter == 0 || !p.length_counter.enabled
}

/// The level the channel puts out: the envelope level while the wave is
/// high and the channel not muted, else zero.
pub open spec fn pulse_level(p: Pulse) -> u8 {
    if !pulse_muted(p) && duty_high(p.duty_cycle, p.sequencer_step) {
        envelope_level(p.envelope)
    } else {
        0
    }
}

/// The channel after a timer clock: the timer counts down and, from zero,
/// reloads and moves the sequencer one of its eight steps back.
pub open spec fn pulse_clocked(p: Pulse) -> Pulse {
    if p.timer == 0 {
        Pulse { sequencer_step: ((p.sequencer_step + 255) % 8) as u8, timer: p.timer_period, ..p }
    } else {
        Pulse { timer: (p.timer - 1) as u16, ..p }
    }
}

/// The channel after a half-frame clock: the period follows the sweep, the
/// sweep and the length counter are clocked.
pub open spec fn pulse_half_framed(p: Pulse) -> Pulse {
    Pulse {
        timer_period: p.sweep.period,
        sweep: sweep_clocked(p.sweep),
        length_counter: length_clocked(p.length_counter),
        ..p
    }
}

impl Pulse {
    /// A fresh one, as at power-on.
    pub fn new(negation: bool) -> (r: Pulse)
        ensures
            r.sweep == (Sweep {
                negation: negation,
                enabled: false,
                divider_period: 0,
                divider: 0,
                negate: false,
                shift_count: 0,
                reload: false,
                period: 0,
                timer: 0,
            }),
            r.timer_period == 0,
            r.timer == 0,
            r.duty_cycle == 0,
            r.sequencer_step == 0,
            r.envelope == (Envelope {
                looping: false,
                constant: false,
                period: 0,
                divider: 0,
                volume: 0,
                start: false,
            }),
            r.length_counter == (LengthCounter { enabled: true, halt: false, counter: 0 }),
    {
        Pulse {
            sweep: Sweep::new(negation),
            timer_period: 0,
            timer: 0,
            duty_cycle: 0,
            sequencer_step: 0,
            envelope: Envelope::new(),
            length_counter: LengthCounter::new(),
        }
    }

    /// Takes a write to the volume register: the envelope bits, the length
    /// halt in bit 5, the wave form in bits 6 and 7.
    pub fn set_volume(&mut self, v: u8)
        ensures
            *final(self) == (Pulse {
                envelope: Envelope {
                    period: v % 16,
                    volume: v % 16,
                    constant: (v / 16) % 2 == 1,
                    looping: (v / 32) % 2 == 1,
                    ..old(self).envelope
                },
                length_counter: LengthCounter {
                    halt: (v / 32) % 2 == 1,
                    ..old(self).length_counter
                },
                duty_cycle: v / 64,
                ..*old(self)
            }),
    {
        self.envelope.set_control(v);
        self.length_counter.set_halt((v / 32) % 2 == 1);
        self.duty_cycle = v / 64;
    }

    /// Takes a write to the sweep register.
    pub fn set_sweep(&mut self, v: u8)
        ensures
            *final(self) == (Pulse {
                sweep: Sweep {
                    shift_count: v % 8,
                    negate: (v / 8) % 2 == 1,
                    divider_period: (v / 16) % 8,
                    enabled: v >= 128,
                    ..old(self).sweep
                },
                ..*old(self)
            }),
    {
        self.sweep.write_control(v);
    }

    /// Takes a write to the low timer register.
    pub fn set_timer_low(&mut self, v: u8)
        ensures
            *final(self) == (Pulse {
                timer_period: with_low_byte(old(self).timer_period, v),
                sweep: Sweep {
                    period: with_low_byte(old(self).timer_period, v),
                    ..old(self).sweep
                },
                ..*old(self)
            }),
    {
        self.timer_period = set_low_byte(self.timer_period, v);
        let period = self.timer_period;
        self.sweep.set_period(period);
    }

    /// Takes a write to the high timer register: the high bits of the
    /// period and the length load; the sequencer and the envelope restart.
    pub fn set_timer_high(&mut self, v: u8)
        ensures
            *final(self) == (Pulse {
                timer_period: with_high_bits(old(self).timer_period, v),
                sweep: Sweep {
                    period: with_high_bits(old(self).timer_period, v),
                    ..old(self).sweep
                },
                length_counter: LengthCounter {
                    counter: if old(self).length_counter.enabled {
                        LENGTH_COUNTER_LOOKUP_TABLE[((v / 8) % 32) as int]
                    } else {
                        old(self).length_counter.counter
                    },
                    ..old(self).length_counter
                },
                sequencer_step: 0,
                envelope: Envelope { start: true, ..old(self).envelope },
                ..*old(self)
            }),
    {
        self.timer_period = set_high_bits(self.timer_period, v);
        self.length_counter.set_load(v / 8);
        self.sequencer_step = 0;
        self.envelope.reset();
        let period = self.timer_period;
        self.sweep.set_period(period);
    }

    /// Whether the wave is high at the current step.
    pub fn sequencer(&self) -> (r: bool)
        ensures
            r == duty_high(self.duty_cycle, self.sequencer_step),
    {
        let duty = PULSE_SEQUENCER_DUTY_TABLE[(self.duty_cycle % 4) as usize];
        (duty >> (7 - self.sequencer_step % 8)) & 1 == 1
    }

    /// The level the unit puts out.
    pub fn sample(&self) -> (r: u8)
        ensures
            r == pulse_level(*self),
    {
        if !self.is_muted() && self.sequencer() {
            self.envelope.sample()
        } else {
            0
        }
    }

    /// Whether the channel is muted.
    pub fn is_muted(&self) -> (r: bool)
        ensures
            r == pulse_muted(*self),
    {
        self.sweep.is_muted() || self.length_counter.is_silenced()
    }

    /// Whether the channel is enabled.
    pub fn is_enabled(&self) -> (r: bool)
        ensures
            r == self.length_counter.enabled,
    {
        self.length_counter.is_enabled()
    }

    /// Enables or disables the channel.
    pub fn set_enabled(&mut self, v: bool)
        ensures
            *final(self) == (Pulse {
                length_counter: LengthCounter {
                    enabled: v,
                    counter: if v {
                        old(self).length_counter.counter
                    } else {
                        0
                    },
                    ..old(self).length_counter
                },
                ..*old(self)
            }),
    {
        self.length_counter.set_enabled(v);
    }

    /// Takes a quarter-frame clock.
    pub fn clock_quarter_frame(&mut self)
        ensures
            *final(self) == (Pulse { envelope: envelope_clocked(old(self).envelope), ..*old(self) }),
    {
        self.envelope.clock();
    }

    /// Takes a half-frame clock.
    pub fn clock_half_frame(&mut self)
        ensures
            *final(self) == pulse_half_framed(*old(self)),
    {
        self.timer_period = self.sweep.period();
        let period = self.timer_period;
        self.sweep.set_period(period);
        self.sweep.clock();
        self.length_counter.clock();
    }

    /// Advances by one clock.
    pub fn clock(&mut self)
        ensures
            *final(self) == pulse_clocked(*old(self)),
    {
        if self.timer == 0 {
            self.sequencer_step = self.sequencer_step.wrapping_sub(1) % 8;
            self.timer = self.timer_period;
        } else {
            self.timer = self.timer - 1;
        }
    }
}

/// The timer periods that the 16 values of the noise period stand for.
pub const NOISE_PERIOD_LOOKUP_TABLE: [u16; 16] = [
    4,
    8,
    16,
    32,
    64,
    96,
    128,
    160,
    202,
    254,
    380,
    508,
    762,
    1016,
    2034,
    4068,
];

/// The noise channel.
#[derive(Copy, Clone, Debug, PartialEq, Eq, Structural)]
pub struct Noise {
    pub envelope: Envelope,
    pub length_counter: LengthCounter,
    /// Selects bit 6 rather than bit 1 as the second tap.
    pub mode: bool,
    pub period: u16,
    /// The shift register with linear feedback.
    pub feedback: u16,
    pub timer: u16,
}

/// The shift register after one step: it moves right by one, and bit 14
/// takes the exclusive or of bit 0 and the tap that `mode` selects.
pub open spec fn feedback_stepped(feedback: u16, mode: bool) -> u16 {
    let tap = if mode {
        (feedback / 64) % 2
    } else {
        (feedback / 2) % 2
    };
    (feedback >> 1) | (if (feedback % 2 == 1) != (tap == 1) {
        0x4000u16
    } else {
        0u16
    })
}

/// The channel after a timer clock.
pub open spec fn noise_clocked(n: Noise) -> Noise {
    if n.timer == 0 {
        Noise { timer: n.period, feedback: feedback_stepped(n.feedback, n.mode), ..n }
    } else {
        Noise { timer: (n.timer - 1) as u16, ..n }
    }
}

/// The level the channel puts out: the envelope level while bit 0 of the
/// shift register is set and the length counter has not run out.
pub open spec fn noise_level(n: Noise) -> u8 {
    if n.feedback % 2 == 1 && !(n.length_counter.counter == 0 || !n.length_counter.enabled) {
        envelope_level(n.envelope)
    } else {
        0
    }
}

impl Noise {
    /// A fresh one, as at power-on.
    pub fn new() -> (r: Noise)
        ensures
            r == (Noise {
                envelope: Envelope {
                    looping: false,
                    constant: false,
                    period: 0,
                    divider: 0,
                    volume: 0,
                    start: false,
                },
                length_counter: LengthCounter { enabled: true, halt: false, counter: 0 },
                mode: false,
                period: 0,
                feedback: 1,
                timer: 0,
            }),
    {
        Noise {
            envelope: Envelope::new(),
            length_counter: LengthCounter::new(),
            mode: false,
            period: 0,
            feedback: 1,
            timer: 0,
        }
    }

    /// The level the unit puts out.
    pub fn sample(&self) -> (r: u8)
        ensures
            r == noise_level(*self),
    {
        if self.feedback % 2 == 1 && !self.length_counter.is_silenced() {
            self.envelope.sample()
        } else {
            0
        }
    }

    /// Whether the channel is enabled.
    pub fn is_enabled(&self) -> (r: bool)
        ensures
            r == self.length_counter.enabled,
    {
        self.length_counter.is_enabled()
    }

    /// Takes a write to `$400C`: the envelope bits and the length halt in bit 5.
    pub fn set_volume(&mut self, v: u8)
        ensures
            *final(self) == (Noise {
                length_counter: LengthCounter {
                    halt: (v / 32) % 2 == 1,
                    ..old(self).length_counter
                },
                envelope: Envelope {
                    period: v % 16,
                    volume: v % 16,
                    constant: (v / 16) % 2 == 1,
                    looping: (v / 32) % 2 == 1,
                    ..old(self).envelope
                },
                ..*old(self)
            }),
    {
        self.length_counter.set_halt((v / 32) % 2 == 1);
        self.envelope.set_control(v);
    }

    /// Enables or disables the channel.
    pub fn set_enabled(&mut self, v: bool)
        ensures
            *final(self) == (Noise {
                length_counter: LengthCounter {
                    enabled: v,
                    counter: if v {
                        old(self).length_counter.counter
                    } else {
                        0
                    },
                    ..old(self).length_counter
                },
                ..*old(self)
            }),
    {
        self.length_counter.set_enabled(v);
    }

    /// Takes a write to `$400E`: the period index in bits 0 to 3, and in
    /// bit 7 the mode, which selects the tap.
    pub fn set_period(&mut self, v: u8)
        ensures
            *final(self) == (Noise {
                mode: v >= 128,
                period: NOISE_PERIOD_LOOKUP_TABLE[(v % 16) as int],
                ..*old(self)
            }),
            final(self).mode == ((v & 0x80) != 0),
            final(self).period == NOISE_PERIOD_LOOKUP_TABLE[(v & 0x0F) as int],
    {
        assert((v >= 128) == ((v & 0x80) != 0) && v % 16 == v & 0x0F) by (bit_vector);
        self.mode = v >= 128;
        self.period = NOISE_PERIOD_LOOKUP_TABLE[(v % 16) as usize];
    }

    /// Takes a write to `$400F`: the length load; the envelope restarts.
    pub fn set_length(&mut self, v: u8)
        ensures
            *final(self) == (Noise {
                length_counter: LengthCounter {
                    counter: if old(self).length_counter.enabled {
                        LENGTH_COUNTER_LOOKUP_TABLE[((v / 8) % 32) as int]
                    } else {
                        old(self).length_counter.counter
                    },
                    ..old(self).length_counter
                },
                envelope: Envelope { start: true, ..old(self).envelope },
                ..*old(self)
            }),
    {
        self.length_counter.set_load(v / 8);
        self.envelope.reset();
    }

    /// The shift register after one step.
    pub fn next_feedback(&self, feedback: u16) -> (r: u16)
        ensures
            r == feedback_stepped(feedback, self.mode),
    {
        let tap = if self.mode {
            (feedback / 64) % 2
        } else {
            (feedback / 2) % 2
        };
        let new_bit = (feedback % 2 == 1) != (tap == 1);
        let top: u16 = if new_bit {
            0x4000
        } else {
            0
        };
        (feedback >> 1) | top
    }

    /// Takes a quarter-frame clock: the envelope is clocked.
    pub fn clock_quarter_frame(&mut self)
        ensures
            *final(self) == (Noise { envelope: envelope_clocked(old(self).envelope), ..*old(self) }),
    {
        self.envelope.clock();
    }

    /// Takes a half-frame clock.
    pub fn clock_half_frame(&mut self)
        ensures
            *final(self) == (Noise {
                length_counter: length_clocked(old(self).length_counter),
                ..*old(self)
            }),
    {
        self.length_counter.clock();
    }

    /// Advances by one clock.
    pub fn clock(&mut self)
        ensures
            *final(self) == noise_clocked(*old(self)),
    {
        if self.timer == 0 {
            self.timer = self.period;
            let feedback = self.feedback;
            self.feedback = self.next_feedback(feedback);
        } else {
            self.timer = self.timer - 1;
        }
    }
}

/// The sampled channel. It keeps its enable flag and stays silent.
#[derive(Copy, Clone, Debug, PartialEq, Eq, Structural)]
pub struct Dmc {
    pub enabled: bool,
}

impl Dmc {
    /// A fresh one, as at power-on: disabled.
    pub fn new() -> (r: Dmc)
        ensures
            r == (Dmc { enabled: false }),
    {
        Dmc { enabled: false }
    }

    /// The level the unit puts out.
    pub fn sample(&self) -> (r: u8)
        ensures
            r == 0,
    {
        0
    }

    /// Whether the channel is enabled.
    pub fn is_enabled(&self) -> (r: bool)
        ensures
            r == self.enabled,
    {
        self.enabled
    }

    /// Enables or disables the channel.
    pub fn set_enabled(&mut self, v: bool)
        ensures
            *final(self) == (Dmc { enabled: v }),
    {
        self.enabled = v;
    }

    /// Takes a half-frame clock.
    pub fn clock_half_frame(&mut self)
        ensures
            *final(self) == *old(self),
    {
    }

    /// Takes a quarter-frame clock.
    pub fn clock_quarter_frame(&mut self)
        ensures
            *final(self) == *old(self),
    {
    }

    /// Advances by one clock.
    pub fn clock(&mut self)
        ensures
            *final(self) == *old(self),
    {
    }
}


/// The levels of the five channels at one moment, each 0 to 15. The mixed
/// sample is `0.00752 (pulse1 + pulse2) + 0.00851 triangle + 0.00494 noise
/// + 0.00335 dmc`.
#[derive(Copy, Clone, Debug, PartialEq, Eq, Structural)]
pub struct Mix {
    pub pulse1: u8,
    pub pulse2: u8,
    pub triangle: u8,
    pub noise: u8,
    pub dmc: u8,
}

/// Cycles of the processor per frame.
pub const CLOCKS_PER_FRAME: u64 = 29780;

/// Samples of sound per frame: 44100 Hz at 60 frames per second.
pub const SAMPLES_PER_FRAME: u64 = 735;

/// The channels and counters of the audio processor.
#[derive(Copy, Clone, Debug, PartialEq, Eq, Structural)]
pub struct ApuCore {
    /// Whether samples are taken.
    pub is_recording: bool,
    pub cycle: u64,
    /// The time since the sample before the next one was due, in units of
    /// `1 / 735` of a cycle: a sample is due every `29780 / 735` cycles,
    /// that is whenever 29780 units have gathered.
    pub sample_phase: u64,
    pub frame_counter: FrameCounter,
    pub pulse1: Pulse,
    pub pulse2: Pulse,
    pub triangle: Triangle,
    pub noise: Noise,
    pub dmc: Dmc,
}

/// The audio processor and the samples it has taken.
pub struct Apu {
    pub samples: Vec<Mix>,
    pub core: ApuCore,
}

/// The mathematical state of an [`Apu`].
pub struct ApuView {
    pub samples: Seq<Mix>,
    pub core: ApuCore,
}

impl View for Apu {
    type V = ApuView;

    open spec fn view(&self) -> ApuView {
        ApuView { samples: self.samples@, core: self.core }
    }
}

/// The levels the channels put out. The sampled channel is not mixed in.
pub open spec fn mix_of(c: ApuCore) -> Mix {
    Mix {
        pulse1: pulse_level(c.pulse1),
        pulse2: pulse_level(c.pulse2),
        triangle: triangle_level(c.triangle.sequencer_step),
        noise: noise_level(c.noise),
        dmc: 0,
    }
}

/// The state after the timers were clocked for one cycle: the frame
/// counter and the triangle on every cycle, the pulse, noise and sampled
/// channels on even ones.
pub open spec fn timers_clocked(c: ApuCore) -> ApuCore {
    let even = c.cycle % 2 == 0;
    ApuCore {
        frame_counter: FrameCounter {
            step: next_step(c.frame_counter.step, c.frame_counter.mode),
            ..c.frame_counter
        },
        pulse1: if even {
            pulse_clocked(c.pulse1)
        } else {
            c.pulse1
        },
        pulse2: if even {
            pulse_clocked(c.pulse2)
        } else {
            c.pulse2
        },
        noise: if even {
            noise_clocked(c.noise)
        } else {
            c.noise
        },
        triangle: triangle_clocked(c.triangle),
        ..c
    }
}

/// The state after a half-frame event: sweeps and length counters are clocked.
pub open spec fn half_framed(c: ApuCore) -> ApuCore {
    ApuCore {
        pulse1: pulse_half_framed(c.pulse1),
        pulse2: pulse_half_framed(c.pulse2),
        triangle: Triangle {
            length_counter: length_clocked(c.triangle.length_counter),
            ..c.triangle
        },
        noise: Noise { length_counter: length_clocked(c.noise.length_counter), ..c.noise },
        ..c
    }
}

/// The state after a quarter-frame event: the envelopes of both pulse
/// channels and of the noise channel, and the linear counter, are clocked.
pub open spec fn quarter_framed(c: ApuCore) -> ApuCore {
    ApuCore {
        pulse1: Pulse { envelope: envelope_clocked(c.pulse1.envelope), ..c.pulse1 },
        pulse2: Pulse { envelope: envelope_clocked(c.pulse2.envelope), ..c.pulse2 },
        triangle: Triangle {
            linear_counter: linear_clocked(c.triangle.linear_counter),
            ..c.triangle
        },
        noise: Noise { envelope: envelope_clocked(c.noise.envelope), ..c.noise },
        ..c
    }
}

/// The state after the frame events that fall on the current step.
pub open spec fn frame_events(c: ApuCore) -> ApuCore {
    let h = if half_frame_at(c.frame_counter.step, c.frame_counter.mode) {
        half_framed(c)
    } else {
        c
    };
    if quarter_frame_at(h.frame_counter.step, h.frame_counter.mode) {
        quarter_framed(h)
    } else {
        h
    }
}

/// Whether a sample is taken in this cycle: a sample period has gathered
/// and samples are being recorded.
pub open spec fn sample_due(c: ApuCore) -> bool {
    c.sample_phase >= CLOCKS_PER_FRAME && c.is_recording
}

/// The phase after a cycle: less one sample period if a sample was taken,
/// then one cycle more, held at the largest value it can take.
pub open spec fn phase_after(c: ApuCore) -> u64 {
    let taken = if sample_due(c) {
        c.sample_phase - CLOCKS_PER_FRAME
    } else {
        c.sample_phase as int
    };
    if taken + SAMPLES_PER_FRAME > u64::MAX {
        u64::MAX
    } else {
        (taken + SAMPLES_PER_FRAME) as u64
    }
}

/// The state after one cycle: the timers are clocked, the frame events of
/// the step are carried out, a sample is taken if one is due, and the
/// cycle counter advances.
pub open spec fn apu_clocked(v: ApuView) -> ApuView {
    let c = frame_events(timers_clocked(v.core));
    ApuView {
        samples: if sample_due(c) {
            v.samples.push(mix_of(c))
        } else {
            v.samples
        },
        core: ApuCore { sample_phase: phase_after(c), cycle: c.cycle.wrapping_add(1), ..c },
    }
}

/// The byte a read of `$4015` returns: the enable flags of pulse 1, pulse
/// 2, triangle, noise and the sampled channel in bits 0 to 4.
pub open spec fn apu_status(c: ApuCore) -> u8 {
    ((if c.pulse1.length_counter.enabled {
        1int
    } else {
        0int
    }) + (if c.pulse2.length_counter.enabled {
        2int
    } else {
        0int
    }) + (if c.triangle.length_counter.enabled {
        4int
    } else {
        0int
    }) + (if c.noise.length_counter.enabled {
        8int
    } else {
        0int
    }) + (if c.dmc.enabled {
        16int
    } else {
        0int
    })) as u8
}

/// `l` enabled or disabled; disabling empties it.
pub open spec fn length_enabled(l: LengthCounter, on: bool) -> LengthCounter {
    LengthCounter {
        enabled: on,
        counter: if on {
            l.counter
        } else {
            0
        },
        ..l
    }
}

/// The state after a write of `v` to `$4015`: bits 0 to 4 enable pulse 1,
/// pulse 2, triangle, noise and the sampled channel.
pub open spec fn status_written(c: ApuCore, v: u8) -> ApuCore {
    ApuCore {
        pulse1: Pulse { length_counter: length_enabled(c.pulse1.length_counter, v % 2 == 1), ..c.pulse1 },
        pulse2: Pulse {
            length_counter: length_enabled(c.pulse2.length_counter, (v / 2) % 2 == 1),
            ..c.pulse2
        },
        triangle: Triangle {
            length_counter: length_enabled(c.triangle.length_counter, (v / 4) % 2 == 1),
            linear_counter: LinearCounter {
                enabled: (v / 4) % 2 == 1,
                ..c.triangle.linear_counter
            },
            ..c.triangle
        },
        noise: Noise {
            length_counter: length_enabled(c.noise.length_counter, (v / 8) % 2 == 1),
            ..c.noise
        },
        dmc: Dmc { enabled: (v / 16) % 2 == 1 },
        ..c
    }
}

impl ApuCore {
    fn clock_timers(&mut self)
        ensures
            *final(self) == timers_clocked(*old(self)),
    {
        self.frame_counter.clock();
        if self.cycle % 2 == 0 {
            self.pulse1.clock();
            self.pulse2.clock();
            self.noise.clock();
            self.dmc.clock();
        }
        self.triangle.clock();
    }

    fn clock_half_frame(&mut self)
        ensures
            *final(self) == half_framed(*old(self)),
    {
        self.pulse1.clock_half_frame();
        self.pulse2.clock_half_frame();
        self.triangle.clock_half_frame();
        self.noise.clock_half_frame();
        self.dmc.clock_half_frame();
    }

    fn clock_quarter_frame(&mut self)
        ensures
            *final(self) == quarter_framed(*old(self)),
    {
        self.pulse1.clock_quarter_frame();
        self.pulse2.clock_quarter_frame();
        self.triangle.clock_quarter_frame();
        self.noise.clock_quarter_frame();
        self.dmc.clock_quarter_frame();
    }

    fn clock_frame_events(&mut self)
        ensures
            *final(self) == frame_events(*old(self)),
    {
        if self.frame_counter.is_half_frame_edge() {
            self.clock_half_frame();
        }
        if self.frame_counter.is_quarter_frame_edge() {
            self.clock_quarter_frame();
        }
    }

    fn advance_sample_phase(&mut self)
        ensures
            *final(self) == (ApuCore {
                sample_phase: phase_after(*old(self)),
                cycle: old(self).cycle.wrapping_add(1),
                ..*old(self)
            }),
    {
        let mut phase = self.sample_phase;
        if phase >= CLOCKS_PER_FRAME && self.is_recording {
            phase = phase - CLOCKS_PER_FRAME;
        }
        self.sample_phase = phase.saturating_add(SAMPLES_PER_FRAME);
        self.cycle = self.cycle.wrapping_add(1);
    }

    /// The levels the channels put out.
    pub fn sample(&self) -> (r: Mix)
        ensures
            r == mix_of(*self),
    {
        Mix {
            pulse1: self.pulse1.sample(),
            pulse2: self.pulse2.sample(),
            triangle: self.triangle.sample(),
            noise: self.noise.sample(),
            dmc: 0,
        }
    }

    /// Answers a read of `$4015`.
    pub fn read_status(&self) -> (r: u8)
        ensures
            r == apu_status(*self),
    {
        let mut r: u8 = 0;
        if self.pulse1.is_enabled() {
            r = r + 1;
        }
        if self.pulse2.is_enabled() {
            r = r + 2;
        }
        if self.triangle.is_enabled() {
            r = r + 4;
        }
        if self.noise.is_enabled() {
            r = r + 8;
        }
        if self.dmc.is_enabled() {
            r = r + 16;
        }
        r
    }

    /// Takes a write to `$4015`.
    pub fn write_status(&mut self, v: u8)
        ensures
            *final(self) == status_written(*old(self), v),
    {
        self.pulse1.set_enabled(v % 2 == 1);
        self.pulse2.set_enabled((v / 2) % 2 == 1);
        self.triangle.set_enabled((v / 4) % 2 == 1);
        self.noise.set_enabled((v / 8) % 2 == 1);
        self.dmc.set_enabled((v / 16) % 2 == 1);
    }
}

/// The channels at power-on.
pub open spec fn power_on_apu() -> ApuCore {
    ApuCore {
        is_recording: true,
        cycle: 0,
        sample_phase: 29780,
        frame_counter: FrameCounter { step: 0, interrupt_inhibit: false, mode: false },
        pulse1: power_on_pulse(false),
        pulse2: power_on_pulse(true),
        triangle: Triangle {
            timer_period: 0,
            timer: 0,
            sequencer_step: 0,
            length_counter: LengthCounter { enabled: true, halt: false, counter: 0 },
            linear_counter: LinearCounter {
                counter: 0,
                reload_value: 0,
                reload: false,
                enabled: false,
            },
        },
        noise: Noise {
            envelope: Envelope {
                looping: false,
                constant: false,
                period: 0,
                divider: 0,
                volume: 0,
                start: false,
            },
            length_counter: LengthCounter { enabled: true, halt: false, counter: 0 },
            mode: false,
            period: 0,
            feedback: 1,
            timer: 0,
        },
        dmc: Dmc { enabled: false },
    }
}

/// A pulse channel at power-on.
pub open spec fn power_on_pulse(negation: bool) -> Pulse {
    Pulse {
        sweep: Sweep {
            negation: negation,
            enabled: false,
            divider_period: 0,
            divider: 0,
            negate: false,
            shift_count: 0,
            reload: false,
            period: 0,
            timer: 0,
        },
        timer_period: 0,
        timer: 0,
        duty_cycle: 0,
        sequencer_step: 0,
        envelope: Envelope {
            looping: false,
            constant: false,
            period: 0,
            divider: 0,
            volume: 0,
            start: false,
        },
        length_counter: LengthCounter { enabled: true, halt: false, counter: 0 },
    }
}

/// The state after `v` was written to register `port`.
pub open spec fn apu_port_written(c: ApuCore, port: ApuPort, v: u8) -> ApuCore {
    match port {
        ApuPort::SQ1_VOL => ApuCore { pulse1: pulse_volume_set(c.pulse1, v), ..c },
        ApuPort::SQ1_SWEEP => ApuCore { pulse1: pulse_sweep_set(c.pulse1, v), ..c },
        ApuPort::SQ1_LO => ApuCore { pulse1: pulse_low_set(c.pulse1, v), ..c },
        ApuPort::SQ1_HI => ApuCore { pulse1: pulse_high_set(c.pulse1, v), ..c },
        ApuPort::SQ2_VOL => ApuCore { pulse2: pulse_volume_set(c.pulse2, v), ..c },
        ApuPort::SQ2_SWEEP => ApuCore { pulse2: pulse_sweep_set(c.pulse2, v), ..c },
        ApuPort::SQ2_LO => ApuCore { pulse2: pulse_low_set(c.pulse2, v), ..c },
        ApuPort::SQ2_HI => ApuCore { pulse2: pulse_high_set(c.pulse2, v), ..c },
        ApuPort::TRI_LINEAR => ApuCore {
            triangle: Triangle {
                length_counter: LengthCounter { halt: v >= 128, ..c.triangle.length_counter },
                linear_counter: LinearCounter {
                    reload: v >= 128,
                    reload_value: v % 128,
                    ..c.triangle.linear_counter
                },
                ..c.triangle
            },
            ..c
        },
        ApuPort::TRI_LO => ApuCore {
            triangle: Triangle {
                timer_period: with_low_byte(c.triangle.timer_period, v),
                ..c.triangle
            },
            ..c
        },
        ApuPort::TRI_HI => ApuCore {
            triangle: Triangle {
                timer_period: with_high_bits(c.triangle.timer_period, v),
                length_counter: length_loaded(c.triangle.length_counter, v),
                linear_counter: LinearCounter { reload: true, ..c.triangle.linear_counter },
                ..c.triangle
            },
            ..c
        },
        ApuPort::NOISE_VOL => ApuCore {
            noise: Noise {
                length_counter: LengthCounter {
                    halt: (v / 32) % 2 == 1,
                    ..c.noise.length_counter
                },
                envelope: envelope_set(c.noise.envelope, v),
                ..c.noise
            },
            ..c
        },
        ApuPort::NOISE_LO => ApuCore {
            noise: Noise {
                mode: v >= 128,
                period: NOISE_PERIOD_LOOKUP_TABLE[(v % 16) as int],
                ..c.noise
            },
            ..c
        },
        ApuPort::NOISE_HI => ApuCore {
            noise: Noise {
                length_counter: length_loaded(c.noise.length_counter, v),
                envelope: Envelope { start: true, ..c.noise.envelope },
                ..c.noise
            },
            ..c
        },
        ApuPort::DMC_FREQ | ApuPort::DMC_RAW | ApuPort::DMC_START | ApuPort::DMC_LEN => c,
        ApuPort::SND_CHN => status_written(c, v),
        ApuPort::FRAME_COUNTER => ApuCore {
            frame_counter: FrameCounter {
                mode: v >= 128,
                interrupt_inhibit: (v / 64) % 2 == 1,
                ..c.frame_counter
            },
            ..c
        },
    }
}

/// `l` loaded with the length that bits 3 to 7 of `v` stand for, if enabled.
pub open spec fn length_loaded(l: LengthCounter, v: u8) -> LengthCounter {
    LengthCounter {
        counter: if l.enabled {
            LENGTH_COUNTER_LOOKUP_TABLE[((v / 8) % 32) as int]
        } else {
            l.counter
        },
        ..l
    }
}

/// `e` with the envelope bits of a volume register.
pub open spec fn envelope_set(e: Envelope, v: u8) -> Envelope {
    Envelope {
        period: v % 16,
        volume: v % 16,
        constant: (v / 16) % 2 == 1,
        looping: (v / 32) % 2 == 1,
        ..e
    }
}

/// `p` after a write of `v` to its volume register.
pub open spec fn pulse_volume_set(p: Pulse, v: u8) -> Pulse {
    Pulse {
        envelope: envelope_set(p.envelope, v),
        length_counter: LengthCounter { halt: (v / 32) % 2 == 1, ..p.length_counter },
        duty_cycle: v / 64,
        ..p
    }
}

/// `p` after a write of `v` to its sweep register.
pub open spec fn pulse_sweep_set(p: Pulse, v: u8) -> Pulse {
    Pulse {
        sweep: Sweep {
            shift_count: v % 8,
            negate: (v / 8) % 2 == 1,
            divider_period: (v / 16) % 8,
            enabled: v >= 128,
            ..p.sweep
        },
        ..p
    }
}

/// `p` after a write of `v` to its low timer register.
pub open spec fn pulse_low_set(p: Pulse, v: u8) -> Pulse {
    Pulse {
        timer_period: with_low_byte(p.timer_period, v),
        sweep: Sweep { period: with_low_byte(p.timer_period, v), ..p.sweep },
        ..p
    }
}

/// `p` after a write of `v` to its high timer register.
pub open spec fn pulse_high_set(p: Pulse, v: u8) -> Pulse {
    Pulse {
        timer_period: with_high_bits(p.timer_period, v),
        sweep: Sweep { period: with_high_bits(p.timer_period, v), ..p.sweep },
        length_counter: length_loaded(p.length_counter, v),
        sequencer_step: 0,
        envelope: Envelope { start: true, ..p.envelope },
        ..p
    }
}

impl ApuCore {
    fn write_pulse1(&mut self, port: ApuPort, v: u8)
        requires
            port == ApuPort::SQ1_VOL || port == ApuPort::SQ1_SWEEP || port == ApuPort::SQ1_LO
                || port == ApuPort::SQ1_HI,
        ensures
            *final(self) == apu_port_written(*old(self), port, v),
    {
        match port {
            ApuPort::SQ1_VOL => self.pulse1.set_volume(v),
            ApuPort::SQ1_SWEEP => self.pulse1.set_sweep(v),
            ApuPort::SQ1_LO => self.pulse1.set_timer_low(v),
            _ => self.pulse1.set_timer_high(v),
        }
    }

    fn write_pulse2(&mut self, port: ApuPort, v: u8)
        requires
            port == ApuPort::SQ2_VOL || port == ApuPort::SQ2_SWEEP || port == ApuPort::SQ2_LO
                || port == ApuPort::SQ2_HI,
        ensures
            *final(self) == apu_port_written(*old(self), port, v),
    {
        match port {
            ApuPort::SQ2_VOL => self.pulse2.set_volume(v),
            ApuPort::SQ2_SWEEP => self.pulse2.set_sweep(v),
            ApuPort::SQ2_LO => self.pulse2.set_timer_low(v),
            _ => self.pulse2.set_timer_high(v),
        }
    }

    fn write_triangle(&mut self, port: ApuPort, v: u8)
        requires
            port == ApuPort::TRI_LINEAR || port == ApuPort::TRI_LO || port == ApuPort::TRI_HI,
        ensures
            *final(self) == apu_port_written(*old(self), port, v),
    {
        match port {
            ApuPort::TRI_LINEAR => self.triangle.write_linear_counter(v),
            ApuPort::TRI_LO => self.triangle.write_timer_low(v),
            _ => self.triangle.write_timer_high(v),
        }
    }

    fn write_noise(&mut self, port: ApuPort, v: u8)
        requires
            port == ApuPort::NOISE_VOL || port == ApuPort::NOISE_LO || port == ApuPort::NOISE_HI,
        ensures
            *final(self) == apu_port_written(*old(self), port, v),
    {
        match port {
            ApuPort::NOISE_VOL => self.noise.set_volume(v),
            ApuPort::NOISE_LO => self.noise.set_period(v),
            _ => self.noise.set_length(v),
        }
    }

    /// Takes a write of `v` to register `port`.
    pub fn write_port(&mut self, port: ApuPort, v: u8)
        ensures
            *final(self) == apu_port_written(*old(self), port, v),
    {
        match port {
            ApuPort::SQ1_VOL | ApuPort::SQ1_SWEEP | ApuPort::SQ1_LO | ApuPort::SQ1_HI => {
                self.write_pulse1(port, v)
            },
            ApuPort::SQ2_VOL | ApuPort::SQ2_SWEEP | ApuPort::SQ2_LO | ApuPort::SQ2_HI => {
                self.write_pulse2(port, v)
            },
            ApuPort::TRI_LINEAR | ApuPort::TRI_LO | ApuPort::TRI_HI => self.write_triangle(port, v),
            ApuPort::NOISE_VOL | ApuPort::NOISE_LO | ApuPort::NOISE_HI => self.write_noise(port, v),
            ApuPort::DMC_FREQ | ApuPort::DMC_RAW | ApuPort::DMC_START | ApuPort::DMC_LEN => {},
            ApuPort::SND_CHN => self.write_status(v),
            ApuPort::FRAME_COUNTER => self.frame_counter.write_control(v),
        }
    }
}

impl Apu {
    /// An audio processor at power-on, recording, with no sample taken.
    pub fn new() -> (r: Apu)
        ensures
            r@ == (ApuView { samples: Seq::<Mix>::empty(), core: power_on_apu() }),
    {
        Apu {
            samples: Vec::new(),
            core: ApuCore {
                is_recording: true,
                cycle: 0,
                sample_phase: 29780,
                frame_counter: FrameCounter::new(),
                pulse1: Pulse::new(false),
                pulse2: Pulse::new(true),
                triangle: Triangle::new(),
                noise: Noise::new(),
                dmc: Dmc::new(),
            },
        }
    }

    /// Switches the taking of samples on or off.
    pub fn set_recording(&mut self, on: bool)
        ensures
            final(self)@ == (ApuView {
                core: ApuCore { is_recording: on, ..old(self)@.core },
                ..old(self)@
            }),
    {
        self.core.is_recording = on;
    }

    /// Replaces the samples taken so far.
    pub fn set_samples(&mut self, samples: Vec<Mix>)
        ensures
            final(self)@ == (ApuView { samples: samples@, ..old(self)@ }),
    {
        self.samples = samples;
    }

    /// Replaces the channels and counters.
    pub fn set_core(&mut self, core: ApuCore)
        ensures
            final(self)@ == (ApuView { core: core, ..old(self)@ }),
    {
        self.core = core;
    }

    /// Does nothing: a reset leaves the channels as they are.
    pub fn reset(&mut self)
        ensures
            final(self)@ == old(self)@,
    {
    }

    /// The levels the channels put out.
    pub fn sample(&self) -> (r: Mix)
        ensures
            r == mix_of(self@.core),
    {
        self.core.sample()
    }

    /// Answers a read of `$4015`.
    pub fn read_status(&self) -> (r: u8)
        ensures
            r == apu_status(self@.core),
    {
        self.core.read_status()
    }

    /// Takes a write to `$4015`.
    pub fn write_status(&mut self, v: u8)
        ensures
            final(self)@ == (ApuView { core: status_written(old(self)@.core, v), ..old(self)@ }),
    {
        self.core.write_status(v);
    }

    /// Advances the audio processor by one cycle of the processor.
    pub fn clock(&mut self)
        ensures
            final(self)@ == apu_clocked(old(self)@),
    {
        self.core.clock_timers();
        self.core.clock_frame_events();
        if self.core.sample_phase >= CLOCKS_PER_FRAME && self.core.is_recording {
            let sample = self.core.sample();
            self.samples.push(sample);
        }
        self.core.advance_sample_phase();
    }

    /// Hands out the samples taken so far and starts over with none.
    pub fn take_samples(&mut self) -> (r: Vec<Mix>)
        ensures
            r@ == old(self)@.samples,
            final(self)@ == (ApuView { samples: Seq::<Mix>::empty(), ..old(self)@ }),
    {
        let mut out: Vec<Mix> = Vec::new();
        std::mem::swap(&mut out, &mut self.samples);
        out
    }
}

impl AddressSpace for Apu {
    open spec fn maps(v: ApuView, ptr: u16) -> bool {
        true
    }

    open spec fn value_at(v: ApuView, ptr: u16) -> u8 {
        if apu_port_at(ptr) == Some(ApuPort::SND_CHN) {
            apu_status(v.core)
        } else {
            0
        }
    }

    open spec fn after_peek(v: ApuView, ptr: u16) -> ApuView {
        v
    }

    open spec fn after_poke(v: ApuView, ptr: u16, value: u8) -> ApuView {
        match apu_port_at(ptr) {
            Some(port) => ApuView { core: apu_port_written(v.core, port, value), ..v },
            None => v,
        }
    }

    fn peek(&mut self, ptr: u16) -> (r: Result<u8, BusError>) {
        match map_apu_port(ptr) {
            Some(ApuPort::SND_CHN) => Ok(self.read_status()),
            _ => Ok(0),
        }
    }

    fn poke(&mut self, ptr: u16, v: u8) -> (r: Result<(), BusError>) {
        match map_apu_port(ptr) {
            Some(port) => {
                self.core.write_port(port, v);
            },
            None => {},
        }
        Ok(())
    }
}


impl Clocked for Apu {
    open spec fn clocked(v: ApuView) -> ApuView {
        apu_clocked(v)
    }

    fn clock(&mut self) {
        Apu::clock(self)
    }
}

} // verus!
