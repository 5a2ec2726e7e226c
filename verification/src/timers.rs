//! The root counters.
//!
//! Counters 0 to 2 are the hardware counters at 0x1F801100 to 0x1F801128.
//! Counter 3 is internal and marks the scanlines. A counter's value is not
//! stored: it follows from the cycle at which it was zero. Each counter either
//! runs to its target or to overflow; interrupts are collected and drained by
//! the caller. Cycle arithmetic wraps.

use vstd::array::spec_array_update;
use crate::bits::{lemma_half_of, lemma_long_of};
use vstd::prelude::*;

verus! {

/// Processor cycles per second.
pub const PSX_CLOCK: u64 = 33_868_800;

pub const FRAME_RATE: u64 = 60;

/// Scanlines per frame.
pub const HSYNC_TOTAL: u32 = 263;

/// The scanline at which the vertical blank begins.
pub const VBLANK_START: u32 = 243;

/// Processor cycles per scanline: the clock divided by 60 frames of 263 lines.
pub const HSYNC_CYCLES: u32 = 2146;

pub const COUNT_TO_OVERFLOW: u32 = 0;

pub const COUNT_TO_TARGET: u32 = 1;

pub const RC_COUNT_TO_TARGET: u16 = 0x0008;

pub const RC_IRQ_ON_TARGET: u16 = 0x0010;

pub const RC_IRQ_ON_OVERFLOW: u16 = 0x0020;

pub const RC_IRQ_REGENERATE: u16 = 0x0040;

pub const RC0_PIXEL_CLOCK: u16 = 0x0100;

pub const RC1_HSYNC_CLOCK: u16 = 0x0100;

pub const RC2_DISABLE: u16 = 0x0001;

pub const RC2_ONE_EIGHTH_CLOCK: u16 = 0x0200;

pub const RC_IRQ_REQUEST: u16 = 0x0400;

pub const RC_COUNT_EQ_TARGET: u16 = 0x0800;

pub const RC_OVERFLOW: u16 = 0x1000;

/// The interrupts that the timers raise: the vertical blank and one for each
/// hardware counter.
pub const TIMER_IRQS: u32 = 0x71;

/// One root counter.
#[derive(Clone, Copy)]
pub struct Rcnt {
    pub mode: u16,
    pub target: u16,
    /// Cycles per count.
    pub rate: u32,
    /// The interrupt mask it raises.
    pub irq: u32,
    /// Whether it runs to its target or to overflow.
    pub counter_state: u32,
    pub irq_state: bool,
    /// Cycles from `cycle_start` to its next event.
    pub cycle: u64,
    /// The cycle at which it was zero.
    pub cycle_start: u64,
}

/// The root counters with the scanline count and the collected interrupts.
pub struct Timers {
    pub rcnts: [Rcnt; 4],
    pub hsync_count: u32,
    /// The cycle at which the next counter event falls due.
    pub next_counter: u64,
    /// Interrupts that have fired and not been drained yet.
    pub pending_irqs: u32,
}

impl Rcnt {
    pub open spec fn initial() -> Rcnt {
        Rcnt {
            mode: 0,
            target: 0,
            rate: 1,
            irq: 0,
            counter_state: COUNT_TO_OVERFLOW,
            irq_state: false,
            cycle: 0,
            cycle_start: 0,
        }
    }

    /// The counter runs, and its next event is at most a full count away.
    pub open spec fn wf(self) -> bool {
        self.rate > 0 && self.cycle <= 0xFFFF * 0xFFFF_FFFF
    }

    /// Cycles since the counter was zero.
    pub open spec fn elapsed(self, cycle: u64) -> u64 {
        cycle.wrapping_sub(self.cycle_start)
    }

    /// Whether the counter's next event has come.
    pub open spec fn due(self, cycle: u64) -> bool {
        self.elapsed(cycle) >= self.cycle
    }

    /// Whole counts since the counter was zero.
    pub open spec fn counts(self, cycle: u64) -> u64 {
        self.elapsed(cycle) / (self.rate as u64)
    }

    /// The 16-bit value of the counter.
    pub open spec fn value(self, cycle: u64) -> u32 {
        (self.counts(cycle) & 0xFFFF) as u32
    }

    /// Cycles left to the next event; negative once it is past.
    pub open spec fn remaining(self, cycle: u64) -> i64 {
        (self.cycle as i64).wrapping_sub(self.elapsed(cycle) as i64)
    }

    /// The counter set to `value` at `cycle`: it then runs to its target if
    /// that lies ahead, and to overflow otherwise.
    pub open spec fn counting(self, value: u32, cycle: u64) -> Rcnt {
        let v = value & 0xFFFF;
        Rcnt {
            cycle_start: cycle.wrapping_sub((v * self.rate) as u64),
            cycle: if v < self.target {
                (self.target * self.rate) as u64
            } else {
                (0xFFFF * self.rate) as u64
            },
            counter_state: if v < self.target {
                COUNT_TO_TARGET
            } else {
                COUNT_TO_OVERFLOW
            },
            ..self
        }
    }

    /// Whether the event that has come raises an interrupt: it must be enabled,
    /// and a one-shot counter must not have raised one already.
    pub open spec fn fires(self) -> bool {
        let enabled = (self.counter_state == COUNT_TO_TARGET && self.mode & RC_IRQ_ON_TARGET != 0)
            || (self.counter_state == COUNT_TO_OVERFLOW && self.mode & RC_IRQ_ON_OVERFLOW != 0);
        enabled && (self.mode & RC_IRQ_REGENERATE != 0 || !self.irq_state)
    }

    /// The value the counter goes on with after its event. At the target it
    /// starts over if so configured and keeps counting otherwise.
    pub open spec fn carried(self, cycle: u64) -> u32 {
        if self.counter_state == COUNT_TO_TARGET {
            if self.mode & RC_COUNT_TO_TARGET != 0 {
                self.counts(cycle).wrapping_sub(self.target as u64) as u32
            } else {
                self.value(cycle)
            }
        } else {
            self.counts(cycle).wrapping_sub(0xFFFF) as u32
        }
    }

    /// The counter after its event.
    pub open spec fn expired(self, cycle: u64) -> Rcnt {
        let mode = self.mode;
        if self.counter_state == COUNT_TO_TARGET || self.counter_state == COUNT_TO_OVERFLOW {
            Rcnt {
                irq_state: self.irq_state || self.fires(),
                mode: (mode | (if self.counter_state == COUNT_TO_TARGET {
                    RC_COUNT_EQ_TARGET
                } else {
                    RC_OVERFLOW
                })) | RC_IRQ_REQUEST,
                ..self.counting(self.carried(cycle), cycle)
            }
        } else {
            Rcnt { mode: mode | RC_IRQ_REQUEST, ..self }
        }
    }

    fn new() -> (r: Self)
        ensures
            r == Rcnt::initial(),
    {
        Rcnt {
            mode: 0,
            target: 0,
            rate: 1,
            irq: 0,
            counter_state: COUNT_TO_OVERFLOW,
            irq_state: false,
            cycle: 0,
            cycle_start: 0,
        }
    }
}

/// The smaller of two signed numbers.
pub open spec fn min64(a: i64, b: i64) -> i64 {
    if b < a {
        b
    } else {
        a
    }
}

/// The cycle at which the first of the counters falls due, or `cycle` if one
/// is past due.
pub open spec fn deadline(rcnts: [Rcnt; 4], cycle: u64) -> u64 {
    let next = min64(
        min64(min64(rcnts[0].remaining(cycle), rcnts[1].remaining(cycle)), rcnts[2].remaining(
            cycle,
        )),
        rcnts[3].remaining(cycle),
    );
    cycle.wrapping_add(if next < 0 {
        0
    } else {
        next as u64
    })
}

/// The rate of counter `index` in mode `mode`; `rate` is the one it had.
pub open spec fn mode_rate(index: int, mode: u16, rate: u32) -> u32 {
    if index == 0 {
        if mode & RC0_PIXEL_CLOCK != 0 {
            5
        } else {
            1
        }
    } else if index == 1 {
        if mode & RC1_HSYNC_CLOCK != 0 {
            HSYNC_CYCLES
        } else {
            1
        }
    } else if index == 2 {
        if mode & RC2_DISABLE != 0 {
            0xFFFF_FFFF
        } else if mode & RC2_ONE_EIGHTH_CLOCK != 0 {
            8
        } else {
            1
        }
    } else {
        rate
    }
}

impl Timers {
    /// Every counter runs with its own interrupt mask, the scanline count is that
    /// of a frame, and only the interrupts of the vertical blank and of the three
    /// hardware counters can be pending.
    pub open spec fn wf(self) -> bool {
        &&& self.rcnts[0].wf()
        &&& self.rcnts[1].wf()
        &&& self.rcnts[2].wf()
        &&& self.rcnts[3].wf()
        &&& self.rcnts[0].irq == 0x10
        &&& self.rcnts[1].irq == 0x20
        &&& self.rcnts[2].irq == 0x40
        &&& self.rcnts[3].irq == 0
        &&& self.hsync_count < HSYNC_TOTAL
        &&& self.pending_irqs & !TIMER_IRQS == 0
    }

    /// The rates of the hardware counters are those that their modes ask for.
    pub open spec fn rates_follow_modes(self) -> bool {
        forall|i: int|
            0 <= i < 3 ==> (#[trigger] self.rcnts[i]).rate == mode_rate(
                i,
                self.rcnts[i].mode,
                self.rcnts[i].rate,
            )
    }

    /// The timers with no interrupt pending.
    pub open spec fn drained(self) -> Timers {
        Timers { pending_irqs: 0, ..self }
    }

    /// The interrupt of counter `i` that an update at `cycle` raises.
    pub open spec fn counter_fired(self, i: int, cycle: u64) -> u32 {
        if self.rcnts[i].due(cycle) && self.rcnts[i].fires() {
            self.rcnts[i].irq
        } else {
            0
        }
    }

    /// Whether an update at `cycle` begins the vertical blank.
    pub open spec fn blank_begins(self, cycle: u64) -> bool {
        self.rcnts[3].due(cycle) && self.hsync_count + 1 == VBLANK_START
    }

    /// The interrupts that an update at `cycle` raises.
    pub open spec fn fired(self, cycle: u64) -> u32 {
        self.counter_fired(0, cycle) | self.counter_fired(1, cycle) | self.counter_fired(2, cycle)
            | (if self.blank_begins(cycle) {
            0x01
        } else {
            0
        })
    }

    pub open spec fn with_rcnt(self, i: int, r: Rcnt) -> Timers {
        Timers { rcnts: spec_array_update(self.rcnts, i, r), ..self }
    }

    /// The timers with the deadline worked out anew.
    pub open spec fn retimed(self, cycle: u64) -> Timers {
        Timers { next_counter: deadline(self.rcnts, cycle), ..self }
    }

    /// The timers after counter `i` has had its event.
    pub open spec fn expired(self, i: int, cycle: u64) -> Timers {
        let r = self.rcnts[i];
        (Timers {
            pending_irqs: if r.fires() {
                self.pending_irqs | r.irq
            } else {
                self.pending_irqs
            },
            ..self.with_rcnt(i, r.expired(cycle))
        }).retimed(cycle)
    }

    /// The timers after counter `i` has had its event, if it is due.
    pub open spec fn polled(self, i: int, cycle: u64) -> Timers {
        if self.rcnts[i].due(cycle) {
            self.expired(i, cycle)
        } else {
            self
        }
    }

    /// The timers one scanline on: the vertical blank fires at its scanline,
    /// and the count starts over at the end of the frame.
    pub open spec fn scanline(self) -> Timers {
        let line = (self.hsync_count + 1) as u32;
        Timers {
            pending_irqs: if line == VBLANK_START {
                self.pending_irqs | 0x01
            } else {
                self.pending_irqs
            },
            hsync_count: if line >= HSYNC_TOTAL {
                0
            } else {
                line
            },
            ..self
        }
    }

    /// The timers brought up to `cycle`.
    #[verifier::opaque]
    pub open spec fn updated(self, cycle: u64) -> Timers {
        let t = self.polled(0, cycle).polled(1, cycle).polled(2, cycle);
        if t.rcnts[3].due(cycle) {
            t.expired(3, cycle).scanline()
        } else {
            t
        }
    }

    /// The timers after the value of counter `i` has been written.
    pub open spec fn counter_written(self, i: int, value: u32, cycle: u64) -> Timers {
        let t = self.updated(cycle);
        t.with_rcnt(i, t.rcnts[i].counting(value, cycle)).retimed(cycle)
    }

    /// The timers after the mode of counter `i` has been written.
    pub open spec fn mode_written(self, i: int, value: u32, cycle: u64) -> Timers {
        let t = self.updated(cycle);
        let r = Rcnt {
            mode: value as u16,
            irq_state: false,
            rate: mode_rate(i, value as u16, t.rcnts[i].rate),
            ..t.rcnts[i]
        };
        t.with_rcnt(i, r.counting(0, cycle)).retimed(cycle)
    }

    /// The timers after the target of counter `i` has been written.
    pub open spec fn target_written(self, i: int, value: u32, cycle: u64) -> Timers {
        let t = self.updated(cycle);
        let r = Rcnt { target: value as u16, ..t.rcnts[i] };
        t.with_rcnt(i, r.counting(r.value(cycle), cycle)).retimed(cycle)
    }

    /// The timers after the mode of counter `i` has been read: its two event
    /// flags are cleared.
    pub open spec fn mode_read(self, i: int, cycle: u64) -> Timers {
        let t = self.updated(cycle);
        t.with_rcnt(i, Rcnt { mode: t.rcnts[i].mode & 0xE7FF, ..t.rcnts[i] })
    }

    /// The timers set up at `cycle`.
    pub open spec fn set_up(self, cycle: u64) -> Timers {
        let r0 = (Rcnt { rate: 1, irq: 0x10, ..self.rcnts[0] }).counting(0, cycle);
        let r1 = (Rcnt { rate: 1, irq: 0x20, ..self.rcnts[1] }).counting(0, cycle);
        let r2 = (Rcnt { rate: 1, irq: 0x40, ..self.rcnts[2] }).counting(0, cycle);
        let r3 = (Rcnt {
            rate: 1,
            mode: RC_COUNT_TO_TARGET,
            target: HSYNC_CYCLES as u16,
            ..self.rcnts[3]
        }).counting(0, cycle);
        (Timers {
            hsync_count: 0,
            ..self.with_rcnt(0, r0).with_rcnt(1, r1).with_rcnt(2, r2).with_rcnt(3, r3)
        }).retimed(cycle)
    }

    /// The timers right after a vertical blank has been served: none is pending,
    /// and the next one is a full frame away.
    pub open spec fn phase_reset(self, cycle: u64) -> Timers {
        (Timers {
            hsync_count: VBLANK_START,
            pending_irqs: self.pending_irqs & !0x01u32,
            ..self.with_rcnt(3, Rcnt { cycle_start: cycle, ..self.rcnts[3] })
        }).retimed(cycle)
    }

    /// The timers after power-on: the three hardware counters run freely with
    /// their interrupt masks, and the first scanline is the first event.
    pub open spec fn powered_on(self) -> bool {
        let fresh = Rcnt { cycle: 0xFFFF, ..Rcnt::initial() };
        &&& self.rcnts@ == seq![
            Rcnt { irq: 0x10, ..fresh },
            Rcnt { irq: 0x20, ..fresh },
            Rcnt { irq: 0x40, ..fresh },
            Rcnt {
                mode: RC_COUNT_TO_TARGET,
                target: HSYNC_CYCLES as u16,
                cycle: HSYNC_CYCLES as u64,
                counter_state: COUNT_TO_TARGET,
                ..fresh
            },
        ]
        &&& self.hsync_count == 0
        &&& self.next_counter == HSYNC_CYCLES
        &&& self.pending_irqs == 0
    }

    /// The timers after power-on.
    pub fn new() -> (r: Self)
        ensures
            r.wf(),
            r.powered_on(),
    {
        let mut t = Timers {
            rcnts: [Rcnt::new(), Rcnt::new(), Rcnt::new(), Rcnt::new()],
            hsync_count: 0,
            next_counter: 0,
            pending_irqs: 0,
        };
        proof {
            lemma_irq_bits(0, 0);
        }
        t.init(0);
        proof {
            lemma_low_half(0);
            let fresh = Rcnt { cycle: 0xFFFF, ..Rcnt::initial() };
            assert(t.rcnts@ =~= seq![
                Rcnt { irq: 0x10, ..fresh },
                Rcnt { irq: 0x20, ..fresh },
                Rcnt { irq: 0x40, ..fresh },
                Rcnt {
                    mode: RC_COUNT_TO_TARGET,
                    target: HSYNC_CYCLES as u16,
                    cycle: HSYNC_CYCLES as u64,
                    counter_state: COUNT_TO_TARGET,
                    ..fresh
                },
            ]);
        }
        t
    }

    /// Sets the counters up at `cycle`.
    pub fn init(&mut self, cycle: u64)
        ensures
            *final(self) == old(self).set_up(cycle),
            old(self).rcnts[3].irq == 0 && old(self).pending_irqs & !TIMER_IRQS == 0
                ==> final(self).wf(),
    {
        self.rcnts[0].rate = 1;
        self.rcnts[0].irq = 0x10;
        self.rcnts[1].rate = 1;
        self.rcnts[1].irq = 0x20;
        self.rcnts[2].rate = 1;
        self.rcnts[2].irq = 0x40;
        self.rcnts[3].rate = 1;
        self.rcnts[3].mode = RC_COUNT_TO_TARGET;
        self.rcnts[3].target = HSYNC_CYCLES as u16;
        self.write_counter_internal(0, 0, cycle);
        self.write_counter_internal(1, 0, cycle);
        self.write_counter_internal(2, 0, cycle);
        self.write_counter_internal(3, 0, cycle);
        self.hsync_count = 0;
        proof {
            let t = old(self);
            let goal = t.set_up(cycle);
            assert(self.rcnts =~= goal.rcnts);
        }
        self.recompute_next(cycle);
    }

    fn fire_irq(&mut self, mask: u32)
        ensures
            *final(self) == (Timers { pending_irqs: old(self).pending_irqs | mask, ..*old(self) }),
    {
        self.pending_irqs = self.pending_irqs | mask;
    }

    /// Puts the next vertical blank a full frame away and drops one that is
    /// pending. A game started by the BIOS finds the machine in this state,
    /// because the BIOS shell runs in step with the vertical blank.
    pub fn reset_vblank_phase(&mut self, cycle: u64)
        requires
            old(self).wf(),
        ensures
            final(self).wf(),
            *final(self) == old(self).phase_reset(cycle),
    {
        self.hsync_count = VBLANK_START;
        self.rcnts[3].cycle_start = cycle;
        self.pending_irqs = self.pending_irqs & !0x01u32;
        proof {
            lemma_irq_bits(old(self).pending_irqs, 0);
        }
        self.recompute_next(cycle);
    }

    /// Takes the collected interrupts.
    pub fn drain_irqs(&mut self) -> (r: u32)
        ensures
            r == old(self).pending_irqs,
            *final(self) == old(self).drained(),
            old(self).wf() ==> final(self).wf(),
    {
        proof {
            lemma_irq_bits(0, 0);
        }
        let irqs: u32 = self.pending_irqs;
        self.pending_irqs = 0;
        irqs
    }

    /// Sets a counter's value and decides whether its target or its overflow
    /// comes next.
    fn write_counter_internal(&mut self, index: usize, value: u32, cycle: u64)
        requires
            index < 4,
        ensures
            *final(self) == old(self).with_rcnt(
                index as int,
                old(self).rcnts[index as int].counting(value, cycle),
            ),
            final(self).rcnts[index as int].cycle <= 0xFFFF * 0xFFFF_FFFF,
    {
        let v: u32 = value & 0xFFFF;
        let rate: u64 = self.rcnts[index].rate as u64;
        let target: u16 = self.rcnts[index].target;
        proof {
            lemma_low_half(value);
            lemma_count_fits(v as int, rate as int);
            lemma_count_fits(target as int, rate as int);
        }
        self.rcnts[index].cycle_start = cycle.wrapping_sub(v as u64 * rate);
        if v < target as u32 {
            self.rcnts[index].cycle = target as u64 * rate;
            self.rcnts[index].counter_state = COUNT_TO_TARGET;
        } else {
            self.rcnts[index].cycle = 0xFFFFu64 * rate;
            self.rcnts[index].counter_state = COUNT_TO_OVERFLOW;
        }
        proof {
            let goal = old(self).with_rcnt(
                index as int,
                old(self).rcnts[index as int].counting(value, cycle),
            );
            assert(self.rcnts =~= goal.rcnts);
        }
    }

    /// The value of a counter.
    fn read_counter_internal(&self, index: usize, cycle: u64) -> (r: u32)
        requires
            index < 4,
            self.rcnts[index as int].rate > 0,
        ensures
            r == self.rcnts[index as int].value(cycle),
    {
        let count: u64 = cycle.wrapping_sub(self.rcnts[index].cycle_start)
            / self.rcnts[index].rate as u64;
        (count & 0xFFFF) as u32
    }

    /// Works out the deadline over all counters.
    fn recompute_next(&mut self, cycle: u64)
        ensures
            *final(self) == old(self).retimed(cycle),
    {
        let mut next: i64 = self.time_left(0, cycle);
        let left1: i64 = self.time_left(1, cycle);
        if left1 < next {
            next = left1;
        }
        let left2: i64 = self.time_left(2, cycle);
        if left2 < next {
            next = left2;
        }
        let left3: i64 = self.time_left(3, cycle);
        if left3 < next {
            next = left3;
        }
        if next < 0 {
            next = 0;
        }
        self.next_counter = cycle.wrapping_add(next as u64);
    }

    fn time_left(&self, index: usize, cycle: u64) -> (r: i64)
        requires
            index < 4,
        ensures
            r == self.rcnts[index as int].remaining(cycle),
    {
        let elapsed: u64 = cycle.wrapping_sub(self.rcnts[index].cycle_start);
        (self.rcnts[index].cycle as i64).wrapping_sub(elapsed as i64)
    }

    /// Handles a counter that has reached its target or overflowed.
    fn reset(&mut self, index: usize, cycle: u64)
        requires
            index < 4,
            old(self).wf(),
        ensures
            final(self).wf(),
            *final(self) == old(self).expired(index as int, cycle),
    {
        let counter_state: u32 = self.rcnts[index].counter_state;
        let mode: u16 = self.rcnts[index].mode;
        let target: u16 = self.rcnts[index].target;
        let rate: u64 = self.rcnts[index].rate as u64;
        let cycle_start: u64 = self.rcnts[index].cycle_start;
        let irq: u32 = self.rcnts[index].irq;
        let irq_state: bool = self.rcnts[index].irq_state;
        if counter_state == COUNT_TO_TARGET {
            let count: u64 = if mode & RC_COUNT_TO_TARGET != 0 {
                let c: u64 = cycle.wrapping_sub(cycle_start) / rate;
                c.wrapping_sub(target as u64)
            } else {
                self.read_counter_internal(index, cycle) as u64
            };
            self.write_counter_internal(index, count as u32, cycle);
            if mode & RC_IRQ_ON_TARGET != 0 {
                if mode & RC_IRQ_REGENERATE != 0 || !irq_state {
                    self.fire_irq(irq);
                    self.rcnts[index].irq_state = true;
                }
            }
            self.rcnts[index].mode = self.rcnts[index].mode | RC_COUNT_EQ_TARGET;
        } else if counter_state == COUNT_TO_OVERFLOW {
            let whole: u64 = cycle.wrapping_sub(cycle_start) / rate;
            let count: u64 = whole.wrapping_sub(0xFFFF);
            self.write_counter_internal(index, count as u32, cycle);
            if mode & RC_IRQ_ON_OVERFLOW != 0 {
                if mode & RC_IRQ_REGENERATE != 0 || !irq_state {
                    self.fire_irq(irq);
                    self.rcnts[index].irq_state = true;
                }
            }
            self.rcnts[index].mode = self.rcnts[index].mode | RC_OVERFLOW;
        }
        self.rcnts[index].mode = self.rcnts[index].mode | RC_IRQ_REQUEST;
        proof {
            let goal = old(self).expired(index as int, cycle);
            let r = old(self).rcnts[index as int];
            assert(self.rcnts[index as int] == r.expired(cycle));
            assert(self.rcnts =~= goal.rcnts);
            lemma_irq_bits(old(self).pending_irqs, irq);
        }
        self.recompute_next(cycle);
    }

    /// Brings the timers up to `cycle`. Called when the deadline has come.
    pub fn update(&mut self, cycle: u64)
        requires
            old(self).wf(),
        ensures
            final(self).wf(),
            *final(self) == old(self).updated(cycle),
    {
        proof {
            reveal(Timers::updated);
            lemma_irq_bits(0, 0);
        }
        if cycle.wrapping_sub(self.rcnts[0].cycle_start) >= self.rcnts[0].cycle {
            self.reset(0, cycle);
        }
        if cycle.wrapping_sub(self.rcnts[1].cycle_start) >= self.rcnts[1].cycle {
            self.reset(1, cycle);
        }
        if cycle.wrapping_sub(self.rcnts[2].cycle_start) >= self.rcnts[2].cycle {
            self.reset(2, cycle);
        }
        if cycle.wrapping_sub(self.rcnts[3].cycle_start) >= self.rcnts[3].cycle {
            self.reset(3, cycle);
            self.hsync_count = self.hsync_count + 1;
            if self.hsync_count == VBLANK_START {
                proof {
                    lemma_irq_bits(self.pending_irqs, 0x01);
                }
                self.fire_irq(0x01);
            }
            if self.hsync_count >= HSYNC_TOTAL {
                self.hsync_count = 0;
            }
        }
    }

    /// Writes a counter's value.
    pub fn write_counter(&mut self, index: usize, value: u32, cycle: u64)
        requires
            index < 4,
            old(self).wf(),
        ensures
            final(self).wf(),
            *final(self) == old(self).counter_written(index as int, value, cycle),
    {
        self.update(cycle);
        self.write_counter_internal(index, value, cycle);
        self.recompute_next(cycle);
    }

    /// Writes a counter's mode; its value starts over from zero.
    pub fn write_mode(&mut self, index: usize, value: u32, cycle: u64)
        requires
            index < 4,
            old(self).wf(),
        ensures
            final(self).wf(),
            *final(self) == old(self).mode_written(index as int, value, cycle),
    {
        self.update(cycle);
        let mode: u16 = value as u16;
        self.rcnts[index].mode = mode;
        self.rcnts[index].irq_state = false;
        match index {
            0 => {
                self.rcnts[0].rate = if mode & RC0_PIXEL_CLOCK != 0 {
                    5
                } else {
                    1
                };
            },
            1 => {
                self.rcnts[1].rate = if mode & RC1_HSYNC_CLOCK != 0 {
                    HSYNC_CYCLES
                } else {
                    1
                };
            },
            2 => {
                self.rcnts[2].rate = if mode & RC2_ONE_EIGHTH_CLOCK != 0 {
                    8
                } else {
                    1
                };
                if mode & RC2_DISABLE != 0 {
                    self.rcnts[2].rate = 0xFFFF_FFFF;
                }
            },
            _ => {},
        }
        self.write_counter_internal(index, 0, cycle);
        proof {
            let goal = old(self).mode_written(index as int, value, cycle);
            assert(self.rcnts =~= goal.rcnts);
        }
        self.recompute_next(cycle);
    }

    /// Writes a counter's target; its value stays.
    pub fn write_target(&mut self, index: usize, value: u32, cycle: u64)
        requires
            index < 4,
            old(self).wf(),
        ensures
            final(self).wf(),
            *final(self) == old(self).target_written(index as int, value, cycle),
    {
        self.update(cycle);
        self.rcnts[index].target = value as u16;
        let count: u32 = self.read_counter_internal(index, cycle);
        self.write_counter_internal(index, count, cycle);
        proof {
            let goal = old(self).target_written(index as int, value, cycle);
            assert(self.rcnts =~= goal.rcnts);
        }
        self.recompute_next(cycle);
    }

    /// Reads a counter's value.
    pub fn read_counter(&mut self, index: usize, cycle: u64) -> (r: u32)
        requires
            index < 4,
            old(self).wf(),
        ensures
            final(self).wf(),
            *final(self) == old(self).updated(cycle),
            r == old(self).updated(cycle).rcnts[index as int].value(cycle),
    {
        self.update(cycle);
        self.read_counter_internal(index, cycle)
    }

    /// Reads a counter's mode and clears its two event flags.
    pub fn read_mode(&mut self, index: usize, cycle: u64) -> (r: u32)
        requires
            index < 4,
            old(self).wf(),
        ensures
            final(self).wf(),
            *final(self) == old(self).mode_read(index as int, cycle),
            r == old(self).updated(cycle).rcnts[index as int].mode,
    {
        self.update(cycle);
        let mode: u16 = self.rcnts[index].mode;
        self.rcnts[index].mode = mode & 0xE7FF;
        mode as u32
    }

    /// Reads a counter's target.
    pub fn read_target(&self, index: usize) -> (r: u32)
        requires
            index < 4,
        ensures
            r == self.rcnts[index as int].target,
    {
        self.rcnts[index].target as u32
    }
}

proof fn lemma_low_half(v: u32)
    ensures
        v & 0xFFFF <= 0xFFFF,
        v <= 0xFFFF ==> v & 0xFFFF == v,
{
    assert(v & 0xFFFF <= 0xFFFF && (v <= 0xFFFF ==> v & 0xFFFF == v)) by (bit_vector);
}

proof fn lemma_count_fits(v: int, rate: int)
    by (nonlinear_arith)
    requires
        0 <= v <= 0xFFFF,
        0 <= rate <= 0xFFFF_FFFF,
    ensures
        0 <= v * rate <= 0xFFFF * 0xFFFF_FFFF,
        0 <= 0xFFFF * rate <= 0xFFFF * 0xFFFF_FFFF,
{
}

/// The scanline length is the clock divided by the scanlines per second.
pub proof fn law_scanline_length()
    ensures
        HSYNC_CYCLES == PSX_CLOCK / ((FRAME_RATE * HSYNC_TOTAL) as u64),
{
    assert(FRAME_RATE * HSYNC_TOTAL == 15780) by (nonlinear_arith);
}

proof fn lemma_low_half_64(c: u64)
    ensures
        c <= 0xFFFF ==> c & 0xFFFF == c,
        c & 0xFFFF == c % 0x1_0000,
{
    lemma_long_of(c);
}

/// A counter set to a value has that value, at the same cycle.
proof fn lemma_counting_value(r: Rcnt, value: u32, cycle: u64)
    requires
        r.rate > 0,
    ensures
        r.counting(value, cycle).elapsed(cycle) == (value & 0xFFFF) * r.rate,
        r.counting(value, cycle).value(cycle) == value & 0xFFFF,
{
    lemma_low_half(value);
    let (v, rate) = ((value & 0xFFFF) as int, r.rate as int);
    lemma_count_fits(v, rate);
    assert((v * rate) / rate == v) by (nonlinear_arith)
        requires
            rate > 0,
    ;
    lemma_low_half_64(v as u64);
}

/// A counter that has just been set is not due, unless it was set to its last
/// value.
proof fn lemma_counting_not_due(r: Rcnt, value: u32, cycle: u64)
    requires
        r.rate > 0,
        value & 0xFFFF < 0xFFFF,
    ensures
        !r.counting(value, cycle).due(cycle),
{
    lemma_counting_value(r, value, cycle);
    let (v, rate, target) = ((value & 0xFFFF) as int, r.rate as int, r.target as int);
    lemma_count_fits(v, rate);
    lemma_count_fits(target, rate);
    assert(v < target ==> v * rate < target * rate) by (nonlinear_arith)
        requires
            rate > 0,
    ;
    assert(v * rate < 0xFFFF * rate) by (nonlinear_arith)
        requires
            rate > 0,
            v < 0xFFFF,
    ;
}

/// What the interrupt masks are to one another.
proof fn lemma_irq_bits(p: u32, m: u32)
    ensures
        p & !TIMER_IRQS == 0 && m & !TIMER_IRQS == 0 ==> (p | m) & !TIMER_IRQS == 0,
        p & !TIMER_IRQS == 0 ==> (p & !0x01u32) & !TIMER_IRQS == 0,
        0u32 & !TIMER_IRQS == 0,
        0x01u32 & !TIMER_IRQS == 0,
        0x10u32 & !TIMER_IRQS == 0,
        0x20u32 & !TIMER_IRQS == 0,
        0x40u32 & !TIMER_IRQS == 0,
        p | 0 == p,
        0u32 & 0x01 == 0,
        (p & !0x01u32) & 0x01 == 0,
        (p | 0x01) & 0x01 != 0,
        m & 0x01 == 0 ==> (p | m) & 0x01 == p & 0x01,
        m & 0x01 != 0 ==> (p | m) & 0x01 != 0,
        0x10u32 & 0x01 == 0,
        0x20u32 & 0x01 == 0,
        0x40u32 & 0x01 == 0,
{
    assert((p & !0x71u32 == 0 && m & !0x71u32 == 0 ==> (p | m) & !0x71u32 == 0) && (p & !0x71u32
        == 0 ==> (p & !0x01u32) & !0x71u32 == 0) && 0u32 & !0x71u32 == 0 && 0x01u32 & !0x71u32
        == 0 && 0x10u32 & !0x71u32 == 0 && 0x20u32 & !0x71u32 == 0 && 0x40u32 & !0x71u32 == 0
        && p | 0 == p && 0u32 & 0x01 == 0 && (p & !0x01u32) & 0x01 == 0 && (p | 0x01) & 0x01 != 0
        && (m & 0x01 == 0 ==> (p | m) & 0x01 == p & 0x01) && (m & 0x01 != 0 ==> (p | m) & 0x01 != 0) && 0x10u32 & 0x01 == 0 && 0x20u32 & 0x01
        == 0 && 0x40u32 & 0x01 == 0) by (bit_vector);
}

/// The mode bits that choose a clock, and the one that makes a counter start over
/// at its target, are not those that events set and reading clears.
proof fn lemma_mode_bits(m: u16, flags: u16)
    requires
        flags == RC_COUNT_EQ_TARGET || flags == RC_OVERFLOW,
    ensures
        forall|k: u16| #![trigger m & k]
            k == RC0_PIXEL_CLOCK || k == RC2_DISABLE || k == RC2_ONE_EIGHTH_CLOCK || k
                == RC_COUNT_TO_TARGET ==> {
                &&& ((m | flags) | RC_IRQ_REQUEST) & k == m & k
                &&& (m | RC_IRQ_REQUEST) & k == m & k
                &&& (m & 0xE7FF) & k == m & k
            },
        (m & 0xE7FF) & (RC_COUNT_EQ_TARGET | RC_OVERFLOW) == 0,
        (m & 0xE7FF) & 0xE7FF == m & 0xE7FF,
        0u16 & RC0_PIXEL_CLOCK == 0,
        0u16 & RC2_DISABLE == 0,
        0u16 & RC2_ONE_EIGHTH_CLOCK == 0,
        RC_COUNT_TO_TARGET & RC_COUNT_TO_TARGET != 0,
{
    assert((flags == 0x0800u16 || flags == 0x1000u16 ==> forall|k: u16|
        #![trigger m & k]
        k == 0x0100u16 || k == 0x0001u16 || k == 0x0200u16 || k == 0x0008u16 ==> ((m | flags) | 0x0400u16) & k == m
            & k && (m | 0x0400u16) & k == m & k && (m & 0xE7FFu16) & k == m & k) && (m & 0xE7FFu16)
        & (0x0800u16 | 0x1000u16) == 0 && (m & 0xE7FFu16) & 0xE7FF == m & 0xE7FF
        && 0u16 & 0x0100u16 == 0 && 0u16 & 0x0001u16 == 0 && 0u16 & 0x0200u16 == 0 && 0x0008u16
        & 0x0008u16 != 0) by (bit_vector);
}

/// What one counter's event keeps.
proof fn lemma_polled(t: Timers, i: int, cycle: u64)
    requires
        0 <= i < 4,
        t.wf(),
    ensures
        t.polled(i, cycle).wf(),
        t.rates_follow_modes() ==> t.polled(i, cycle).rates_follow_modes(),
        t.polled(i, cycle).hsync_count == t.hsync_count,
        t.polled(i, cycle).pending_irqs == t.pending_irqs | t.counter_fired(i, cycle),
        forall|j: int|
            0 <= j < 4 && (j != i || !t.rcnts[i].due(cycle)) ==> #[trigger] t.polled(
                i,
                cycle,
            ).rcnts[j] == t.rcnts[j],
{
    let r = t.rcnts[i];
    let c = r.counting(r.carried(cycle), cycle);
    lemma_low_half(r.carried(cycle));
    lemma_count_fits((r.carried(cycle) & 0xFFFF) as int, r.rate as int);
    lemma_count_fits(r.target as int, r.rate as int);
    lemma_irq_bits(t.pending_irqs, r.irq);
    lemma_mode_bits(r.mode, RC_COUNT_EQ_TARGET);
    lemma_mode_bits(r.mode, RC_OVERFLOW);
    let e = r.expired(cycle);
    assert(e.mode & RC0_PIXEL_CLOCK == r.mode & RC0_PIXEL_CLOCK);
    assert(e.mode & RC2_DISABLE == r.mode & RC2_DISABLE);
    assert(e.mode & RC2_ONE_EIGHTH_CLOCK == r.mode & RC2_ONE_EIGHTH_CLOCK);
}

/// An update keeps the timers well formed and the rates true to the modes. It
/// raises the interrupts of the counters that are due and of the vertical blank,
/// and leaves alone what is not due.
pub proof fn law_update(t: Timers, cycle: u64)
    requires
        t.wf(),
    ensures
        t.updated(cycle).wf(),
        t.rates_follow_modes() ==> t.updated(cycle).rates_follow_modes(),
        t.updated(cycle).pending_irqs == t.pending_irqs | t.fired(cycle),
        t.fired(cycle) & !TIMER_IRQS == 0,
        (t.fired(cycle) & 0x01 != 0) == t.blank_begins(cycle),
        (t.updated(cycle).pending_irqs & 0x01 != 0) == (t.pending_irqs & 0x01 != 0
            || t.blank_begins(cycle)),
        forall|i: int|
            0 <= i < 4 && !t.rcnts[i].due(cycle) ==> #[trigger] t.updated(cycle).rcnts[i]
                == t.rcnts[i],
        forall|i: int|
            0 <= i < 4 && t.rcnts[i].due(cycle) ==> #[trigger] t.updated(cycle).rcnts[i]
                == t.rcnts[i].expired(cycle),
        !t.rcnts[3].due(cycle) ==> t.updated(cycle).hsync_count == t.hsync_count,
        t.rcnts[3].due(cycle) ==> {
            &&& t.updated(cycle).rcnts[3] == t.rcnts[3].expired(cycle)
            &&& t.updated(cycle).hsync_count == t.scanline().hsync_count
        },
{
    reveal(Timers::updated);
    let t0 = t.polled(0, cycle);
    let t1 = t0.polled(1, cycle);
    let t2 = t1.polled(2, cycle);
    let t3 = t2.polled(3, cycle);
    lemma_polled(t, 0, cycle);
    lemma_polled(t0, 1, cycle);
    lemma_polled(t1, 2, cycle);
    lemma_polled(t2, 3, cycle);
    let (p, a, b, c) = (
        t.pending_irqs,
        t.counter_fired(0, cycle),
        t.counter_fired(1, cycle),
        t.counter_fired(2, cycle),
    );
    assert(t0.rcnts[1] == t.rcnts[1] && t1.rcnts[2] == t.rcnts[2] && t2.rcnts[3] == t.rcnts[3]);
    let d: u32 = if t.blank_begins(cycle) {
        0x01
    } else {
        0
    };
    lemma_separate_irqs(p, a, b, c, d);
    lemma_irq_bits(((p | a) | b) | c, 0);
    lemma_irq_bits(((p | a) | b) | c, 0x01);
    lemma_irq_bits(a, b);
    lemma_irq_bits(a | b, c);
    lemma_irq_bits((a | b) | c, d);
    lemma_irq_bits(p, ((a | b) | c) | d);
}

/// A counter's value reads back as written, at the same cycle. The one value
/// that does not is 0xFFFF, at which the counter overflows at once.
pub proof fn law_counter_read_back(t: Timers, i: int, value: u32, cycle: u64)
    requires
        t.wf(),
        0 <= i < 3,
        value & 0xFFFF != 0xFFFF,
    ensures
        t.counter_written(i, value, cycle).updated(cycle).rcnts[i].value(cycle) == value & 0xFFFF,
{
    lemma_low_half(value);
    let u = t.updated(cycle);
    let w = t.counter_written(i, value, cycle);
    law_update(t, cycle);
    lemma_written(t, i, value, cycle);
    lemma_counting_value(u.rcnts[i], value, cycle);
    lemma_counting_not_due(u.rcnts[i], value, cycle);
    law_update(w, cycle);
}

/// What setting a counter keeps.
proof fn lemma_written(t: Timers, i: int, value: u32, cycle: u64)
    requires
        t.wf(),
        0 <= i < 4,
    ensures
        t.counter_written(i, value, cycle).wf(),
        t.rates_follow_modes() ==> t.counter_written(i, value, cycle).rates_follow_modes(),
        t.counter_written(i, value, cycle).rcnts[i] == t.updated(cycle).rcnts[i].counting(
            value,
            cycle,
        ),
{
    law_update(t, cycle);
    let r = t.updated(cycle).rcnts[i];
    lemma_low_half(value);
    lemma_count_fits(r.target as int, r.rate as int);
}

/// A counter set to `v` has the value `v` plus the elapsed cycles divided by the
/// rate that its mode asks for, up to its next event.
pub proof fn law_counter_advances(t: Timers, i: int, v: u32, cycle: u64, d: u64)
    requires
        t.wf(),
        t.rates_follow_modes(),
        0 <= i < 3,
        v <= 0xFFFF,
        ({
            let r = t.counter_written(i, v, cycle).rcnts[i];
            let n = v + d / (mode_rate(i, r.mode, r.rate) as u64);
            n < 0xFFFF && (v >= r.target || n < r.target)
        }),
    ensures
        ({
            let w = t.counter_written(i, v, cycle);
            let later = cycle.wrapping_add(d);
            w.updated(later).rcnts[i].value(later) == v + d / (mode_rate(
                i,
                w.rcnts[i].mode,
                w.rcnts[i].rate,
            ) as u64)
        }),
{
    let w = t.counter_written(i, v, cycle);
    let later = cycle.wrapping_add(d);
    lemma_low_half(v);
    lemma_written(t, i, v, cycle);
    let r = w.rcnts[i];
    let rate = r.rate as int;
    assert(rate == mode_rate(i, r.mode, r.rate));
    lemma_count_fits(v as int, rate);
    lemma_count_fits(r.target as int, rate);
    let n = v + d as int / rate;
    lemma_steps(v as int, d as int, rate, 0xFFFF);
    lemma_steps(v as int, d as int, rate, r.target as int);
    assert(r.elapsed(later) == v * rate + d);
    lemma_low_half_64(n as u64);
    law_update(w, later);
}

/// Counting from `v` for `d` cycles at `rate` cycles per count.
proof fn lemma_steps(v: int, d: int, rate: int, limit: int)
    requires
        0 <= v,
        0 <= d,
        0 < rate,
    ensures
        (v * rate + d) / rate == v + d / rate,
        v + d / rate < limit ==> v * rate + d < limit * rate,
{
    vstd::arithmetic::div_mod::lemma_hoist_over_denominator(d, v, rate as nat);
    vstd::arithmetic::div_mod::lemma_fundamental_div_mod(d, rate);
    assert(v + d / rate + 1 <= limit ==> (v + d / rate + 1) * rate <= limit * rate)
        by (nonlinear_arith)
        requires
            0 < rate,
    ;
    assert((v + d / rate + 1) * rate == v * rate + rate * (d / rate) + rate) by (nonlinear_arith);
}

/// Reading the mode clears the two event flags and no other bit.
pub proof fn law_mode_read_clears(t: Timers, i: int, cycle: u64)
    requires
        0 <= i < 4,
    ensures
        t.mode_read(i, cycle).rcnts[i].mode & (RC_COUNT_EQ_TARGET | RC_OVERFLOW) == 0,
        t.mode_read(i, cycle).rcnts[i].mode & 0xE7FF == t.updated(cycle).rcnts[i].mode & 0xE7FF,
{
    lemma_mode_bits(t.updated(cycle).rcnts[i].mode, RC_OVERFLOW);
}

/// The timers `n` scanlines on.
pub open spec fn scanlines(t: Timers, n: nat) -> Timers
    decreases n,
{
    if n == 0 {
        t
    } else {
        scanlines(t, (n - 1) as nat).scanline()
    }
}

/// From the start of a frame with no vertical blank pending, the vertical
/// blank comes with the 243rd scanline and not before, and after 263 scanlines
/// the next frame starts.
pub proof fn law_vblank_once_per_frame(t: Timers, n: nat)
    requires
        t.hsync_count == 0,
        t.pending_irqs & 0x01 == 0,
        n <= HSYNC_TOTAL,
    ensures
        scanlines(t, n).hsync_count == n % (HSYNC_TOTAL as nat),
        (scanlines(t, n).pending_irqs & 0x01 != 0) == (n >= VBLANK_START),
        scanlines(t, n).rcnts == t.rcnts,
    decreases n,
{
    if n > 0 {
        law_vblank_once_per_frame(t, (n - 1) as nat);
        lemma_irq_bits(scanlines(t, (n - 1) as nat).pending_irqs, 0);
    }
}

/// The number of vertical blanks that begin within `n` scanlines.
pub open spec fn blanks(t: Timers, n: nat) -> nat
    decreases n,
{
    if n == 0 {
        0
    } else {
        blanks(t, (n - 1) as nat) + (if scanlines(t, (n - 1) as nat).hsync_count + 1
            == VBLANK_START {
            1nat
        } else {
            0nat
        })
    }
}

proof fn lemma_blanks(t: Timers, n: nat)
    requires
        t.hsync_count < HSYNC_TOTAL,
    ensures
        scanlines(t, n).hsync_count == (t.hsync_count + n) % (HSYNC_TOTAL as int),
        blanks(t, n) == (t.hsync_count + n + (HSYNC_TOTAL - VBLANK_START)) / (HSYNC_TOTAL as int) - (
        t.hsync_count + (HSYNC_TOTAL - VBLANK_START)) / (HSYNC_TOTAL as int),
    decreases n,
{
    if n > 0 {
        lemma_blanks(t, (n - 1) as nat);
    }
}

/// Over any number of frames, from any scanline on, there is one vertical blank
/// for each frame.
pub proof fn law_one_blank_per_frame(t: Timers, frames: nat)
    requires
        t.hsync_count < HSYNC_TOTAL,
    ensures
        blanks(t, (HSYNC_TOTAL * frames) as nat) == frames,
        scanlines(t, (HSYNC_TOTAL * frames) as nat).hsync_count == t.hsync_count,
{
    lemma_blanks(t, (HSYNC_TOTAL * frames) as nat);
}

/// From right after the beginning of a vertical blank, the next one comes with
/// the 263rd scanline and not before.
proof fn lemma_blank_to_blank(t: Timers, n: nat)
    requires
        t.hsync_count == VBLANK_START,
        t.pending_irqs & 0x01 == 0,
        n <= HSYNC_TOTAL,
    ensures
        scanlines(t, n).hsync_count == (VBLANK_START + n) % (HSYNC_TOTAL as int),
        (scanlines(t, n).pending_irqs & 0x01 != 0) == (n >= HSYNC_TOTAL),
    decreases n,
{
    if n > 0 {
        lemma_blank_to_blank(t, (n - 1) as nat);
        lemma_irq_bits(scanlines(t, (n - 1) as nat).pending_irqs, 0);
    }
}

/// After the phase has been reset no vertical blank is pending, and the next one
/// is a full frame away: it comes with the 263rd scanline and not before.
pub proof fn law_phase_reset(t: Timers, cycle: u64, n: nat)
    requires
        n <= HSYNC_TOTAL,
    ensures
        t.phase_reset(cycle).pending_irqs & 0x01 == 0,
        (scanlines(t.phase_reset(cycle), n).pending_irqs & 0x01 != 0) == (n >= HSYNC_TOTAL),
        t.phase_reset(cycle).rcnts[3].elapsed(cycle) == 0,
{
    lemma_irq_bits(t.pending_irqs, 0);
    lemma_blank_to_blank(t.phase_reset(cycle), n);
}

/// The timers after an update at the end of each of `n` scanlines from `cycle`.
pub open spec fn lines_updated(t: Timers, cycle: u64, n: nat) -> Timers
    decreases n,
{
    if n == 0 {
        t
    } else {
        lines_updated(t, cycle, (n - 1) as nat).updated(
            cycle.wrapping_add((HSYNC_CYCLES * n) as u64),
        )
    }
}

/// Whether the internal counter marks the scanlines, as it does from power-on.
pub open spec fn marks_lines(r: Rcnt) -> bool {
    &&& r.rate == 1
    &&& r.target == HSYNC_CYCLES
    &&& r.mode & RC_COUNT_TO_TARGET != 0
    &&& r.counter_state == COUNT_TO_TARGET
    &&& r.cycle == HSYNC_CYCLES
}

/// Timers that have just been set up or powered on mark the scanlines.
pub proof fn law_lines_are_marked(t: Timers, cycle: u64)
    ensures
        marks_lines(t.set_up(cycle).rcnts[3]),
        t.powered_on() ==> marks_lines(t.rcnts[3]),
{
    lemma_mode_bits(0, RC_OVERFLOW);
    lemma_low_half(0);
    assert(t.powered_on() ==> t.rcnts[3] == t.rcnts@[3]);
}

/// In processor cycles: after the phase has been reset at `cycle`, the next
/// vertical blank comes 263 scanlines of 2146 cycles later and not before.
pub proof fn law_blank_a_frame_away(t: Timers, cycle: u64, n: nat)
    requires
        t.wf(),
        marks_lines(t.rcnts[3]),
        n <= HSYNC_TOTAL,
    ensures
        ({
            let u = lines_updated(t.phase_reset(cycle), cycle, n);
            &&& u.wf()
            &&& marks_lines(u.rcnts[3])
            &&& u.rcnts[3].cycle_start == cycle.wrapping_add((HSYNC_CYCLES * n) as u64)
            &&& u.hsync_count == (VBLANK_START + n) % (HSYNC_TOTAL as int)
            &&& (u.pending_irqs & 0x01 != 0) == (n >= HSYNC_TOTAL)
        }),
    decreases n,
{
    lemma_irq_bits(t.pending_irqs, 0);
    if n > 0 {
        law_blank_a_frame_away(t, cycle, (n - 1) as nat);
        let u = lines_updated(t.phase_reset(cycle), cycle, (n - 1) as nat);
        let r = u.rcnts[3];
        let later = cycle.wrapping_add((HSYNC_CYCLES * n) as u64);
        assert(r.elapsed(later) == HSYNC_CYCLES);
        law_update(u, later);
        lemma_mode_bits(r.mode, RC_COUNT_EQ_TARGET);
        lemma_low_half(0);
        let (e, rate) = (r.elapsed(later), r.rate as u64);
        assert(e / rate == e) by (nonlinear_arith)
            requires
                rate == 1,
        ;
        assert(r.carried(later) == 0);
        assert(r.expired(later).mode & RC_COUNT_TO_TARGET == r.mode & RC_COUNT_TO_TARGET);
    }
}

/// A call of one of the timers' functions.
pub enum TimerCall {
    Update { cycle: u64 },
    ReadCounter { cycle: u64 },
    ReadMode { index: usize, cycle: u64 },
    WriteCounter { index: usize, value: u32, cycle: u64 },
    WriteMode { index: usize, value: u32, cycle: u64 },
    WriteTarget { index: usize, value: u32, cycle: u64 },
    SetUp { cycle: u64 },
    PhaseReset { cycle: u64 },
}

impl TimerCall {
    /// The call names one of the four counters.
    pub open spec fn wf(self) -> bool {
        match self {
            TimerCall::ReadMode { index, .. } => index < 4,
            TimerCall::WriteCounter { index, .. } => index < 4,
            TimerCall::WriteMode { index, .. } => index < 4,
            TimerCall::WriteTarget { index, .. } => index < 4,
            _ => true,
        }
    }
}

impl Timers {
    /// The timers after a call.
    pub open spec fn called(self, call: TimerCall) -> Timers {
        match call {
            TimerCall::Update { cycle } => self.updated(cycle),
            TimerCall::ReadCounter { cycle } => self.updated(cycle),
            TimerCall::ReadMode { index, cycle } => self.mode_read(index as int, cycle),
            TimerCall::WriteCounter { index, value, cycle } => self.counter_written(
                index as int,
                value,
                cycle,
            ),
            TimerCall::WriteMode { index, value, cycle } => self.mode_written(
                index as int,
                value,
                cycle,
            ),
            TimerCall::WriteTarget { index, value, cycle } => self.target_written(
                index as int,
                value,
                cycle,
            ),
            TimerCall::SetUp { cycle } => self.set_up(cycle),
            TimerCall::PhaseReset { cycle } => self.phase_reset(cycle),
        }
    }

    /// The interrupts that a call raises: those of the update it begins with.
    pub open spec fn call_fired(self, call: TimerCall) -> u32 {
        match call {
            TimerCall::Update { cycle } => self.fired(cycle),
            TimerCall::ReadCounter { cycle } => self.fired(cycle),
            TimerCall::ReadMode { cycle, .. } => self.fired(cycle),
            TimerCall::WriteCounter { cycle, .. } => self.fired(cycle),
            TimerCall::WriteMode { cycle, .. } => self.fired(cycle),
            TimerCall::WriteTarget { cycle, .. } => self.fired(cycle),
            _ => 0,
        }
    }
}

/// A call keeps the timers well formed and collects what it raises; a phase reset
/// drops a pending vertical blank. Except for setting the counters up, which makes
/// them count cycles whatever their modes say, it keeps the rates true to the
/// modes.
pub proof fn law_call(t: Timers, call: TimerCall)
    requires
        t.wf(),
        call.wf(),
    ensures
        t.called(call).wf(),
        t.called(call).pending_irqs == (if call is PhaseReset {
            t.pending_irqs & !0x01u32
        } else {
            t.pending_irqs | t.call_fired(call)
        }),
        t.rates_follow_modes() && !(call is SetUp) ==> t.called(call).rates_follow_modes(),
{
    lemma_irq_bits(t.pending_irqs, 0);
    match call {
        TimerCall::Update { cycle } => law_update(t, cycle),
        TimerCall::ReadCounter { cycle } => law_update(t, cycle),
        TimerCall::ReadMode { index, cycle } => {
            law_update(t, cycle);
            let m = t.updated(cycle).rcnts[index as int].mode;
            lemma_mode_bits(m, RC_OVERFLOW);
            assert((m & 0xE7FF) & RC0_PIXEL_CLOCK == m & RC0_PIXEL_CLOCK);
            assert((m & 0xE7FF) & RC2_DISABLE == m & RC2_DISABLE);
            assert((m & 0xE7FF) & RC2_ONE_EIGHTH_CLOCK == m & RC2_ONE_EIGHTH_CLOCK);
        },
        TimerCall::WriteCounter { index, value, cycle } => {
            law_update(t, cycle);
            lemma_written(t, index as int, value, cycle);
        },
        TimerCall::WriteMode { index, value, cycle } => {
            law_update(t, cycle);
            let r = t.updated(cycle).rcnts[index as int];
            let rate = mode_rate(index as int, value as u16, r.rate);
            lemma_count_fits(r.target as int, rate as int);
        },
        TimerCall::WriteTarget { index, value, cycle } => {
            law_update(t, cycle);
            let r = t.updated(cycle).rcnts[index as int];
            lemma_count_fits((value as u16) as int, r.rate as int);
        },
        TimerCall::SetUp { cycle } => {},
        TimerCall::PhaseReset { cycle } => {},
    }
}

/// Timers that have just been powered on count at the rates that their modes ask
/// for.
pub proof fn law_rates_at_power_on(t: Timers)
    requires
        t.powered_on(),
    ensures
        t.rates_follow_modes(),
{
    lemma_mode_bits(0, RC_OVERFLOW);
    assert forall|i: int| 0 <= i < 3 implies (#[trigger] t.rcnts[i]).rate == mode_rate(
        i,
        t.rcnts[i].mode,
        t.rcnts[i].rate,
    ) by {
        assert(t.rcnts[i] == t.rcnts@[i]);
    }
}

/// The timers after some calls.
pub open spec fn after_calls(t: Timers, calls: Seq<TimerCall>) -> Timers
    decreases calls.len(),
{
    if calls.len() == 0 {
        t
    } else {
        after_calls(t, calls.drop_last()).called(calls.last())
    }
}

/// All interrupts that some calls raise, without a vertical blank that a phase
/// reset among them drops.
pub open spec fn raised(t: Timers, calls: Seq<TimerCall>) -> u32
    decreases calls.len(),
{
    if calls.len() == 0 {
        0
    } else {
        let before = raised(t, calls.drop_last());
        if calls.last() is PhaseReset {
            before & !0x01u32
        } else {
            before | after_calls(t, calls.drop_last()).call_fired(calls.last())
        }
    }
}

/// A drain gives everything that has been raised since the previous one, whatever
/// was called in between. Only the vertical blank and the three hardware counters
/// raise interrupts. A drain leaves nothing pending and changes nothing else.
pub proof fn law_drain(t: Timers, calls: Seq<TimerCall>)
    requires
        t.wf(),
        forall|k: int| 0 <= k < calls.len() ==> (#[trigger] calls[k]).wf(),
    ensures
        after_calls(t.drained(), calls).wf(),
        after_calls(t.drained(), calls).pending_irqs == raised(t.drained(), calls),
        raised(t.drained(), calls) & !TIMER_IRQS == 0,
        t.drained().pending_irqs == 0,
        t.drained().rcnts == t.rcnts,
        t.drained().hsync_count == t.hsync_count,
        t.drained().next_counter == t.next_counter,
    decreases calls.len(),
{
    lemma_irq_bits(0, 0);
    if calls.len() > 0 {
        law_drain(t, calls.drop_last());
        law_call(after_calls(t.drained(), calls.drop_last()), calls.last());
    }
}

/// Until the deadline no counter is due, so not updating before it loses
/// nothing.
pub proof fn law_deadline_is_safe(t: Timers, cycle: u64, later: u64, i: int)
    requires
        t.wf(),
        0 <= i < 4,
        t.next_counter == deadline(t.rcnts, cycle),
        cycle <= later < t.next_counter,
        t.rcnts[i].elapsed(cycle) < 0x4000_0000_0000_0000,
    ensures
        !t.rcnts[i].due(later),
{
    let r = t.rcnts[i];
    let e = r.elapsed(cycle);
    let c = r.cycle;
    lemma_long_of(e);
    lemma_long_of(c);
    assert(r.remaining(cycle) == c - e);
    assert(r.elapsed(later) == e + (later - cycle));
}

/// The interrupt of a hardware counter.
pub open spec fn irq_of(i: int) -> u32 {
    if i == 0 {
        0x10
    } else if i == 1 {
        0x20
    } else {
        0x40
    }
}

/// Interrupts joined to those that were pending.
proof fn lemma_separate_irqs(p: u32, a: u32, b: u32, c: u32, d: u32)
    by (bit_vector)
    requires
        a == 0 || a == 0x10,
        b == 0 || b == 0x20,
        c == 0 || c == 0x40,
        d == 0 || d == 1,
    ensures
        (((p | a) | b) | c) | d == p | (((a | b) | c) | d),
        (0u32 | (((a | b) | c) | d)) & 0x10 != 0 <==> a == 0x10,
        (0u32 | (((a | b) | c) | d)) & 0x20 != 0 <==> b == 0x20,
        (0u32 | (((a | b) | c) | d)) & 0x40 != 0 <==> c == 0x40,
{
}

/// After a drain, an update leaves the interrupt of a hardware counter pending
/// exactly if that counter is due and its event raises an interrupt.
proof fn lemma_own_irq(t: Timers, i: int, cycle: u64)
    requires
        t.wf(),
        0 <= i < 3,
    ensures
        t.drained().wf(),
        (t.drained().updated(cycle).pending_irqs & irq_of(i) != 0) == (t.rcnts[i].due(cycle)
            && t.rcnts[i].fires()),
{
    lemma_irq_bits(0, 0);
    let u = t.drained();
    law_update(u, cycle);
    lemma_separate_irqs(
        0,
        u.counter_fired(0, cycle),
        u.counter_fired(1, cycle),
        u.counter_fired(2, cycle),
        if u.blank_begins(cycle) {
            0x01
        } else {
            0
        },
    );
}

/// Bit `k` of a mode, given as its weight.
pub open spec fn mode_bit(m: u16, weight: int) -> bool {
    m as int / weight % 2 == 1
}

/// The cycles per count that a mode asks of a hardware counter: counter 0 counts
/// cycles or dots, counter 1 cycles or scanlines, counter 2 cycles or eighths, or
/// stands still.
pub proof fn law_rates(i: int, m: u16)
    requires
        0 <= i < 3,
    ensures
        mode_rate(i, m, 0) == (if i == 0 {
            if mode_bit(m, 0x100) {
                5u32
            } else {
                1
            }
        } else if i == 1 {
            if mode_bit(m, 0x100) {
                2146
            } else {
                1
            }
        } else if mode_bit(m, 1) {
            0xFFFF_FFFF
        } else if mode_bit(m, 0x200) {
            8
        } else {
            1
        }),
{
    lemma_half_of(m, 0);
}

/// Whether a counter was zero at `start` and runs to its target.
pub open spec fn runs_to_target(r: Rcnt, start: u64) -> bool {
    &&& r.target > 0
    &&& r.counter_state == COUNT_TO_TARGET
    &&& r.cycle == r.target * r.rate
    &&& r.cycle_start == start
}

/// Whether a counter without a target was zero at `start` and runs to overflow.
pub open spec fn runs_to_overflow(r: Rcnt, start: u64) -> bool {
    &&& r.target == 0
    &&& r.counter_state == COUNT_TO_OVERFLOW
    &&& r.cycle == 0xFFFF * r.rate
    &&& r.cycle_start == start
}

/// The timers after `n` updates, `period` cycles apart from `start` on, with a drain
/// before each.
pub open spec fn periods(t: Timers, start: u64, period: u64, n: nat) -> Timers
    decreases n,
{
    if n == 0 {
        t
    } else {
        periods(
            t.drained().updated(start.wrapping_add(period)),
            start.wrapping_add(period),
            period,
            (n - 1) as nat,
        )
    }
}

/// One period of a counter that runs to its target and starts over there.
proof fn lemma_target_period(t: Timers, i: int, start: u64)
    requires
        t.wf(),
        0 <= i < 3,
        runs_to_target(t.rcnts[i], start),
        mode_bit(t.rcnts[i].mode, 0x08),
        mode_bit(t.rcnts[i].mode, 0x10),
    ensures
        ({
            let r = t.rcnts[i];
            let cycle = start.wrapping_add(r.cycle);
            let u = t.drained().updated(cycle);
            let e = u.rcnts[i];
            let fires = mode_bit(r.mode, 0x40) || !r.irq_state;
            &&& u.wf()
            &&& (u.pending_irqs & irq_of(i) != 0) == fires
            &&& runs_to_target(e, cycle)
            &&& e.cycle == r.cycle
            &&& e.target == r.target
            &&& e.irq_state
            &&& mode_bit(e.mode, 0x08)
            &&& mode_bit(e.mode, 0x10)
            &&& mode_bit(e.mode, 0x40) == mode_bit(r.mode, 0x40)
        }),
{
    let r = t.rcnts[i];
    let cycle = start.wrapping_add(r.cycle);
    lemma_own_irq(t, i, cycle);
    law_update(t.drained(), cycle);
    lemma_half_of(r.mode, RC_COUNT_EQ_TARGET);
    lemma_count_fits(r.target as int, r.rate as int);
    let (n, rate) = (r.target as int, r.rate as int);
    assert((n * rate) / rate == n) by (nonlinear_arith)
        requires
            rate > 0,
    ;
    assert(r.elapsed(cycle) == r.cycle);
    assert(r.counts(cycle) == r.target);
    assert(r.carried(cycle) == 0);
    lemma_low_half(0);
    let e = r.expired(cycle);
    lemma_half_of(e.mode, 0);
    assert(0 * r.rate == 0);
}

/// A repeating timer: a counter that starts over at its target and interrupts there
/// raises its interrupt at every period, with the repeat bit set. With the repeat bit
/// clear it raises it at the first period only, if it has not raised one before.
pub proof fn law_repeating_timer(t: Timers, i: int, start: u64, n: nat)
    requires
        t.wf(),
        0 <= i < 3,
        runs_to_target(t.rcnts[i], start),
        mode_bit(t.rcnts[i].mode, 0x08),
        mode_bit(t.rcnts[i].mode, 0x10),
        n >= 1,
    ensures
        (periods(t, start, (t.rcnts[i].target * t.rcnts[i].rate) as u64, n).pending_irqs & irq_of(
            i,
        ) != 0) == (mode_bit(t.rcnts[i].mode, 0x40) || (n == 1 && !t.rcnts[i].irq_state)),
    decreases n,
{
    lemma_target_period(t, i, start);
    let r = t.rcnts[i];
    let period = (r.target * r.rate) as u64;
    let cycle = start.wrapping_add(period);
    let u = t.drained().updated(cycle);
    assert(periods(t, start, period, n) == periods(u, cycle, period, (n - 1) as nat));
    if n == 1 {
        assert(periods(u, cycle, period, 0) == u);
    } else {
        assert(u.rcnts[i].target * u.rcnts[i].rate == u.rcnts[i].cycle);
        law_repeating_timer(u, i, cycle, (n - 1) as nat);
    }
}

/// One period of a counter without a target that runs to overflow.
proof fn lemma_overflow_period(t: Timers, i: int, start: u64)
    requires
        t.wf(),
        0 <= i < 3,
        runs_to_overflow(t.rcnts[i], start),
        mode_bit(t.rcnts[i].mode, 0x20),
    ensures
        ({
            let r = t.rcnts[i];
            let cycle = start.wrapping_add(r.cycle);
            let u = t.drained().updated(cycle);
            let e = u.rcnts[i];
            let fires = mode_bit(r.mode, 0x40) || !r.irq_state;
            &&& u.wf()
            &&& (u.pending_irqs & irq_of(i) != 0) == fires
            &&& runs_to_overflow(e, cycle)
            &&& e.cycle == r.cycle
            &&& e.irq_state
            &&& mode_bit(e.mode, 0x20)
            &&& mode_bit(e.mode, 0x40) == mode_bit(r.mode, 0x40)
        }),
{
    let r = t.rcnts[i];
    let cycle = start.wrapping_add(r.cycle);
    lemma_own_irq(t, i, cycle);
    law_update(t.drained(), cycle);
    lemma_half_of(r.mode, RC_OVERFLOW);
    lemma_count_fits(0, r.rate as int);
    let rate = r.rate as int;
    assert((0xFFFF * rate) / rate == 0xFFFF) by (nonlinear_arith)
        requires
            rate > 0,
    ;
    assert(r.elapsed(cycle) == r.cycle);
    assert(r.counts(cycle) == 0xFFFF);
    assert(r.carried(cycle) == 0);
    lemma_low_half(0);
    let e = r.expired(cycle);
    lemma_half_of(e.mode, 0);
    assert(0 * r.rate == 0);
}

/// The same for overflow: a counter without a target that interrupts at overflow does
/// so every 0xFFFF counts, or once if it does not repeat.
pub proof fn law_repeating_overflow(t: Timers, i: int, start: u64, n: nat)
    requires
        t.wf(),
        0 <= i < 3,
        runs_to_overflow(t.rcnts[i], start),
        mode_bit(t.rcnts[i].mode, 0x20),
        n >= 1,
    ensures
        (periods(t, start, (0xFFFF * t.rcnts[i].rate) as u64, n).pending_irqs & irq_of(i) != 0)
            == (mode_bit(t.rcnts[i].mode, 0x40) || (n == 1 && !t.rcnts[i].irq_state)),
    decreases n,
{
    lemma_overflow_period(t, i, start);
    let r = t.rcnts[i];
    let period = (0xFFFF * r.rate) as u64;
    let cycle = start.wrapping_add(period);
    let u = t.drained().updated(cycle);
    assert(periods(t, start, period, n) == periods(u, cycle, period, (n - 1) as nat));
    if n == 1 {
        assert(periods(u, cycle, period, 0) == u);
    } else {
        assert(0xFFFF * u.rcnts[i].rate == u.rcnts[i].cycle);
        law_repeating_overflow(u, i, cycle, (n - 1) as nat);
    }
}

/// Writing the mode and then the target of a hardware counter starts it: it was zero
/// at that cycle, runs at the rate of the mode to the target, or to overflow if that
/// is zero, and may interrupt anew.
pub proof fn law_counter_started(t: Timers, i: int, mode: u32, target: u32, cycle: u64)
    requires
        t.wf(),
        0 <= i < 3,
        mode <= 0xFFFF,
        target <= 0xFFFF,
    ensures
        ({
            let w = t.mode_written(i, mode, cycle).target_written(i, target, cycle);
            let r = w.rcnts[i];
            &&& w.wf()
            &&& r.mode == mode
            &&& r.target == target
            &&& r.rate == mode_rate(i, mode as u16, 0)
            &&& !r.irq_state
            &&& r.value(cycle) == 0
            &&& target > 0 ==> runs_to_target(r, cycle)
            &&& target == 0 ==> runs_to_overflow(r, cycle)
        }),
{
    let m = t.mode_written(i, mode, cycle);
    let a = TimerCall::WriteMode { index: i as usize, value: mode, cycle };
    law_call(t, a);
    let r = m.rcnts[i];
    let b = TimerCall::WriteTarget { index: i as usize, value: target, cycle };
    law_call(m, b);
    law_update(t, cycle);
    law_update(m, cycle);
    lemma_low_half(0);
    let s = Rcnt {
        mode: mode as u16,
        irq_state: false,
        rate: mode_rate(i, mode as u16, t.updated(cycle).rcnts[i].rate),
        ..t.updated(cycle).rcnts[i]
    };
    lemma_counting_value(s, 0, cycle);
    lemma_counting_not_due(s, 0, cycle);
    assert(r == s.counting(0, cycle));
    assert(m.updated(cycle).rcnts[i] == r);
    let q = Rcnt { target: target as u16, ..r };
    assert(q.value(cycle) == 0);
    lemma_counting_value(q, 0, cycle);
    assert(0 * q.rate == 0);
    lemma_count_fits(target as int, q.rate as int);
    let w = m.target_written(i, target, cycle);
    assert(w.rcnts[i] == q.counting(0, cycle));
}

/// At its target a counter starts over from zero if its mode says so, and keeps
/// counting otherwise; the mode then shows that the target was reached. At overflow
/// it starts over in any case, and the mode shows that.
pub proof fn law_counter_events(t: Timers, i: int, start: u64)
    requires
        t.wf(),
        0 <= i < 3,
        runs_to_target(t.rcnts[i], start) || runs_to_overflow(t.rcnts[i], start),
    ensures
        ({
            let r = t.rcnts[i];
            let cycle = start.wrapping_add(r.cycle);
            let e = t.updated(cycle).rcnts[i];
            &&& runs_to_target(r, start) ==> e.value(cycle) == (if mode_bit(r.mode, 0x08) {
                0
            } else {
                r.target
            }) && mode_bit(e.mode, 0x800) && mode_bit(e.mode, 0x400)
            &&& runs_to_overflow(r, start) ==> e.value(cycle) == 0 && mode_bit(e.mode, 0x1000)
                && mode_bit(e.mode, 0x400)
            &&& e.target == r.target && e.rate == r.rate && e.irq == r.irq
        }),
{
    let r = t.rcnts[i];
    let cycle = start.wrapping_add(r.cycle);
    law_update(t, cycle);
    lemma_half_of(r.mode, 0);
    lemma_count_fits(r.target as int, r.rate as int);
    let (n, rate) = (r.target as int, r.rate as int);
    assert((n * rate) / rate == n && (0xFFFF * rate) / rate == 0xFFFF) by (nonlinear_arith)
        requires
            rate > 0,
    ;
    assert(r.elapsed(cycle) == r.cycle);
    lemma_low_half(0);
    lemma_low_half(r.target as u32);
    lemma_low_half_64(r.target as u64);
    lemma_counting_value(r, r.carried(cycle), cycle);
}

} // verus!
