//! Counters that are brought up to date on demand, with the scanlines and the
//! vertical blank that pace them.

use crate::scheduler::Scheduler;
use vstd::array::spec_array_update;
use vstd::prelude::*;

verus! {

/// Scanlines per frame.
pub const NTSC_SCANLINES: u64 = 263;

/// The scanline at which the vertical blank begins.
pub const NTSC_VBLANK_START: u64 = 243;

/// Processor cycles per scanline: 33868800 cycles in 60 frames of 263 lines.
pub const CYCLES_PER_SCANLINE: u64 = 2146;

/// Processor cycles per frame.
pub const CYCLES_PER_FRAME: u64 = 564_398;

/// Processor cycles from the start of a frame to its vertical blank.
pub const CYCLES_TO_VBLANK: u64 = 521_478;

/// One counter.
#[derive(Clone)]
pub struct Counter {
    pub value: u16,
    pub target: u16,
    pub mode: u16,
    /// The cycle up to which it has counted.
    pub cycle_start: u64,
    pub paused: bool,
}

/// The counters and the place in the frame.
pub struct Timers {
    pub counters: [Counter; 3],
    pub hsync_count: u64,
    pub next_hsync: u64,
    pub next_vblank: u64,
    pub in_vblank: bool,
    pub frame_count: u64,
}

impl Counter {
    pub open spec fn initial() -> Counter {
        Counter { value: 0, target: 0, mode: 0, cycle_start: 0, paused: false }
    }

    /// The counter with its flags brought up to date: at the target it is
    /// flagged and may start over, and at the end it is flagged too.
    pub open spec fn checked(self) -> Counter {
        let hit = self.mode & 0x10 != 0 && self.value >= self.target;
        let c = if hit {
            Counter {
                mode: self.mode | 0x0800,
                value: if self.mode & 0x08 != 0 {
                    0
                } else {
                    self.value
                },
                ..self
            }
        } else {
            self
        };
        if self.mode & 0x20 != 0 && c.value == 0xFFFF {
            Counter { mode: c.mode | 0x1000, ..c }
        } else {
            c
        }
    }

    /// The counter after `n` more counts.
    pub open spec fn counted(self, n: u16) -> Counter {
        (Counter { value: self.value.wrapping_add(n), ..self }).checked()
    }

    /// The counter brought up to `cycle` at `rate` cycles per count. The number of
    /// counts is taken modulo 2^16.
    pub open spec fn clocked(self, cycle: u64, rate: u64) -> Counter {
        let elapsed = if cycle >= self.cycle_start {
            cycle - self.cycle_start
        } else {
            0
        };
        let ticks = (elapsed / rate as int) as u64 as u16;
        if self.paused || ticks == 0 {
            self
        } else {
            (Counter { value: self.value.wrapping_add(ticks), cycle_start: cycle, ..self }).checked()
        }
    }

    fn new() -> (c: Counter)
        ensures
            c == Counter::initial(),
    {
        Counter { value: 0, target: 0, mode: 0, cycle_start: 0, paused: false }
    }
}

impl Timers {
    pub open spec fn with_counter(self, i: int, c: Counter) -> Timers {
        Timers { counters: spec_array_update(self.counters, i, c), ..self }
    }

    /// The scanlines that have begun by `cycle`.
    pub open spec fn lines_due(self, cycle: u64) -> nat {
        if cycle >= self.next_hsync {
            ((cycle - self.next_hsync) / CYCLES_PER_SCANLINE as int + 1) as nat
        } else {
            0
        }
    }

    /// The timers one scanline on. Counter 1 may count scanlines.
    pub open spec fn line_passed(self) -> Timers {
        let t = Timers {
            hsync_count: (self.hsync_count + 1) as u64,
            next_hsync: (self.next_hsync + CYCLES_PER_SCANLINE) as u64,
            ..self
        };
        if t.counters[1].mode & 0x100 != 0 && !t.counters[1].paused {
            t.with_counter(1, t.counters[1].counted(1))
        } else {
            t
        }
    }

    /// The timers `n` scanlines on.
    pub open spec fn lines_passed(self, n: nat) -> Timers
        decreases n,
    {
        if n == 0 {
            self
        } else {
            self.lines_passed((n - 1) as nat).line_passed()
        }
    }

    /// Whether the vertical blank begins now.
    pub open spec fn vblank_begins(self, cycle: u64) -> bool {
        cycle >= self.next_vblank && !self.in_vblank
    }

    /// The timers with the vertical blank begun or ended, if it is time.
    pub open spec fn vblank_passed(self, cycle: u64) -> Timers {
        if cycle < self.next_vblank {
            self
        } else if !self.in_vblank {
            Timers {
                in_vblank: true,
                next_vblank: ((self.frame_count + 1) * CYCLES_PER_FRAME) as u64,
                ..self
            }
        } else {
            Timers {
                in_vblank: false,
                frame_count: (self.frame_count + 1) as u64,
                hsync_count: 0,
                next_vblank: ((self.frame_count + 1) * CYCLES_PER_FRAME + CYCLES_TO_VBLANK) as u64,
                ..self
            }
        }
    }

    /// Cycles per count of counters 0 and 2.
    pub open spec fn rate(self, i: int) -> u64 {
        if i == 0 && self.counters[0].mode & 0x100 != 0 {
            11
        } else if i == 2 && self.counters[2].mode & 0x200 != 0 {
            8
        } else {
            1
        }
    }

    /// The timers with counter `i` brought up to `cycle`.
    pub open spec fn counter_clocked(self, i: int, cycle: u64) -> Timers {
        self.with_counter(i, self.counters[i].clocked(cycle, self.rate(i)))
    }

    /// The timers brought up to `cycle`.
    pub open spec fn updated(self, cycle: u64) -> Timers {
        self.lines_passed(self.lines_due(cycle)).vblank_passed(cycle).counter_clocked(
            0,
            cycle,
        ).counter_clocked(2, cycle)
    }

    /// The counts do not run over when the timers are brought up to `cycle`.
    pub open spec fn in_range(self, cycle: u64) -> bool {
        &&& cycle + CYCLES_PER_SCANLINE <= u64::MAX
        &&& self.hsync_count + self.lines_due(cycle) <= u64::MAX
        &&& (self.frame_count + 2) * CYCLES_PER_FRAME <= u64::MAX
    }

    /// The timers at the start of the first frame.
    pub fn new() -> (t: Timers)
        ensures
            t.counters[0] == Counter::initial(),
            t.counters[1] == Counter::initial(),
            t.counters[2] == Counter::initial(),
            t.hsync_count == 0,
            t.next_hsync == CYCLES_PER_SCANLINE,
            t.next_vblank == CYCLES_TO_VBLANK,
            !t.in_vblank,
            t.frame_count == 0,
    {
        Timers {
            counters: [Counter::new(), Counter::new(), Counter::new()],
            hsync_count: 0,
            next_hsync: CYCLES_PER_SCANLINE,
            next_vblank: NTSC_VBLANK_START * CYCLES_PER_SCANLINE,
            in_vblank: false,
            frame_count: 0,
        }
    }

    /// Brings a counter's flags up to date.
    fn check_counter_irq(&mut self, index: usize)
        requires
            index < 3,
        ensures
            *final(self) == old(self).with_counter(
                index as int,
                old(self).counters[index as int].checked(),
            ),
    {
        let mode: u16 = self.counters[index].mode;
        if mode & 0x10 != 0 && self.counters[index].value >= self.counters[index].target {
            self.counters[index].mode = mode | 0x0800;
            if mode & 0x08 != 0 {
                self.counters[index].value = 0;
            }
        }
        if mode & 0x20 != 0 && self.counters[index].value == 0xFFFF {
            let flagged: u16 = self.counters[index].mode | 0x1000;
            self.counters[index].mode = flagged;
        }
        proof {
            let goal = old(self).with_counter(
                index as int,
                old(self).counters[index as int].checked(),
            );
            assert(self.counters =~= goal.counters);
        }
    }

    fn counter_rate(&self, index: usize) -> (r: u64)
        requires
            index < 3,
        ensures
            r == self.rate(index as int),
            r >= 1,
    {
        match index {
            0 => if self.counters[0].mode & 0x100 != 0 {
                11
            } else {
                1
            },
            2 => if self.counters[2].mode & 0x200 != 0 {
                8
            } else {
                1
            },
            _ => 1,
        }
    }

    /// Counts one scanline.
    fn pass_line(&mut self)
        requires
            old(self).hsync_count < u64::MAX,
            old(self).next_hsync + CYCLES_PER_SCANLINE <= u64::MAX,
        ensures
            *final(self) == old(self).line_passed(),
    {
        self.hsync_count += 1;
        self.next_hsync += CYCLES_PER_SCANLINE;
        if self.counters[1].mode & 0x100 != 0 && !self.counters[1].paused {
            let ghost before = *self;
            let value: u16 = self.counters[1].value.wrapping_add(1);
            self.counters[1].value = value;
            self.check_counter_irq(1);
            proof {
                let goal = before.with_counter(1, before.counters[1].counted(1));
                assert(self.counters =~= goal.counters);
            }
        }
    }

    /// Begins or ends the vertical blank.
    fn pass_vblank(&mut self, cycle: u64) -> (fired: bool)
        requires
            (old(self).frame_count + 2) * CYCLES_PER_FRAME <= u64::MAX,
        ensures
            *final(self) == old(self).vblank_passed(cycle),
            fired == old(self).vblank_begins(cycle),
    {
        if cycle < self.next_vblank {
            return false;
        }
        if !self.in_vblank {
            self.in_vblank = true;
            self.next_vblank = (self.frame_count + 1) * CYCLES_PER_FRAME;
            true
        } else {
            self.in_vblank = false;
            self.frame_count += 1;
            self.hsync_count = 0;
            self.next_vblank = self.frame_count * CYCLES_PER_FRAME + CYCLES_TO_VBLANK;
            false
        }
    }

    /// Brings a counter up to `cycle`.
    fn clock_counter(&mut self, index: usize, cycle: u64)
        requires
            index < 3,
        ensures
            *final(self) == old(self).counter_clocked(index as int, cycle),
    {
        let rate: u64 = self.counter_rate(index);
        let start: u64 = self.counters[index].cycle_start;
        let elapsed: u64 = if cycle >= start {
            cycle - start
        } else {
            0
        };
        let ticks: u16 = (elapsed / rate) as u16;
        if !self.counters[index].paused && ticks > 0 {
            let value: u16 = self.counters[index].value.wrapping_add(ticks);
            self.counters[index].value = value;
            self.counters[index].cycle_start = cycle;
            self.check_counter_irq(index);
        }
        proof {
            let goal = old(self).counter_clocked(index as int, cycle);
            assert(self.counters =~= goal.counters);
        }
    }

    /// Brings the timers up to `cycle`. Returns whether the vertical blank has
    /// begun. Nothing is scheduled.
    pub fn update(&mut self, cycle: u64, scheduler: &mut Scheduler) -> (fired: bool)
        requires
            old(self).in_range(cycle),
        ensures
            *final(self) == old(self).updated(cycle),
            fired == old(self).vblank_begins(cycle),
            *final(scheduler) == *old(scheduler),
    {
        let ghost due = self.lines_due(cycle);
        let ghost mut passed: nat = 0;
        while cycle >= self.next_hsync
            invariant
                old(self).in_range(cycle),
                due == old(self).lines_due(cycle),
                passed <= due,
                *self == old(self).lines_passed(passed),
                self.next_hsync == old(self).next_hsync + passed * CYCLES_PER_SCANLINE,
                self.hsync_count == old(self).hsync_count + passed,
                self.next_vblank == old(self).next_vblank,
                self.in_vblank == old(self).in_vblank,
                self.frame_count == old(self).frame_count,
                cycle >= self.next_hsync ==> passed < due,
                cycle < self.next_hsync ==> passed == due,
            decreases due - passed,
        {
            self.pass_line();
            proof {
                lemma_lines(old(self).next_hsync as int, cycle as int, passed as int);
                passed = passed + 1;
            }
        }
        let fired: bool = self.pass_vblank(cycle);
        self.clock_counter(0, cycle);
        self.clock_counter(2, cycle);
        fired
    }

    /// Reads a counter's value.
    pub fn read_counter(&self, index: usize) -> (v: u16)
        requires
            index < 3,
        ensures
            v == self.counters[index as int].value,
    {
        self.counters[index].value
    }

    /// Reads a counter's mode and clears its two flags.
    pub fn read_mode(&mut self, index: usize) -> (v: u16)
        requires
            index < 3,
        ensures
            v == old(self).counters[index as int].mode,
            *final(self) == old(self).mode_read(index as int),
    {
        let mode: u16 = self.counters[index].mode;
        self.counters[index].mode = mode & !0x1800u16;
        mode
    }

    /// Reads a counter's target.
    pub fn read_target(&self, index: usize) -> (v: u16)
        requires
            index < 3,
        ensures
            v == self.counters[index as int].target,
    {
        self.counters[index].target
    }

    pub open spec fn mode_read(self, i: int) -> Timers {
        self.with_counter(
            i,
            Counter { mode: self.counters[i].mode & !0x1800u16, ..self.counters[i] },
        )
    }

    pub open spec fn value_written(self, i: int, value: u16, cycle: u64) -> Timers {
        self.with_counter(i, Counter { value, cycle_start: cycle, ..self.counters[i] })
    }

    pub open spec fn mode_written(self, i: int, value: u16, cycle: u64) -> Timers {
        self.with_counter(
            i,
            Counter { mode: value, value: 0, cycle_start: cycle, ..self.counters[i] },
        )
    }

    /// Writes a counter's value.
    pub fn write_counter(&mut self, index: usize, value: u16, cycle: u64)
        requires
            index < 3,
        ensures
            *final(self) == old(self).value_written(index as int, value, cycle),
    {
        self.counters[index].value = value;
        self.counters[index].cycle_start = cycle;
        proof {
            let goal = old(self).value_written(index as int, value, cycle);
            assert(self.counters =~= goal.counters);
        }
    }

    /// Writes a counter's mode; its value starts over.
    pub fn write_mode(&mut self, index: usize, value: u16, cycle: u64)
        requires
            index < 3,
        ensures
            *final(self) == old(self).mode_written(index as int, value, cycle),
    {
        self.counters[index].mode = value;
        self.counters[index].value = 0;
        self.counters[index].cycle_start = cycle;
        proof {
            let goal = old(self).mode_written(index as int, value, cycle);
            assert(self.counters =~= goal.counters);
        }
    }

    /// Writes a counter's target.
    pub fn write_target(&mut self, index: usize, value: u16)
        requires
            index < 3,
        ensures
            *final(self) == old(self).with_counter(
                index as int,
                (Counter { target: value, ..old(self).counters[index as int] }),
            ),
    {
        self.counters[index].target = value;
    }

    /// Whether the vertical blank is on.
    pub fn vblank_irq_pending(&self) -> (r: bool)
        ensures
            r == self.in_vblank,
    {
        self.in_vblank
    }
}

/// How many scanlines have begun.
proof fn lemma_lines(next: int, cycle: int, passed: int)
    requires
        cycle >= next + passed * 2146,
        passed >= 0,
    ensures
        cycle >= next + (passed + 1) * 2146 ==> passed + 1 < (cycle - next) / 2146 + 1,
        cycle < next + (passed + 1) * 2146 ==> passed + 1 == (cycle - next) / 2146 + 1,
{
}

/// The vertical blank fires once per frame: when it has begun, the next change
/// is its end, a frame boundary, and when it has ended, the next one begins at
/// its line of the new frame.
pub proof fn law_vblank_alternates(t: Timers, cycle: u64)
    requires
        cycle >= t.next_vblank,
        (t.frame_count + 2) * CYCLES_PER_FRAME <= u64::MAX,
    ensures
        t.vblank_passed(cycle).in_vblank == !t.in_vblank,
        !t.in_vblank ==> t.vblank_passed(cycle).next_vblank == (t.frame_count + 1)
            * CYCLES_PER_FRAME,
        t.in_vblank ==> t.vblank_passed(cycle).next_vblank == (t.frame_count + 1)
            * CYCLES_PER_FRAME + CYCLES_TO_VBLANK,
{
}

/// Reading a counter's mode clears its two flags and nothing else.
pub proof fn law_mode_read_clears(t: Timers, i: int)
    requires
        0 <= i < 3,
    ensures
        t.mode_read(i).counters[i].mode & 0x1800 == 0,
        t.mode_read(i).counters[i].mode & !0x1800u16 == t.counters[i].mode & !0x1800u16,
{
    crate::bits::lemma_half_of(t.counters[i].mode, 0);
}

} // verus!
