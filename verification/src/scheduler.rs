//! Delayed interrupts, ordered by the cycle at which they fall due.

use vstd::array::spec_array_update;
use vstd::prelude::*;

verus! {

/// A schedulable interrupt source. The order fixes each source's slot.
#[derive(Debug, Clone, Copy, PartialEq, Eq, Structural)]
pub enum PsxInt {
    Sio,
    Sio1,
    CdRom,
    CdRead,
    GpuDma,
    MdecOutDma,
    SpuDma,
    GpuBusy,
    MdecInDma,
    GpuOtcDma,
    CdRomDma,
    SpuAsync,
    CdRomDecodedBuf,
    CdRomLid,
    CdRomPlay,
}

impl PsxInt {
    /// The slot of this source.
    pub open spec fn slot(self) -> u32 {
        match self {
            PsxInt::Sio => 0,
            PsxInt::Sio1 => 1,
            PsxInt::CdRom => 2,
            PsxInt::CdRead => 3,
            PsxInt::GpuDma => 4,
            PsxInt::MdecOutDma => 5,
            PsxInt::SpuDma => 6,
            PsxInt::GpuBusy => 7,
            PsxInt::MdecInDma => 8,
            PsxInt::GpuOtcDma => 9,
            PsxInt::CdRomDma => 10,
            PsxInt::SpuAsync => 11,
            PsxInt::CdRomDecodedBuf => 12,
            PsxInt::CdRomLid => 13,
            PsxInt::CdRomPlay => 14,
        }
    }

    /// The slot of this source.
    pub fn index(self) -> (r: u32)
        ensures
            r == self.slot(),
            r < 15,
    {
        match self {
            PsxInt::Sio => 0,
            PsxInt::Sio1 => 1,
            PsxInt::CdRom => 2,
            PsxInt::CdRead => 3,
            PsxInt::GpuDma => 4,
            PsxInt::MdecOutDma => 5,
            PsxInt::SpuDma => 6,
            PsxInt::GpuBusy => 7,
            PsxInt::MdecInDma => 8,
            PsxInt::GpuOtcDma => 9,
            PsxInt::CdRomDma => 10,
            PsxInt::SpuAsync => 11,
            PsxInt::CdRomDecodedBuf => 12,
            PsxInt::CdRomLid => 13,
            PsxInt::CdRomPlay => 14,
        }
    }
}

/// The pending interrupts: a flag and a due cycle for each of the 16 slots, and
/// a lower bound on the due cycles.
pub struct Scheduler {
    pub interrupt_flags: u32,
    pub int_targets: [u64; 16],
    pub lowest_target: u64,
}

/// Whether bit `i` of `flags` is set.
pub open spec fn flagged(flags: u32, i: u32) -> bool {
    flags & (1u32 << i) != 0
}

/// The smallest due cycle among the flagged slots below `n`, or the largest
/// cycle if there is none.
pub open spec fn lowest_below(flags: u32, targets: [u64; 16], n: nat) -> u64
    decreases n,
{
    if n == 0 {
        u64::MAX
    } else {
        let i = (n - 1) as u32;
        let rest = lowest_below(flags, targets, (n - 1) as nat);
        if flagged(flags, i) && targets[i as int] < rest {
            targets[i as int]
        } else {
            rest
        }
    }
}

/// The slots below `n` that are flagged and due at `cycle`, as a mask.
pub open spec fn due_below(s: Scheduler, cycle: u64, n: nat) -> u32
    decreases n,
{
    if n == 0 {
        0
    } else {
        let i = (n - 1) as u32;
        let rest = due_below(s, cycle, (n - 1) as nat);
        if s.due(i, cycle) {
            rest | (1u32 << i)
        } else {
            rest
        }
    }
}

/// The scheduler once the due slots below `n` have been retired; the lower
/// bound is left alone.
pub open spec fn retire_below(s: Scheduler, cycle: u64, n: nat) -> Scheduler
    decreases n,
{
    if n == 0 {
        s
    } else {
        let i = (n - 1) as u32;
        let rest = retire_below(s, cycle, (n - 1) as nat);
        if s.due(i, cycle) {
            Scheduler {
                interrupt_flags: rest.interrupt_flags & !(1u32 << i),
                int_targets: spec_array_update(rest.int_targets, i as int, u64::MAX),
                lowest_target: rest.lowest_target,
            }
        } else {
            rest
        }
    }
}

/// The smallest due cycle after `cycle` among the flagged slots below `n`.
pub open spec fn later_below(s: Scheduler, cycle: u64, n: nat) -> u64
    decreases n,
{
    if n == 0 {
        u64::MAX
    } else {
        let i = (n - 1) as u32;
        let rest = later_below(s, cycle, (n - 1) as nat);
        if flagged(s.interrupt_flags, i) && !s.due(i, cycle) && s.int_targets[i as int] < rest {
            s.int_targets[i as int]
        } else {
            rest
        }
    }
}

impl Scheduler {
    /// Whether slot `i` is flagged and its cycle has come.
    pub open spec fn due(self, i: u32, cycle: u64) -> bool {
        flagged(self.interrupt_flags, i) && self.int_targets[i as int] <= cycle
    }

    /// The lower bound holds: no flagged slot falls due before it.
    pub open spec fn bounded(self) -> bool {
        forall|i: u32|
            i < 16 && #[trigger] flagged(self.interrupt_flags, i) ==> self.lowest_target
                <= self.int_targets[i as int]
    }

    /// The empty schedule.
    pub open spec fn is_empty(self) -> bool {
        &&& self.interrupt_flags == 0
        &&& self.lowest_target == u64::MAX
        &&& forall|i: int| 0 <= i < 16 ==> self.int_targets[i] == u64::MAX
    }

    /// The schedule with `irq` due `delay` cycles after `cycle`.
    pub open spec fn scheduled(self, irq: PsxInt, cycle: u64, delay: u32) -> Scheduler {
        let target = (cycle + delay) as u64;
        Scheduler {
            interrupt_flags: self.interrupt_flags | (1u32 << irq.slot()),
            int_targets: spec_array_update(self.int_targets, irq.slot() as int, target),
            lowest_target: if target < self.lowest_target {
                target
            } else {
                self.lowest_target
            },
        }
    }

    /// The schedule without `irq`.
    pub open spec fn cancelled(self, irq: PsxInt) -> Scheduler {
        let flags = self.interrupt_flags & !(1u32 << irq.slot());
        let targets = spec_array_update(self.int_targets, irq.slot() as int, u64::MAX);
        Scheduler {
            interrupt_flags: flags,
            int_targets: targets,
            lowest_target: lowest_below(flags, targets, 16),
        }
    }

    /// The mask of the slots that are due at `cycle`.
    pub open spec fn due_mask(self, cycle: u64) -> u32 {
        due_below(self, cycle, 16)
    }

    /// The schedule once everything due at `cycle` has been retired.
    pub open spec fn checked(self, cycle: u64) -> Scheduler {
        if self.interrupt_flags == 0 {
            self
        } else {
            Scheduler {
                lowest_target: later_below(self, cycle, 16),
                ..retire_below(self, cycle, 16)
            }
        }
    }

    /// A schedule with nothing pending.
    pub fn new() -> (r: Self)
        ensures
            r.is_empty(),
    {
        Scheduler { interrupt_flags: 0, int_targets: [u64::MAX; 16], lowest_target: u64::MAX }
    }

    /// Makes `irq` fall due `delay` cycles after `current_cycle`.
    pub fn schedule(&mut self, irq: PsxInt, current_cycle: u64, delay: u32)
        requires
            current_cycle + delay <= u64::MAX,
        ensures
            *final(self) == old(self).scheduled(irq, current_cycle, delay),
    {
        let idx: u32 = irq.index();
        let target: u64 = current_cycle + delay as u64;
        self.interrupt_flags = self.interrupt_flags | (1u32 << idx);
        self.int_targets[idx as usize] = target;
        if target < self.lowest_target {
            self.lowest_target = target;
        }
    }

    /// Withdraws `irq`.
    pub fn cancel(&mut self, irq: PsxInt)
        ensures
            *final(self) == old(self).cancelled(irq),
    {
        let idx: u32 = irq.index();
        self.interrupt_flags = self.interrupt_flags & !(1u32 << idx);
        self.int_targets[idx as usize] = u64::MAX;
        self.recalc_lowest();
    }

    fn recalc_lowest(&mut self)
        ensures
            *final(self) == (Scheduler {
                lowest_target: lowest_below(old(self).interrupt_flags, old(self).int_targets, 16),
                ..*old(self)
            }),
    {
        self.lowest_target = u64::MAX;
        let flags: u32 = self.interrupt_flags;
        let mut i: u32 = 0;
        while i < 16
            invariant
                i <= 16,
                flags == self.interrupt_flags,
                *self == (Scheduler {
                    lowest_target: lowest_below(flags, old(self).int_targets, i as nat),
                    ..*old(self)
                }),
            decreases 16 - i,
        {
            if flags & (1u32 << i) != 0 && self.int_targets[i as usize] < self.lowest_target {
                self.lowest_target = self.int_targets[i as usize];
            }
            i = i + 1;
        }
    }

    /// Retires every interrupt that is due at `cycle` and returns them as a mask.
    pub fn check_interrupts(&mut self, cycle: u64) -> (fired: u32)
        ensures
            fired == old(self).due_mask(cycle),
            *final(self) == old(self).checked(cycle),
    {
        let flags: u32 = self.interrupt_flags;
        if flags == 0 {
            proof {
                lemma_none_due(*self, cycle, 16);
            }
            return 0;
        }
        let mut fired: u32 = 0;
        let mut new_lowest: u64 = u64::MAX;
        let mut i: u32 = 0;
        while i < 16
            invariant
                i <= 16,
                flags == old(self).interrupt_flags,
                fired == due_below(*old(self), cycle, i as nat),
                new_lowest == later_below(*old(self), cycle, i as nat),
                *self == retire_below(*old(self), cycle, i as nat),
                forall|k: int| i <= k < 16 ==> self.int_targets[k] == old(self).int_targets[k],
            decreases 16 - i,
        {
            let mask: u32 = 1u32 << i;
            if flags & mask != 0 {
                let target: u64 = self.int_targets[i as usize];
                if cycle >= target {
                    self.interrupt_flags = self.interrupt_flags & !mask;
                    self.int_targets[i as usize] = u64::MAX;
                    fired = fired | mask;
                } else if target < new_lowest {
                    new_lowest = target;
                }
            }
            i = i + 1;
        }
        self.lowest_target = new_lowest;
        fired
    }
}

/// How setting and clearing one bit shows in every bit.
pub proof fn lemma_flag_update(x: u32, i: u32, j: u32)
    by (bit_vector)
    requires
        i < 32,
        j < 32,
    ensures
        ((x | (1u32 << i)) & (1u32 << j) != 0) == (i == j || x & (1u32 << j) != 0),
        ((x & !(1u32 << i)) & (1u32 << j) != 0) == (i != j && x & (1u32 << j) != 0),
        0u32 & (1u32 << j) == 0,
{
}

/// A schedule with a slot freshly due keeps its lower bound, and that slot is
/// flagged with exactly the cycle asked for; the other slots are untouched.
pub proof fn law_schedule(s: Scheduler, irq: PsxInt, cycle: u64, delay: u32)
    requires
        cycle + delay <= u64::MAX,
    ensures
        s.bounded() ==> s.scheduled(irq, cycle, delay).bounded(),
        flagged(s.scheduled(irq, cycle, delay).interrupt_flags, irq.slot()),
        s.scheduled(irq, cycle, delay).int_targets[irq.slot() as int] == cycle + delay,
        forall|i: u32|
            i < 16 && i != irq.slot() ==> {
                &&& #[trigger] flagged(s.scheduled(irq, cycle, delay).interrupt_flags, i) == flagged(
                    s.interrupt_flags,
                    i,
                )
                &&& s.scheduled(irq, cycle, delay).int_targets[i as int] == s.int_targets[i as int]
            },
{
    let t = s.scheduled(irq, cycle, delay);
    lemma_flag_update(s.interrupt_flags, irq.slot(), irq.slot());
    assert forall|i: u32| i < 16 && i != irq.slot() implies {
        &&& #[trigger] flagged(t.interrupt_flags, i) == flagged(s.interrupt_flags, i)
        &&& t.int_targets[i as int] == s.int_targets[i as int]
    } by {
        lemma_flag_update(s.interrupt_flags, irq.slot(), i);
    }
}

proof fn lemma_lowest_below(flags: u32, targets: [u64; 16], n: nat)
    requires
        n <= 16,
    ensures
        forall|i: u32|
            i < n && #[trigger] flagged(flags, i) ==> lowest_below(flags, targets, n)
                <= targets[i as int],
    decreases n,
{
    if n > 0 {
        lemma_lowest_below(flags, targets, (n - 1) as nat);
    }
}

/// Cancelling makes the lower bound hold, clears exactly the one slot, and
/// leaves nothing of it due at any cycle.
pub proof fn law_cancel(s: Scheduler, irq: PsxInt)
    ensures
        s.cancelled(irq).bounded(),
        forall|i: u32|
            i < 16 ==> #[trigger] flagged(s.cancelled(irq).interrupt_flags, i) == (i != irq.slot()
                && flagged(s.interrupt_flags, i)),
        forall|i: u32|
            i < 16 && i != irq.slot() ==> #[trigger] s.cancelled(irq).int_targets[i as int]
                == s.int_targets[i as int],
{
    let t = s.cancelled(irq);
    lemma_lowest_below(t.interrupt_flags, t.int_targets, 16);
    assert forall|i: u32| i < 16 implies #[trigger] flagged(t.interrupt_flags, i) == (i
        != irq.slot() && flagged(s.interrupt_flags, i)) by {
        lemma_flag_update(s.interrupt_flags, irq.slot(), i);
    }
}

proof fn lemma_check_below(s: Scheduler, cycle: u64, n: nat)
    requires
        n <= 16,
    ensures
        forall|i: u32|
            i < 16 ==> #[trigger] flagged(due_below(s, cycle, n), i) == (i < n && s.due(i, cycle)),
        forall|i: u32|
            i < 16 ==> #[trigger] flagged(retire_below(s, cycle, n).interrupt_flags, i) == (flagged(
                s.interrupt_flags,
                i,
            ) && !(i < n && s.due(i, cycle))),
        forall|i: u32|
            i < 16 ==> #[trigger] retire_below(s, cycle, n).int_targets[i as int] == (if i < n
                && s.due(i, cycle) {
                u64::MAX
            } else {
                s.int_targets[i as int]
            }),
        forall|i: u32|
            i < n && #[trigger] flagged(s.interrupt_flags, i) && !s.due(i, cycle) ==> later_below(
                s,
                cycle,
                n,
            ) <= s.int_targets[i as int],
        later_below(s, cycle, n) > cycle || later_below(s, cycle, n) == u64::MAX,
    decreases n,
{
    if n == 0 {
        assert forall|i: u32| i < 16 implies !#[trigger] flagged(due_below(s, cycle, n), i) by {
            lemma_flag_update(0, 0, i);
        }
    } else {
        lemma_check_below(s, cycle, (n - 1) as nat);
        let k = (n - 1) as u32;
        let rest = retire_below(s, cycle, (n - 1) as nat);
        let mask = due_below(s, cycle, (n - 1) as nat);
        assert forall|i: u32| i < 16 implies #[trigger] flagged(due_below(s, cycle, n), i) == (i < n
            && s.due(i, cycle)) by {
            lemma_flag_update(mask, k, i);
            assert(flagged(mask, i) == (i < n - 1 && s.due(i, cycle)));
        }
        assert forall|i: u32| i < 16 implies #[trigger] flagged(
            retire_below(s, cycle, n).interrupt_flags,
            i,
        ) == (flagged(s.interrupt_flags, i) && !(i < n && s.due(i, cycle))) by {
            lemma_flag_update(rest.interrupt_flags, k, i);
            assert(flagged(rest.interrupt_flags, i) == (flagged(s.interrupt_flags, i) && !(i < n - 1
                && s.due(i, cycle))));
        }
    }
}

/// A check fires exactly the flagged slots whose cycle has come, retires
/// exactly those, leaves a true lower bound, and leaves nothing due.
pub proof fn law_check_interrupts(s: Scheduler, cycle: u64)
    ensures
        forall|i: u32|
            i < 16 ==> #[trigger] flagged(s.due_mask(cycle), i) == s.due(i, cycle),
        forall|i: u32|
            i < 16 ==> #[trigger] flagged(s.checked(cycle).interrupt_flags, i) == (flagged(
                s.interrupt_flags,
                i,
            ) && !s.due(i, cycle)),
        s.interrupt_flags != 0 ==> s.checked(cycle).bounded(),
        forall|i: u32| i < 16 ==> !#[trigger] s.checked(cycle).due(i, cycle),
{
    lemma_check_below(s, cycle, 16);
    assert forall|i: u32| i < 16 implies #[trigger] flagged(s.checked(cycle).interrupt_flags, i)
        == (flagged(s.interrupt_flags, i) && !s.due(i, cycle)) by {
        lemma_flag_update(s.interrupt_flags, 0, i);
        assert(flagged(retire_below(s, cycle, 16).interrupt_flags, i) == (flagged(
            s.interrupt_flags,
            i,
        ) && !(i < 16 && s.due(i, cycle))));
    }
    assert forall|i: u32| i < 16 implies !#[trigger] s.checked(cycle).due(i, cycle) by {
        assert(flagged(s.checked(cycle).interrupt_flags, i) == (flagged(s.interrupt_flags, i)
            && !s.due(i, cycle)));
        assert(retire_below(s, cycle, 16).int_targets[i as int] == (if i < 16 && s.due(i, cycle) {
            u64::MAX
        } else {
            s.int_targets[i as int]
        }));
    }
    if s.interrupt_flags != 0 {
        let t = s.checked(cycle);
        assert forall|i: u32| i < 16 && #[trigger] flagged(t.interrupt_flags, i) implies t.lowest_target
            <= t.int_targets[i as int] by {
            assert(flagged(s.interrupt_flags, i) && !s.due(i, cycle));
            assert(retire_below(s, cycle, 16).int_targets[i as int] == s.int_targets[i as int]);
        }
    }
}

/// Whether `t` is the first due cycle of the schedule: a flagged slot falls due at
/// it and none before, or it is the largest cycle and no slot falls due earlier.
pub open spec fn first_due(s: Scheduler, t: u64) -> bool {
    &&& forall|i: u32|
        i < 16 && #[trigger] flagged(s.interrupt_flags, i) ==> t <= s.int_targets[i as int]
    &&& t == u64::MAX || exists|i: u32|
        i < 16 && #[trigger] flagged(s.interrupt_flags, i) && s.int_targets[i as int] == t
}

proof fn lemma_lowest_attained(flags: u32, targets: [u64; 16], n: nat)
    requires
        n <= 16,
    ensures
        lowest_below(flags, targets, n) == u64::MAX || exists|i: u32|
            i < n && #[trigger] flagged(flags, i) && targets[i as int] == lowest_below(
                flags,
                targets,
                n,
            ),
    decreases n,
{
    if n > 0 {
        lemma_lowest_attained(flags, targets, (n - 1) as nat);
        assert(flagged(flags, (n - 1) as u32) == flagged(flags, (n - 1) as u32));
    }
}

proof fn lemma_later_is_lowest(s: Scheduler, cycle: u64, n: nat)
    requires
        n <= 16,
        s.interrupt_flags != 0,
    ensures
        later_below(s, cycle, n) == lowest_below(
            s.checked(cycle).interrupt_flags,
            s.checked(cycle).int_targets,
            n,
        ),
    decreases n,
{
    if n > 0 {
        lemma_later_is_lowest(s, cycle, (n - 1) as nat);
        lemma_check_below(s, cycle, 16);
        law_check_interrupts(s, cycle);
        let i = (n - 1) as u32;
        assert(flagged(s.checked(cycle).interrupt_flags, i) == (flagged(s.interrupt_flags, i)
            && !s.due(i, cycle)));
        assert(retire_below(s, cycle, 16).int_targets[i as int] == (if i < 16 && s.due(i, cycle) {
            u64::MAX
        } else {
            s.int_targets[i as int]
        }));
    }
}

/// After a check or a cancellation the lower bound is the first due cycle itself.
pub proof fn law_lower_bound_is_exact(s: Scheduler, cycle: u64, irq: PsxInt)
    ensures
        s.interrupt_flags != 0 ==> first_due(s.checked(cycle), s.checked(cycle).lowest_target),
        first_due(s.cancelled(irq), s.cancelled(irq).lowest_target),
{
    if s.interrupt_flags != 0 {
        let t = s.checked(cycle);
        lemma_later_is_lowest(s, cycle, 16);
        lemma_lowest_below(t.interrupt_flags, t.int_targets, 16);
        lemma_lowest_attained(t.interrupt_flags, t.int_targets, 16);
    }
    let c = s.cancelled(irq);
    lemma_lowest_below(c.interrupt_flags, c.int_targets, 16);
    lemma_lowest_attained(c.interrupt_flags, c.int_targets, 16);
}

/// While the lower bound lies ahead nothing is due, so skipping the check
/// loses no interrupt.
pub proof fn law_lower_bound_is_safe(s: Scheduler, cycle: u64)
    requires
        s.bounded(),
        cycle < s.lowest_target,
    ensures
        forall|i: u32| i < 16 ==> !#[trigger] s.due(i, cycle),
{
}

proof fn lemma_none_due(s: Scheduler, cycle: u64, n: nat)
    requires
        s.interrupt_flags == 0,
        n <= 16,
    ensures
        due_below(s, cycle, n) == 0,
    decreases n,
{
    if n > 0 {
        lemma_none_due(s, cycle, (n - 1) as nat);
        lemma_flag_update(0, 0, (n - 1) as u32);
    }
}

} // verus!
