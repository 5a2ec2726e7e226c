use psoxide::scheduler::{PsxInt, Scheduler};

#[test]
fn events_fire_when_their_cycle_has_come() {
    let mut s = Scheduler::new();
    s.schedule(PsxInt::Sio, 1000, 50);
    s.schedule(PsxInt::CdRom, 1000, 20);
    assert_eq!(s.lowest_target, 1020);
    assert_eq!(s.check_interrupts(1019), 0);
    assert_eq!(s.check_interrupts(1020), 1 << 2);
    assert_eq!(s.lowest_target, 1050);
    assert_eq!(s.check_interrupts(5000), 1);
    assert_eq!(s.interrupt_flags, 0);
    assert_eq!(s.lowest_target, u64::MAX);
}

#[test]
fn a_cancelled_event_never_fires() {
    let mut s = Scheduler::new();
    s.schedule(PsxInt::GpuDma, 10, 10);
    s.schedule(PsxInt::CdRomLid, 10, 30);
    s.cancel(PsxInt::GpuDma);
    assert_eq!(s.int_targets[4], u64::MAX);
    assert_eq!(s.lowest_target, 40);
    assert_eq!(s.check_interrupts(100), 1 << 13);
}

#[test]
fn rescheduling_moves_an_event() {
    let mut s = Scheduler::new();
    s.schedule(PsxInt::CdRead, 0, 100);
    s.schedule(PsxInt::CdRead, 0, 200);
    assert_eq!(s.int_targets[3], 200);
    // The bound is only a bound: it may be lower than what is scheduled.
    assert_eq!(s.lowest_target, 100);
    assert_eq!(s.check_interrupts(150), 0);
    assert_eq!(s.lowest_target, 200);
}

#[test]
fn several_events_fire_together() {
    let mut s = Scheduler::new();
    s.schedule(PsxInt::Sio1, 0, 1);
    s.schedule(PsxInt::CdRomPlay, 0, 2);
    s.schedule(PsxInt::SpuAsync, 0, 3);
    assert_eq!(s.check_interrupts(3), (1 << 1) | (1 << 14) | (1 << 11));
    assert_eq!(s.check_interrupts(3), 0);
}

#[test]
fn a_check_leaves_the_first_due_cycle_as_the_bound() {
    let mut s = Scheduler::new();
    s.schedule(PsxInt::Sio, 0, 10);
    s.schedule(PsxInt::CdRom, 0, 300);
    s.schedule(PsxInt::GpuDma, 0, 200);
    assert_eq!(s.check_interrupts(10), 1);
    assert_eq!(s.lowest_target, 200);
    s.cancel(PsxInt::GpuDma);
    assert_eq!(s.lowest_target, 300);
    s.cancel(PsxInt::CdRom);
    assert_eq!(s.lowest_target, u64::MAX);
}
