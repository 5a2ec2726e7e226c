use psoxide::basic::timers::Timers as BasicTimers;
use psoxide::scheduler::Scheduler;
use psoxide::timers::Timers;

#[test]
fn a_counter_counts_cycles() {
    let mut t = Timers::new();
    assert_eq!(t.read_counter(0, 100), 100);
    t.write_counter(0, 0x1000, 200);
    assert_eq!(t.read_counter(0, 250), 0x1000 + 50);
}

#[test]
fn clock_sources_slow_counters_down() {
    let mut t = Timers::new();
    t.write_mode(0, 0x100, 0);
    assert_eq!(t.read_counter(0, 100), 20);
    t.write_mode(2, 0x200, 1000);
    assert_eq!(t.read_counter(2, 1080), 10);
    t.write_mode(1, 0x100, 1000);
    assert_eq!(t.read_counter(1, 1000 + 2146 * 3), 3);
}

#[test]
fn a_target_interrupt_fires() {
    let mut t = Timers::new();
    t.write_mode(1, 0x58, 0);
    t.write_target(1, 100, 0);
    assert_eq!(t.read_target(1), 100);
    t.update(99);
    assert_eq!(t.drain_irqs() & 0x20, 0);
    t.update(100);
    assert_eq!(t.drain_irqs() & 0x20, 0x20);
    assert_eq!(t.drain_irqs(), 0);
}

#[test]
fn reading_a_mode_clears_its_flags() {
    let mut t = Timers::new();
    t.write_mode(0, 0x58, 0);
    t.write_target(0, 50, 0);
    t.update(60);
    let mode = t.read_mode(0, 61);
    assert_eq!(mode & 0x0800, 0x0800);
    assert_eq!(t.read_mode(0, 62) & 0x1800, 0);
}

#[test]
fn the_vertical_blank_comes_once_per_frame() {
    let mut t = Timers::new();
    let mut cycle: u64 = 0;
    let mut blanks = 0;
    for _ in 0..263 * 2 {
        cycle += 2146;
        t.update(cycle);
        if t.drain_irqs() & 1 != 0 {
            blanks += 1;
        }
    }
    assert_eq!(blanks, 2);
    assert_eq!(t.hsync_count, 0);
}

#[test]
fn a_phase_reset_puts_the_blank_a_frame_away() {
    let mut t = Timers::new();
    let mut cycle: u64 = 0;
    for _ in 0..243 {
        cycle += 2146;
        t.update(cycle);
    }
    t.reset_vblank_phase(cycle);
    assert_eq!(t.drain_irqs() & 1, 0);
    for _ in 0..262 {
        cycle += 2146;
        t.update(cycle);
    }
    assert_eq!(t.drain_irqs() & 1, 0);
    cycle += 2146;
    t.update(cycle);
    assert_eq!(t.drain_irqs() & 1, 1);
}

#[test]
fn a_drain_gives_all_that_was_raised() {
    let mut t = Timers::new();
    t.write_mode(0, 0x58, 0);
    t.write_target(0, 100, 0);
    t.write_mode(2, 0x258, 0);
    t.write_target(2, 20, 0);
    t.update(100);
    t.read_counter(1, 160);
    assert_eq!(t.drain_irqs(), 0x50);
    assert_eq!(t.drain_irqs(), 0);
}

#[test]
fn setting_up_restores_the_free_running_counters() {
    let mut t = Timers::new();
    t.write_mode(0, 0x100, 0);
    t.init(1000);
    assert_eq!(t.read_counter(0, 1100), 100);
    assert_eq!(t.next_counter, 1000 + 2146);
}

#[test]
fn nothing_is_due_before_the_deadline() {
    let t = Timers::new();
    assert_eq!(t.next_counter, 2146);
    let mut t = Timers::new();
    t.write_mode(0, 0x18, 0);
    t.write_target(0, 500, 0);
    assert_eq!(t.next_counter, 500);
}

#[test]
fn basic_counters_follow_the_clock() {
    let mut t = BasicTimers::new();
    let mut s = Scheduler::new();
    assert!(!t.update(100, &mut s));
    assert_eq!(t.read_counter(0), 100);
    assert_eq!(t.read_counter(2), 100);
    t.write_mode(2, 0x200, 100);
    t.write_mode(0, 0x100, 100);
    t.update(188, &mut s);
    assert_eq!(t.read_counter(2), 11);
    assert_eq!(t.read_counter(0), 8);
    assert_eq!(s.interrupt_flags, 0);
}

#[test]
fn basic_counter_one_counts_scanlines() {
    let mut t = BasicTimers::new();
    let mut s = Scheduler::new();
    t.write_mode(1, 0x118, 0);
    t.write_target(1, 2);
    t.update(2146 * 3, &mut s);
    // It starts over at its target, so the third line is its first count again.
    assert_eq!(t.hsync_count, 3);
    assert_eq!(t.read_counter(1), 1);
    assert_eq!(t.read_mode(1) & 0x0800, 0x0800);
    assert_eq!(t.read_mode(1) & 0x1800, 0);
    assert_eq!(t.read_target(1), 2);
}

#[test]
fn basic_overflow_is_flagged() {
    let mut t = BasicTimers::new();
    let mut s = Scheduler::new();
    t.write_mode(0, 0x20, 0);
    t.write_counter(0, 0xFFF0, 0);
    t.update(15, &mut s);
    assert_eq!(t.read_counter(0), 0xFFFF);
    assert_eq!(t.read_mode(0), 0x1020);
}

#[test]
fn the_basic_vertical_blank_alternates() {
    let mut t = BasicTimers::new();
    let mut s = Scheduler::new();
    assert!(!t.update(243 * 2146 - 1, &mut s));
    assert!(t.update(243 * 2146, &mut s));
    assert!(t.vblank_irq_pending());
    assert!(!t.update(263 * 2146, &mut s));
    assert!(!t.vblank_irq_pending());
    assert_eq!(t.frame_count, 1);
    assert_eq!(t.next_vblank, (263 + 243) * 2146);
    assert!(t.update((263 + 243) * 2146, &mut s));
}

#[test]
fn every_frame_has_one_blank_wherever_it_starts() {
    let mut t = Timers::new();
    let mut cycle: u64 = 0;
    for _ in 0..100 {
        cycle += 2146;
        t.update(cycle);
    }
    t.drain_irqs();
    let mut blanks = 0;
    for _ in 0..263 * 5 {
        cycle += 2146;
        t.update(cycle);
        blanks += t.drain_irqs() & 1;
    }
    assert_eq!(blanks, 5);
    assert_eq!(t.hsync_count, 100);
}
