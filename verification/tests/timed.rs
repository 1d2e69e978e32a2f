use chip8::emulator::timed::TimedRegister;

#[test]
fn new_timer_reads_zero_and_is_not_running() {
    let timer = TimedRegister::default();
    assert_eq!(timer.get(), 0);
    assert!(!timer.is_running());
    assert_eq!(timer.generation(), 0);
}

#[test]
fn set_installs_the_value_and_starts_a_new_generation() {
    let mut timer = TimedRegister::default();
    timer.set(10);
    assert_eq!(timer.get(), 10);
    assert!(timer.is_running());
    assert_eq!(timer.generation(), 1);
    timer.set(3);
    assert_eq!(timer.get(), 3);
    assert_eq!(timer.generation(), 2);
}

#[test]
fn set_to_zero_leaves_nothing_to_decay() {
    let mut timer = TimedRegister::default();
    timer.set(5);
    timer.set(0);
    assert_eq!(timer.get(), 0);
    assert!(!timer.is_running());
    let generation = timer.generation();
    assert!(!timer.tick(generation));
    assert_eq!(timer.get(), 0);
}

#[test]
fn timer_decays_to_zero_after_as_many_ticks_as_its_value() {
    for n in 1..=255u8 {
        let mut timer = TimedRegister::default();
        timer.set(n);
        let generation = timer.generation();
        for k in 1..=n {
            assert!(timer.get() <= n);
            let goes_on = timer.tick(generation);
            assert_eq!(timer.get(), n - k);
            assert_eq!(goes_on, k < n);
        }
        assert_eq!(timer.get(), 0);
        assert!(!timer.is_running());
    }
}

#[test]
fn ticks_at_zero_change_nothing() {
    let mut timer = TimedRegister::default();
    timer.set(1);
    let generation = timer.generation();
    assert!(!timer.tick(generation));
    assert!(!timer.tick(generation));
    assert!(!timer.tick(generation));
    assert_eq!(timer.get(), 0);
}

#[test]
fn ticks_of_a_superseded_process_are_ignored() {
    let mut timer = TimedRegister::default();
    timer.set(9);
    let stale = timer.generation();
    assert!(timer.tick(stale));
    assert_eq!(timer.get(), 8);
    timer.set(4);
    let current = timer.generation();
    assert!(!timer.tick(stale));
    assert_eq!(timer.get(), 4);
    assert!(timer.tick(current));
    assert_eq!(timer.get(), 3);
    assert!(!timer.tick(stale));
    assert_eq!(timer.get(), 3);
}

#[test]
fn value_never_rises_above_what_was_set() {
    let mut timer = TimedRegister::default();
    timer.set(6);
    let current = timer.generation();
    let events = [current, 0, current, current + 1, current, 7, current, current, current, current];
    for generation in events {
        timer.tick(generation);
        assert!(timer.get() <= 6);
    }
    assert_eq!(timer.get(), 0);
}
