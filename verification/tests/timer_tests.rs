use chip8::engine::timer::Timer;

#[test]
fn fires_once_the_interval_has_passed() {
    let mut timer = Timer::from_nanos(100);
    assert_eq!(timer.interval_nanos(), 100);
    assert!(!timer.tick_at(0));
    assert!(!timer.tick_at(99));
    assert!(timer.tick_at(100));
    assert!(!timer.tick_at(150));
    assert!(!timer.tick_at(199));
    assert!(timer.tick_at(200));
}

#[test]
fn baseline_moves_to_the_reading_that_fired() {
    let mut timer = Timer::from_nanos(100);
    assert!(timer.tick_at(250));
    assert!(!timer.tick_at(349));
    assert!(timer.tick_at(350));
}

#[test]
fn a_shut_timer_keeps_its_baseline() {
    let mut timer = Timer::from_nanos(100);
    assert!(timer.tick_at(100));
    for now in 101..200u128 {
        assert!(!timer.tick_at(now));
    }
    assert!(timer.tick_at(200));
}

#[test]
fn consecutive_firings_are_an_interval_apart() {
    let mut timer = Timer::from_nanos(1_000);
    let mut last: Option<u128> = None;
    let mut now: u128 = 0;
    let mut fired = 0;
    for step in 0..10_000u128 {
        now += (step * 7919) % 613;
        if timer.tick_at(now) {
            if let Some(previous) = last {
                assert!(now - previous >= 1_000);
            }
            last = Some(now);
            fired += 1;
        }
    }
    assert!(fired > 100);
}

#[test]
fn a_reading_before_the_baseline_counts_as_no_time() {
    let mut timer = Timer::from_nanos(10);
    assert!(timer.tick_at(1_000));
    assert!(!timer.tick_at(5));
    assert!(!timer.tick_at(1_009));
    assert!(timer.tick_at(1_010));
}

#[test]
fn zero_interval_always_fires() {
    let mut timer = Timer::from_nanos(0);
    assert!(timer.tick_at(0));
    assert!(timer.tick_at(0));
    assert!(timer.tick());
    assert!(timer.tick());
}

#[test]
fn real_clock_respects_the_interval() {
    let mut timer = Timer::from_nanos(u128::MAX);
    for _ in 0..100 {
        assert!(!timer.tick());
    }
    let mut timer = Timer::from_nanos(2_000_000);
    let started = std::time::Instant::now();
    let mut firings = Vec::new();
    while firings.len() < 3 {
        if timer.tick() {
            firings.push(started.elapsed().as_nanos());
        }
    }
    assert!(firings[1] - firings[0] >= 1_900_000);
    assert!(firings[2] - firings[1] >= 1_900_000);
}
