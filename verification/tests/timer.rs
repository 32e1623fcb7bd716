use bodyecho::timer::IntervalTimer;

#[test]
fn new_timer_has_nothing_accumulated() {
    let timer = IntervalTimer::new(150_000);
    assert_eq!(timer, IntervalTimer { elapsed: 0, period: 150_000 });
}

#[test]
fn timer_accumulates_until_its_period() {
    let mut timer = IntervalTimer::new(150_000);
    assert!(!timer.tick(100_000));
    assert_eq!(timer.elapsed, 100_000);
    assert!(!timer.tick(49_999));
    assert_eq!(timer.elapsed, 149_999);
    assert!(timer.tick(1));
    assert_eq!(timer.elapsed, 0);
}

#[test]
fn timer_starts_again_from_zero_when_it_fires() {
    let mut timer = IntervalTimer::new(150_000);
    assert!(timer.tick(290_000));
    assert_eq!(timer.elapsed, 0);
    assert!(!timer.tick(10_000));
    assert_eq!(timer.elapsed, 10_000);
}

#[test]
fn timer_fires_once_in_a_long_step() {
    let mut timer = IntervalTimer::new(10);
    assert!(timer.tick(u32::MAX));
    assert_eq!(timer.elapsed, 0);
    assert!(!timer.tick(9));
}

#[test]
fn timer_keeps_repeating() {
    let mut timer = IntervalTimer::new(3);
    let mut fires: u32 = 0;
    let mut step: u32 = 0;
    while step < 30 {
        if timer.tick(1) {
            fires += 1;
        }
        step += 1;
    }
    assert_eq!(fires, 10);
    assert_eq!(timer.period, 3);
}

#[test]
fn timer_fires_no_faster_than_its_period() {
    let deltas: [u32; 8] = [40, 70, 10, 95, 5, 120, 33, 66];
    let mut timer = IntervalTimer { elapsed: 20, period: 100 };
    let mut fires: u64 = 0;
    let mut passed: u64 = 20;
    for dt in deltas {
        if timer.tick(dt) {
            fires += 1;
        }
        passed += dt as u64;
        assert!(fires * 100 + timer.elapsed as u64 <= passed);
    }
    assert_eq!(fires, 3);
    assert_eq!(timer.elapsed, 99);
}

#[test]
fn timer_with_no_period_fires_on_every_step() {
    let mut timer = IntervalTimer::new(0);
    assert!(timer.tick(0));
    assert!(timer.tick(5));
    assert_eq!(timer.elapsed, 0);
}

#[test]
fn timer_takes_steps_up_to_the_end_of_the_range() {
    let mut timer = IntervalTimer { elapsed: u32::MAX - 1, period: u32::MAX };
    assert!(timer.tick(u32::MAX));
    let mut late = IntervalTimer { elapsed: u32::MAX, period: 7 };
    assert!(late.tick(0));
    assert_eq!(late.elapsed, 0);
}
