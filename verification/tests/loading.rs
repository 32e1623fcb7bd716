use bodyecho::loading::LoadingProgress;

const TWO_SECONDS: u32 = 2_000_000;

#[test]
fn new_gate_is_at_zero() {
    let gate = LoadingProgress::new(TWO_SECONDS);
    assert_eq!(gate, LoadingProgress { elapsed: 0, duration: TWO_SECONDS, announced: false });
    assert_eq!(gate.progress(), 0);
    assert!(!gate.is_complete());
}

#[test]
fn progress_is_half_after_half_the_duration() {
    let mut gate = LoadingProgress::new(TWO_SECONDS);
    gate.update(1_000_000);
    assert_eq!(gate.progress(), 50);
    assert!(!gate.is_complete());
}

#[test]
fn progress_is_full_after_the_duration() {
    let mut gate = LoadingProgress::new(TWO_SECONDS);
    gate.update(2_500_000);
    assert_eq!(gate.progress(), 100);
    assert!(gate.is_complete());
    let mut exact = LoadingProgress::new(TWO_SECONDS);
    exact.update(1_999_999);
    assert_eq!(exact.progress(), 99);
    assert!(!exact.is_complete());
    exact.update(1);
    assert_eq!(exact.progress(), 100);
    assert!(exact.is_complete());
}

#[test]
fn progress_rounds_down_to_whole_percent() {
    let mut gate = LoadingProgress::new(TWO_SECONDS);
    gate.update(19_999);
    assert_eq!(gate.progress(), 0);
    gate.update(1);
    assert_eq!(gate.progress(), 1);
    gate.update(646_666);
    assert_eq!(gate.elapsed, 666_666);
    assert_eq!(gate.progress(), 33);
}

#[test]
fn progress_never_falls() {
    let mut gate = LoadingProgress::new(TWO_SECONDS);
    let mut last: u8 = 0;
    let mut frame: u32 = 0;
    while frame < 200 {
        gate.update(16_667);
        let now = gate.progress();
        assert!(now >= last);
        last = now;
        frame += 1;
    }
    assert_eq!(last, 100);
}

#[test]
fn progress_depends_on_the_time_only() {
    let mut in_one = LoadingProgress::new(TWO_SECONDS);
    in_one.update(1_234_567);
    let mut in_many = LoadingProgress::new(TWO_SECONDS);
    in_many.update(1_000_000);
    in_many.poll();
    in_many.update(234_000);
    in_many.update(0);
    in_many.update(567);
    assert_eq!(in_one.progress(), 61);
    assert_eq!(in_many.progress(), 61);
}

#[test]
fn complete_gate_no_longer_counts() {
    let mut gate = LoadingProgress::new(TWO_SECONDS);
    gate.update(1_500_000);
    gate.update(1_000_000);
    assert_eq!(gate.elapsed, 2_500_000);
    gate.update(1_000_000);
    gate.update(u32::MAX);
    assert_eq!(gate.elapsed, 2_500_000);
    assert_eq!(gate.progress(), 100);
}

#[test]
fn signal_is_given_once() {
    let mut gate = LoadingProgress::new(TWO_SECONDS);
    assert!(!gate.poll());
    gate.update(1_999_999);
    assert!(!gate.poll());
    assert!(!gate.announced);
    gate.update(1);
    assert!(gate.poll());
    assert!(gate.announced);
    let mut polls: u32 = 0;
    while polls < 1_000 {
        assert!(!gate.poll());
        gate.update(16_667);
        polls += 1;
    }
    assert!(gate.is_complete());
    assert_eq!(gate.progress(), 100);
}

#[test]
fn polling_does_not_change_the_progress() {
    let mut gate = LoadingProgress::new(TWO_SECONDS);
    gate.update(700_000);
    let before = gate;
    assert!(!gate.poll());
    assert_eq!(gate, before);
}

#[test]
fn gate_without_duration_is_complete_at_once() {
    let mut gate = LoadingProgress::new(0);
    assert!(gate.is_complete());
    assert_eq!(gate.progress(), 100);
    assert!(gate.poll());
    assert!(!gate.poll());
}

#[test]
fn gate_with_the_longest_duration() {
    let mut gate = LoadingProgress::new(u32::MAX);
    gate.update(u32::MAX - 1);
    assert_eq!(gate.progress(), 99);
    gate.update(u32::MAX);
    assert_eq!(gate.elapsed, 2 * (u32::MAX as u64) - 1);
    assert_eq!(gate.progress(), 100);
    assert!(gate.poll());
}

#[test]
fn one_shot_gate_of_three_seconds() {
    let mut splash = LoadingProgress::new(3_000_000);
    let mut signals: u32 = 0;
    let mut frame: u32 = 0;
    while frame < 400 {
        splash.update(16_667);
        if splash.poll() {
            signals += 1;
            // 180 frames of 16_667 come to 3_000_060.
            assert_eq!(frame, 179);
        }
        frame += 1;
    }
    assert_eq!(signals, 1);
}
