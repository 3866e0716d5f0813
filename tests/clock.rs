use foxy::clock::{ClockError, FixedClock};

fn clock_128() -> FixedClock {
    FixedClock::from_rate(128, 1024).unwrap()
}

#[test]
fn rate_128_has_step_of_7812500_nanos() {
    let c = clock_128();
    assert_eq!(c.step(), 7_812_500);
    assert_eq!(c.max_ticks(), 1024);
    assert_eq!(c.accumulated(), 0);
    assert_eq!(c.frame_ticks(), 0);
}

#[test]
fn delta_of_31_millis_gives_three_ticks() {
    let mut c = clock_128();
    c.advance(31_000_000);
    let mut n = 0;
    while c.should_tick() {
        c.consume_tick();
        n += 1;
    }
    assert_eq!(n, 3);
    assert_eq!(c.frame_ticks(), 3);
    assert_eq!(c.accumulated(), 31_000_000 - 3 * 7_812_500);
}

#[test]
fn run_frame_counts_due_ticks() {
    let mut c = clock_128();
    assert_eq!(c.run_frame(31_000_000), 3);
    assert_eq!(c.accumulated(), 7_562_500);
    // the remainder carries into the next frame
    assert_eq!(c.run_frame(250_000), 1);
    assert_eq!(c.accumulated(), 0);
}

#[test]
fn stall_is_clamped_to_the_tick_cap() {
    let mut c = FixedClock::new(10, 4).unwrap();
    assert_eq!(c.run_frame(1_000), 4);
    assert_eq!(c.accumulated(), 0);
    c.advance(u64::MAX);
    assert_eq!(c.accumulated(), 40);
}

#[test]
fn zero_delta_gives_no_tick() {
    let mut c = clock_128();
    c.advance(0);
    assert!(!c.should_tick());
    assert_eq!(c.run_frame(0), 0);
}

#[test]
fn same_deltas_give_same_ticks() {
    let deltas = vec![31_000_000, 0, 16_666_667, 7_812_500, 1_000_000_000, 3];
    let mut a = clock_128();
    let mut b = clock_128();
    let ta = a.run_frames(&deltas);
    let tb = b.run_frames(&deltas);
    assert_eq!(ta, tb);
    assert_eq!(ta, vec![3, 0, 3, 1, 128, 0]);
    assert_eq!(a.accumulated(), b.accumulated());
}

#[test]
fn unclamped_frames_conserve_time() {
    let deltas: Vec<u64> = vec![5_000_000, 9_000_000, 12_345_678, 1];
    let mut c = clock_128();
    let ticks = c.run_frames(&deltas);
    let total: u64 = deltas.iter().sum();
    let ticked: u64 = ticks.iter().sum();
    assert_eq!(ticked * 7_812_500 + c.accumulated(), total);
}

#[test]
fn alpha_is_in_millionths_of_a_step() {
    let mut c = FixedClock::new(1_000, 8).unwrap();
    c.run_frame(2_250);
    assert_eq!(c.accumulated(), 250);
    assert_eq!(c.alpha_ppm(), 250_000);
}

#[test]
fn zero_step_is_rejected() {
    assert!(matches!(FixedClock::new(0, 10), Err(ClockError::ZeroStep)));
    assert!(matches!(FixedClock::from_rate(0, 10), Err(ClockError::ZeroStep)));
    assert!(matches!(FixedClock::from_rate(2_000_000_000, 10), Err(ClockError::ZeroStep)));
}

#[test]
fn zero_tick_cap_is_rejected() {
    assert!(matches!(FixedClock::new(10, 0), Err(ClockError::ZeroTickCap)));
    assert!(matches!(FixedClock::from_rate(128, 0), Err(ClockError::ZeroTickCap)));
}

#[test]
fn overflowing_cap_is_rejected() {
    assert!(matches!(FixedClock::new(u64::MAX, 2), Err(ClockError::CapOverflow)));
    assert!(FixedClock::new(u64::MAX, 1).is_ok());
}
