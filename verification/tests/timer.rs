use chip8::timer::{decrement_step, tone_should_play};

fn tick(v: u8) -> u8 {
    decrement_step(v).unwrap_or(v)
}

#[test]
fn test_delay_timer_decrement() {
    // At 60 ticks a second, 150 ms see nine ticks.
    let mut value: u8 = 5;
    for _ in 0..9 {
        value = tick(value);
    }
    assert_eq!(0, value);
}

#[test]
fn decrement_step_stops_at_zero() {
    assert_eq!(Some(4), decrement_step(5));
    assert_eq!(Some(0), decrement_step(1));
    assert_eq!(None, decrement_step(0));
    assert_eq!(Some(254), decrement_step(255));
}

#[test]
fn countdown_law_on_values() {
    let mut value: u8 = 200;
    for _ in 0..150 {
        value = tick(value);
    }
    assert_eq!(50, value);
    for _ in 0..100 {
        value = tick(value);
    }
    assert_eq!(0, value);
}

#[test]
fn tone_plays_while_positive() {
    assert!(tone_should_play(1));
    assert!(tone_should_play(255));
    assert!(!tone_should_play(0));
}
