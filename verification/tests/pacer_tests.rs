use gol::pacer::{frame_rate, remaining_delay, NANOS_PER_MILLI, NANOS_PER_SECOND};

#[test]
fn units() {
    assert_eq!(NANOS_PER_MILLI, 1_000_000);
    assert_eq!(NANOS_PER_SECOND, 1_000_000_000);
}

#[test]
fn no_pacing_means_no_delay() {
    assert_eq!(remaining_delay(0, 0), 0);
    assert_eq!(remaining_delay(0, 1), 0);
    assert_eq!(remaining_delay(0, 5_000_000), 0);
    assert_eq!(remaining_delay(0, u128::MAX), 0);
}

#[test]
fn delay_is_what_is_left_of_the_frame() {
    assert_eq!(remaining_delay(33, 0), 33_000_000);
    assert_eq!(remaining_delay(33, 1_000_000), 32_000_000);
    assert_eq!(remaining_delay(33, 32_999_999), 1);
    assert_eq!(remaining_delay(1, 1), 999_999);
    assert_eq!(remaining_delay(1000, 250_000_000), 750_000_000);
}

#[test]
fn no_delay_once_the_frame_is_over() {
    assert_eq!(remaining_delay(33, 33_000_000), 0);
    assert_eq!(remaining_delay(33, 33_000_001), 0);
    assert_eq!(remaining_delay(33, 10_000_000_000), 0);
    assert_eq!(remaining_delay(u64::MAX, u128::MAX), 0);
}

#[test]
fn delay_for_the_longest_frame_time() {
    assert_eq!(remaining_delay(u64::MAX, 0), u64::MAX as u128 * 1_000_000);
    assert_eq!(remaining_delay(u64::MAX, 1), u64::MAX as u128 * 1_000_000 - 1);
}

#[test]
fn elapsed_and_delay_make_up_the_frame_time() {
    for frametime in [0u64, 1, 16, 33, 1000] {
        for elapsed in [0u128, 1, 999_999, 1_000_000, 16_000_000, 40_000_000, 2_000_000_000] {
            let delay = remaining_delay(frametime, elapsed);
            let target = frametime as u128 * 1_000_000;
            assert!(elapsed + delay >= target);
            assert_eq!(elapsed + delay, target.max(elapsed));
        }
    }
}

#[test]
fn rate_is_the_reciprocal_of_the_frame_time() {
    assert_eq!(frame_rate(1_000_000_000), Some(1));
    assert_eq!(frame_rate(33_000_000), Some(30));
    assert_eq!(frame_rate(16_666_667), Some(59));
    assert_eq!(frame_rate(16_666_666), Some(60));
    assert_eq!(frame_rate(10_000_000), Some(100));
    assert_eq!(frame_rate(1), Some(1_000_000_000));
    assert_eq!(frame_rate(3), Some(333_333_333));
}

#[test]
fn rate_of_a_slow_frame_rounds_down_to_zero() {
    assert_eq!(frame_rate(1_000_000_001), Some(0));
    assert_eq!(frame_rate(u128::MAX), Some(0));
}

#[test]
fn no_rate_for_a_frame_that_took_no_time() {
    assert_eq!(frame_rate(0), None);
}
