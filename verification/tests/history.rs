use std::collections::VecDeque;

use hud_renderer::history::{push_capped, TelemetryHistory};

fn series(values: &[f32]) -> VecDeque<f32> {
    values.iter().copied().collect()
}

#[test]
fn push_capped_keeps_room_below_the_cap() {
    let mut history = series(&[1.0, 2.0]);
    push_capped(&mut history, 3.0, 4);
    assert_eq!(history, series(&[1.0, 2.0, 3.0]));
}

#[test]
fn push_capped_drops_the_oldest_at_the_cap() {
    let mut history = series(&[1.0, 2.0, 3.0]);
    push_capped(&mut history, 4.0, 3);
    assert_eq!(history, series(&[2.0, 3.0, 4.0]));
}

#[test]
fn push_capped_trims_an_overfull_series_to_the_cap() {
    let mut history = series(&[1.0, 2.0, 3.0, 4.0, 5.0]);
    push_capped(&mut history, 6.0, 2);
    assert_eq!(history, series(&[5.0, 6.0]));
}

#[test]
fn push_capped_with_zero_cap_keeps_nothing() {
    let mut history = series(&[1.0]);
    push_capped(&mut history, 2.0, 0);
    assert!(history.is_empty());
}

#[test]
fn history_holds_the_latest_samples_of_a_stream() {
    let mut history = TelemetryHistory::new(3);
    for i in 0..10u32 {
        let v = i as f32;
        history.push(v, v * 2.0, -v);
    }
    assert_eq!(history.max_len, 3);
    assert_eq!(history.throttle, series(&[7.0, 8.0, 9.0]));
    assert_eq!(history.brake, series(&[14.0, 16.0, 18.0]));
    assert_eq!(history.steering, series(&[-7.0, -8.0, -9.0]));
}

#[test]
fn new_history_is_empty() {
    let history: TelemetryHistory<f32> = TelemetryHistory::new(175);
    assert_eq!(history.max_len, 175);
    assert!(history.throttle.is_empty());
    assert!(history.brake.is_empty());
    assert!(history.steering.is_empty());
}
