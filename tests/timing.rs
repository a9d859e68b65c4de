use fruits::timing::{applicable_point, control_points_at, time_key, ControlPoints, ZERO_TIME_KEY};

fn key(t: f32) -> u32 {
    time_key(t.to_bits())
}

#[test]
fn keys_order_like_times() {
    let times = [-1500.5f32, -2.0, -0.5, 0.0, 0.25, 1.0, 1000.0, 123456.75];
    for w in times.windows(2) {
        assert!(key(w[0]) < key(w[1]), "{} {}", w[0], w[1]);
    }
    assert_eq!(key(0.0), ZERO_TIME_KEY);
}

#[test]
fn exact_match_is_found() {
    let times = vec![key(0.0), key(500.0), key(1000.0)];
    assert_eq!(applicable_point(&times, key(500.0)), Some(1));
}

#[test]
fn last_point_before_is_found() {
    let times = vec![key(0.0), key(500.0), key(1000.0)];
    assert_eq!(applicable_point(&times, key(750.0)), Some(1));
    assert_eq!(applicable_point(&times, key(5000.0)), Some(2));
}

#[test]
fn nothing_applies_before_the_first_point() {
    let times = vec![key(100.0), key(500.0)];
    assert_eq!(applicable_point(&times, key(50.0)), None);
    assert_eq!(applicable_point(&vec![], key(50.0)), None);
}

#[test]
fn newer_timing_point_keeps_duration_unscaled() {
    let timing = vec![key(0.0), key(2000.0)];
    let difficulty = vec![key(1000.0)];
    assert_eq!(
        control_points_at(&timing, &difficulty, key(2500.0)),
        ControlPoints { timing: Some(1), difficulty: Some(0), scale_duration: false }
    );
    assert_eq!(
        control_points_at(&timing, &difficulty, key(1500.0)),
        ControlPoints { timing: Some(0), difficulty: Some(0), scale_duration: true }
    );
}

#[test]
fn missing_points_count_as_time_zero() {
    let timing = vec![key(0.0)];
    assert_eq!(
        control_points_at(&timing, &vec![], key(10.0)),
        ControlPoints { timing: Some(0), difficulty: None, scale_duration: true }
    );
    let timing = vec![key(20.0)];
    assert_eq!(
        control_points_at(&timing, &vec![], key(30.0)),
        ControlPoints { timing: Some(0), difficulty: None, scale_duration: false }
    );
}
