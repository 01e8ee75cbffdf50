use place_feed::pagination::{height_from, height_of_value, run_scripted, DriverPhase, ScrollState};

const STOP: &str = "You have reached the end of the list.";

#[test]
fn stagnant_heights_hit_the_cap_and_fail() {
    let heights = [100i64, 100, 100];
    let mut s = ScrollState::new(3);
    let mut long_waits = Vec::new();
    let mut i = 0;
    while s.active() {
        long_waits.push(s.observe_height(heights[i]));
        s.finish_iteration(None, STOP);
        i += 1;
    }
    assert_eq!(i, 3);
    assert_eq!(s.phase, DriverPhase::Failed);
    assert_eq!(long_waits, vec![false, true, true]);
    assert_eq!(s.last_observed_height, 100);
    assert_eq!(s.stable_iterations, 2);
}

#[test]
fn sentinel_text_finishes_the_run() {
    let mut s = ScrollState::new(10);
    s.observe_height(500);
    s.finish_iteration(Some("loading more"), STOP);
    assert_eq!(s.phase, DriverPhase::Scrolling);
    s.observe_height(900);
    s.finish_iteration(Some("xx You have reached the end of the list. yy"), STOP);
    assert_eq!(s.phase, DriverPhase::Done);
    assert_eq!(s.iterations_run, 2);
}

#[test]
fn absent_sentinel_is_not_an_error() {
    let mut s = ScrollState::new(5);
    s.observe_height(10);
    s.finish_iteration(None, STOP);
    assert_eq!(s.phase, DriverPhase::Scrolling);
}

#[test]
fn growth_resets_the_stagnation_count() {
    let mut s = ScrollState::new(10);
    assert!(!s.observe_height(100));
    s.finish_iteration(None, STOP);
    assert!(s.observe_height(100));
    s.finish_iteration(None, STOP);
    assert_eq!(s.stable_iterations, 1);
    assert!(!s.observe_height(250));
    assert_eq!(s.stable_iterations, 0);
    assert_eq!(s.last_observed_height, 250);
}

#[test]
fn height_decreases_are_recorded_not_fatal() {
    let mut s = ScrollState::new(10);
    s.observe_height(300);
    s.finish_iteration(None, STOP);
    let long = s.observe_height(200);
    assert!(long);
    assert_eq!(s.last_observed_height, 200);
    assert_eq!(s.phase, DriverPhase::Scrolling);
}

#[test]
fn zero_cap_fails_immediately() {
    let s = ScrollState::new(0);
    assert_eq!(s.phase, DriverPhase::Failed);
    assert!(!s.active());
}

#[test]
fn scripted_stagnant_run_fails_at_the_cap() {
    let heights = vec![100i64, 100, 100];
    let sentinels = vec![None, None, None];
    let s = run_scripted(&heights, &sentinels, STOP, 3);
    assert_eq!(s.phase, DriverPhase::Failed);
    assert_eq!(s.iterations_run, 3);
}

#[test]
fn scripted_run_finishes_on_the_sentinel_before_the_cap() {
    let heights = vec![100i64, 200, 200];
    let sentinels = vec![None, Some(format!("note: {STOP}")), None];
    let s = run_scripted(&heights, &sentinels, STOP, 50);
    assert_eq!(s.phase, DriverPhase::Done);
    assert_eq!(s.iterations_run, 2);
}

#[test]
fn height_decoding_defaults_to_zero() {
    assert_eq!(height_from(Some(640)), 640);
    assert_eq!(height_from(None), 0);
}

#[test]
fn json_numbers_decode_to_their_height() {
    let v = serde_json::Value::from(1234i64);
    assert_eq!(height_of_value(&v), 1234);
}

#[test]
fn non_numeric_json_decodes_to_zero() {
    let v = serde_json::Value::from("tall");
    assert_eq!(height_of_value(&v), 0);
    let f = serde_json::Value::from(12.5f64);
    assert_eq!(height_of_value(&f), 0);
}
