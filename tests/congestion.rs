use mock_server::congestion::{
    CongestionConfig, CongestionController, ADJUST_INTERVAL_US, W_MAX, W_MIN,
};

fn adaptive() -> CongestionController {
    CongestionController::build(&CongestionConfig { adaptive: true })
}

#[test]
fn fixed_window_is_always_max() {
    let mut c = CongestionController::build(&CongestionConfig { adaptive: false });
    assert_eq!(c.initial_window(), W_MAX);
    c.on_congestion_event(10, 0, false, 1000);
    assert_eq!(c.window(), W_MAX);
    c.on_ack(20, 0, 1000, false, 1);
    assert_eq!(c.window(), W_MAX);
}

#[test]
fn adaptive_starts_at_min() {
    let c = adaptive();
    assert_eq!(c.initial_window(), W_MIN);
    assert_eq!(c.window(), W_MIN);
}

#[test]
fn congestion_halves_but_not_below_min() {
    let mut c = adaptive();
    c.on_ack(1_000, 0, 1200, false, 100);
    assert_eq!(c.window(), 8_000_000);
    c.on_congestion_event(2_000, 0, false, 1200);
    assert_eq!(c.window(), 4_000_000);
    c.on_congestion_event(2_000 + ADJUST_INTERVAL_US, 0, false, 1200);
    assert_eq!(c.window(), W_MIN);
}

#[test]
fn second_congestion_within_interval_is_ignored() {
    let mut c = adaptive();
    c.on_ack(1_000, 0, 1200, false, 100);
    c.on_congestion_event(10_000, 0, false, 1200);
    let after_first = c.window();
    c.on_ack(20_000, 0, 1200, false, 100);
    let grown = c.window();
    assert_eq!(grown, W_MAX);
    c.on_congestion_event(10_000 + ADJUST_INTERVAL_US - 1, 0, false, 1200);
    assert_eq!(c.window(), grown);
    assert_eq!(after_first, W_MIN);
}

#[test]
fn ack_growth_waits_a_round_trip_and_caps_at_max() {
    let mut c = adaptive();
    c.on_ack(1_000, 0, 1200, false, 500);
    assert_eq!(c.window(), W_MAX);
    for t in 0..100u64 {
        c.on_ack(2_000 + t * 1_000, 0, 1200, false, 1);
        assert!(c.window() <= W_MAX);
    }
    assert_eq!(c.window(), W_MAX);
}

#[test]
fn ack_within_round_trip_does_not_grow() {
    let mut c = adaptive();
    c.on_congestion_event(1_000, 0, false, 1);
    c.on_ack(1_100, 0, 1200, false, 500);
    assert_eq!(c.window(), W_MIN);
    c.on_ack(1_500, 0, 1200, false, 500);
    assert_eq!(c.window(), W_MAX);
}

#[test]
fn clone_is_independent() {
    let c = adaptive();
    let mut d = c.clone_box();
    d.on_ack(1_000, 0, 1200, false, 1);
    assert_eq!(c.window(), W_MIN);
    assert_eq!(d.window(), W_MAX);
}
