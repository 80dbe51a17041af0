use p1graph::meter::{AppState, Fetch, Next, P1Data, Point, Status, BUF_SIZE};
use p1graph::watts::Watts;

fn w(v: f64) -> Watts {
    Watts { bits: v.to_bits() }
}

fn data(v: f64) -> Fetch {
    Fetch::Data(P1Data { active_power_w: w(v) })
}

fn message(state: &AppState) -> Option<String> {
    match state.status() {
        Status::Failure(message) => Some(message),
        _ => None,
    }
}

#[test]
fn fresh_state_waits() {
    let state = AppState::new();
    assert!(matches!(state.status(), Status::Waiting));
    assert!(state.readings().is_empty());
    assert!(state.points_at(0).is_empty());
}

#[test]
fn missing_client_stops_the_fetching() {
    let mut state = AppState::new();
    assert_eq!(state.apply(Fetch::NoClient("no TLS".to_string())), Next::Stop);
    assert_eq!(message(&state), Some("Failed to build HTTP client: no TLS".to_string()));
}

#[test]
fn failed_requests_are_reported() {
    let mut state = AppState::new();
    assert_eq!(state.apply(Fetch::RequestFailed("timed out".to_string())), Next::FetchAfter(1));
    assert_eq!(message(&state), Some("Request error: timed out".to_string()));
    assert_eq!(state.apply(Fetch::ParseFailed("bad JSON".to_string())), Next::FetchAfter(1));
    assert_eq!(message(&state), Some("Parse error: bad JSON".to_string()));
}

#[test]
fn failure_keeps_the_samples_and_success_clears_it() {
    let mut state = AppState::new();
    assert_eq!(state.apply(data(5.0)), Next::FetchAfter(1));
    state.apply(Fetch::RequestFailed("x".to_string()));
    assert_eq!(message(&state), Some("Request error: x".to_string()));
    assert_eq!(state.readings(), vec![w(5.0)]);
    state.apply(data(-6.0));
    assert_eq!(message(&state), None);
    assert_eq!(state.readings(), vec![w(5.0), w(-6.0)]);
}

#[test]
fn figures_of_the_window() {
    let mut state = AppState::new();
    for i in 0..125 {
        state.apply(data(i as f64 - 100.0));
    }
    match state.status() {
        Status::Live(live) => {
            assert_eq!(live.current, w(24.0));
            assert_eq!(live.min, w(-100.0));
            assert_eq!(live.max, w(24.0));
            assert_eq!(live.minutes, 2);
            assert_eq!(live.readings.len(), 125);
            assert_eq!(live.readings[0], w(-100.0));
        }
        _ => panic!("there are samples"),
    }
}

#[test]
fn window_holds_the_latest_hour() {
    let mut state = AppState::new();
    let total = BUF_SIZE + 250;
    for i in 0..total {
        state.apply(data(i as f64));
        if i % 7 == 0 {
            state.apply(Fetch::ParseFailed("x".to_string()));
        }
    }
    state.apply(data(total as f64));
    let readings = state.readings();
    assert_eq!(BUF_SIZE, 3600);
    assert_eq!(readings.len(), BUF_SIZE);
    assert_eq!(readings[0], w(251.0));
    assert_eq!(readings[BUF_SIZE - 1], w(total as f64));
    match state.status() {
        Status::Live(live) => assert_eq!(live.minutes, 60),
        _ => panic!("there are samples"),
    }
}

#[test]
fn newest_sample_stands_at_the_origin() {
    let mut state = AppState::new();
    for i in 0..4 {
        state.apply(data(i as f64));
    }
    assert_eq!(
        state.points_at(0),
        vec![
            Point { x: -3, y: w(0.0) },
            Point { x: -2, y: w(1.0) },
            Point { x: -1, y: w(2.0) },
            Point { x: 0, y: w(3.0) },
        ]
    );
    assert_eq!(state.points_at(700)[3].x, 700);
    assert_eq!(state.points_at(700)[0].x, 697);
}

#[test]
fn sample_counter_agrees_with_doubles() {
    let end = p1graph::meter::COUNTER_END as f64;
    assert_eq!(end + 1.0, end);
    assert_ne!((end - 1.0) + 1.0, end - 1.0);
    let mut state = AppState::new();
    let mut next_x: f64 = 0.0;
    let mut xs: Vec<f64> = Vec::new();
    for i in 0..(BUF_SIZE + 3) {
        state.apply(data(i as f64));
        xs.push(next_x);
        next_x += 1.0;
    }
    let kept = &xs[xs.len() - BUF_SIZE..];
    let latest = *kept.last().unwrap();
    let points = state.points_at(12);
    for (point, x) in points.iter().zip(kept) {
        assert_eq!(point.x as f64, x - latest + 12.0);
    }
}
