use p1graph::chart::{Flow, PowerAxis};
use p1graph::meter::{AppState, Fetch, P1Data, Point};
use p1graph::session::{api_url, choose_interface, parse_ip_addr, quits, Interface, Key};
use p1graph::status::{label_update, terminal_status, waiting_label, write_figures};
use p1graph::status::{Figures, LabelUpdate, Shade};
use p1graph::terminal::{split_by_flow, text_frame, time_span, Area};
use p1graph::text::{decimal, join, pad_left};
use p1graph::watts::Watts;
use p1graph::window::{chart_box, plan_strokes, window_frame, Anchor, ChartBox, Stroke};

fn w(v: f64) -> Watts {
    Watts { bits: v.to_bits() }
}

fn state_of(values: &[f64]) -> AppState {
    let mut state = AppState::new();
    for v in values {
        state.apply(Fetch::Data(P1Data { active_power_w: w(*v) }));
    }
    state
}

fn figures(current: f64, min: f64, max: f64, avg: f64) -> Figures {
    Figures {
        current: format!("{:.0}", current),
        min: format!("{:.0}", min),
        max: format!("{:.0}", max),
        avg: format!("{:.0}", avg),
    }
}

#[test]
fn decimal_agrees_with_format() {
    for n in [0u64, 7, 9, 10, 11, 99, 100, 6040, 65535, u64::MAX] {
        assert_eq!(decimal(n), format!("{}", n));
        assert_eq!(decimal(n).parse::<u64>(), Ok(n));
    }
}

#[test]
fn padding_agrees_with_format() {
    for v in [0.0, -0.4, 3.5, 42.0, -42.0, 999.6, 12345.0, f64::INFINITY, f64::NAN] {
        assert_eq!(pad_left(&format!("{:.0}", v), 4), format!("{:4.0}", v));
    }
    for n in [0usize, 5, 59, 60, 1234] {
        assert_eq!(pad_left(&decimal(n as u64), 3), format!("{:3.0}", n));
    }
    assert_eq!(pad_left("\u{e9}", 3), "  \u{e9}");
    assert_eq!(join("ab", "cd"), "abcd");
}

#[test]
fn figures_line_agrees_with_format() {
    let (current, min, max, avg, minutes) = (-12.7, -1250.0, 43210.4, 0.5, 7usize);
    assert_eq!(
        write_figures(&figures(current, min, max, avg), minutes),
        format!(
            "Current: {:4.0} W | Min: {:4.0} W | Max: {:4.0} W | Avg: {:4.0} W | Sample window: {:3.0} min",
            current, min, max, avg, minutes
        )
    );
}

#[test]
fn terminal_status_of_each_state() {
    let mut state = AppState::new();
    let none = figures(0.0, 0.0, 0.0, 0.0);
    assert_eq!(
        terminal_status(&state.status(), &none),
        ("Waiting for data...".to_string(), Shade::Yellow)
    );
    state.apply(Fetch::Data(P1Data { active_power_w: w(5.0) }));
    let (text, shade) = terminal_status(&state.status(), &figures(5.0, 5.0, 5.0, 5.0));
    assert_eq!(
        text,
        "Current:    5 W | Min:    5 W | Max:    5 W | Avg:    5 W | Sample window:   0 min"
    );
    assert_eq!(shade, Shade::Red);
    state.apply(Fetch::Data(P1Data { active_power_w: w(0.0) }));
    assert_eq!(terminal_status(&state.status(), &none).1, Shade::Green);
    state.apply(Fetch::RequestFailed("gone".to_string()));
    assert_eq!(
        terminal_status(&state.status(), &none),
        ("Error: Request error: gone".to_string(), Shade::Red)
    );
}

#[test]
fn label_of_each_state() {
    let mut state = AppState::new();
    let none = figures(0.0, 0.0, 0.0, 0.0);
    assert!(matches!(label_update(&state.status(), &none), LabelUpdate::Keep));
    state.apply(Fetch::Data(P1Data { active_power_w: w(-5.0) }));
    match label_update(&state.status(), &figures(-5.0, -5.0, -5.0, -5.0)) {
        LabelUpdate::Markup(text) => assert_eq!(
            text,
            "<span foreground='#00FF00'>Current:   -5 W | Min:   -5 W | Max:   -5 W | Avg:   -5 W | Sample window:   0 min</span>"
        ),
        _ => panic!("there are samples"),
    }
    state.apply(Fetch::Data(P1Data { active_power_w: w(5.0) }));
    match label_update(&state.status(), &none) {
        LabelUpdate::Markup(text) => assert!(text.starts_with("<span foreground='#FF0000'>Current: ")),
        _ => panic!("there are samples"),
    }
    state.apply(Fetch::ParseFailed("odd".to_string()));
    match label_update(&state.status(), &none) {
        LabelUpdate::Label(text) => assert_eq!(text, "Error: Parse error: odd"),
        _ => panic!("the last fetch failed"),
    }
    assert_eq!(waiting_label("http://10.0.0.7/api/v1/data"), "Waiting for data from: http://10.0.0.7/api/v1/data");
}

#[test]
fn addresses() {
    assert_eq!(api_url("192.168.1.20"), "http://192.168.1.20/api/v1/data");
    assert_eq!(parse_ip_addr("::1", Some(6)), Ok(6));
    assert_eq!(
        parse_ip_addr::<u8>("meter", None),
        Err("`meter` is not a valid IP address".to_string())
    );
}

#[test]
fn window_needs_a_display() {
    assert_eq!(choose_interface(false, true, false), Interface::Window);
    assert_eq!(choose_interface(false, false, true), Interface::Window);
    assert_eq!(choose_interface(false, false, false), Interface::Terminal);
    assert_eq!(choose_interface(true, true, true), Interface::Terminal);
}

#[test]
fn q_and_escape_quit() {
    assert!(quits(Key::Char('q'), true));
    assert!(quits(Key::Escape, true));
    assert!(!quits(Key::Char('Q'), true));
    assert!(!quits(Key::Other, true));
    assert!(!quits(Key::Char('q'), false));
    assert!(!quits(Key::Escape, false));
}

#[test]
fn time_span_follows_the_width() {
    assert_eq!(time_span(0), 10);
    assert_eq!(time_span(11), 10);
    assert_eq!(time_span(12), 10);
    assert_eq!(time_span(13), 11);
    assert_eq!(time_span(80), 78);
    assert_eq!(time_span(u16::MAX), 65533);
}

#[test]
fn panes_fill_the_screen() {
    let state = AppState::new();
    let mut heights: Vec<u16> = (0..120).collect();
    heights.extend([500, 1000, 32767, 32768, 40000, 65535]);
    for y in [0u16, 1, 17, 300] {
        for height in heights.iter() {
            let rows = (*height).min(u16::MAX - y);
            let below = rows.min(3);
            let frame = text_frame(&state, Area { x: 5, y, width: 80, height: *height });
            assert_eq!(
                frame.chart_pane,
                Area { x: 5, y, width: 80, height: rows - below },
                "{y} {height}"
            );
            assert_eq!(
                frame.status_pane,
                Area { x: 5, y: y + rows - below, width: 80, height: below },
                "{y} {height}"
            );
        }
    }
}

#[test]
fn panes_at_the_edge_of_the_screen() {
    let state = AppState::new();
    let frame = text_frame(&state, Area { x: 65535, y: 65530, width: 40, height: 100 });
    assert_eq!(frame.chart_pane, Area { x: 65535, y: 65530, width: 40, height: 2 });
    assert_eq!(frame.status_pane, Area { x: 65535, y: 65532, width: 40, height: 3 });
}

#[test]
fn text_frame_of_some_samples() {
    let state = state_of(&[1.0, -2.0, 0.0, -4.0]);
    let frame = text_frame(&state, Area { x: 0, y: 0, width: 80, height: 24 });
    assert_eq!(
        frame.datasets.consumption,
        vec![Point { x: -3, y: w(1.0) }, Point { x: -1, y: w(0.0) }]
    );
    assert_eq!(
        frame.datasets.injection,
        vec![Point { x: -2, y: w(-2.0) }, Point { x: 0, y: w(-4.0) }]
    );
    assert_eq!(frame.axis, PowerAxis::Peak(w(4.0)));
    assert_eq!(frame.span, 78);
    assert_eq!(frame.start_label, "-78");
}

#[test]
fn datasets_share_out_the_points() {
    let points: Vec<Point> = (0..50)
        .map(|i| Point { x: i, y: w(if i % 3 == 0 { -1.5 } else { 2.5 }) })
        .collect();
    let sets = split_by_flow(&points);
    assert_eq!(sets.consumption.len() + sets.injection.len(), 50);
    assert!(sets.consumption.iter().all(|p| p.x % 3 != 0));
    assert!(sets.injection.iter().all(|p| p.x % 3 == 0));
}

#[test]
fn chart_needs_room() {
    assert_eq!(chart_box(800, 600), Some(ChartBox { width: 700, height: 540 }));
    assert_eq!(chart_box(100, 600), None);
    assert_eq!(chart_box(101, 61), Some(ChartBox { width: 1, height: 1 }));
    assert_eq!(chart_box(800, 60), None);
    assert_eq!(chart_box(i32::MIN, i32::MIN), None);
    assert!(window_frame(&AppState::new(), 100, 600).is_none());
}

#[test]
fn curve_is_unbroken() {
    let state = state_of(&[3.0, 4.0, -1.0, -2.0, 5.0]);
    let frame = window_frame(&state, 800, 600).unwrap();
    let (red, green) = (Flow::Consumption, Flow::Injection);
    assert_eq!(
        frame.strokes,
        vec![
            Stroke { flow: red, from: Anchor::Point(0), to: Anchor::Point(1) },
            Stroke { flow: red, from: Anchor::Point(1), to: Anchor::Crossing(1) },
            Stroke { flow: green, from: Anchor::Crossing(1), to: Anchor::Point(2) },
            Stroke { flow: green, from: Anchor::Point(2), to: Anchor::Point(3) },
            Stroke { flow: green, from: Anchor::Point(3), to: Anchor::Crossing(3) },
            Stroke { flow: red, from: Anchor::Crossing(3), to: Anchor::Point(4) },
        ]
    );
    for pair in frame.strokes.windows(2) {
        assert_eq!(pair[0].to, pair[1].from);
    }
    assert_eq!(frame.points[4], Point { x: 700, y: w(5.0) });
    assert_eq!(frame.points[0], Point { x: 696, y: w(3.0) });
    assert_eq!(frame.axis, PowerAxis::Peak(w(5.0)));
}

#[test]
fn no_curve_through_fewer_than_two_points() {
    assert!(plan_strokes(&vec![]).is_empty());
    assert!(plan_strokes(&vec![Point { x: 0, y: w(1.0) }]).is_empty());
}

#[test]
fn labels_of_the_chart() {
    let chart = chart_box(800, 601).unwrap();
    let (start, now) = chart.time_labels();
    assert_eq!((start.half_x, start.half_y), (100, 2 * (601 - 30 + 15)));
    assert_eq!(start.text, format!("{:.0}s", -700.0));
    assert_eq!((now.half_x, now.half_y), (2 * (800 - 50 - 10), 2 * (601 - 30 + 15)));
    assert_eq!(now.text, "0s");
    assert_eq!(chart.time_title_y(), 596);
    let (top, zero, bottom) = chart.power_labels("110", "-110");
    assert_eq!((top.half_x, top.half_y), (20, 60));
    assert_eq!(top.text, "110W");
    assert_eq!(zero.half_x, 20);
    assert_eq!(zero.half_y as f64 / 2.0, 30.0 + 541.0 / 2.0 + 5.0);
    assert_eq!(zero.text, "0W");
    assert_eq!((bottom.half_x, bottom.half_y), (20, 2 * (601 - 30 - 10)));
    assert_eq!(bottom.text, "-110W");
    let title = chart.power_title();
    assert_eq!((title.half_x, title.half_y), (100, 40));
    assert_eq!(title.text, "Power (W)");
}
