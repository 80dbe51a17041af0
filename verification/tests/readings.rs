use p1graph::chart::{flow_of, power_axis, Flow, PowerAxis};
use p1graph::watts::{highest, lowest, peak, Watts};

fn w(v: f64) -> Watts {
    Watts { bits: v.to_bits() }
}

fn v(w: Watts) -> f64 {
    f64::from_bits(w.bits)
}

fn specimens() -> Vec<f64> {
    vec![
        0.0,
        -0.0,
        1.0,
        -1.0,
        0.5,
        -0.5,
        10.0,
        -2300.25,
        2300.25,
        f64::MIN_POSITIVE,
        -f64::MIN_POSITIVE,
        f64::from_bits(1),
        -f64::from_bits(1),
        f64::from_bits(0x000f_ffff_ffff_ffff),
        f64::MAX,
        f64::MIN,
        f64::INFINITY,
        f64::NEG_INFINITY,
        f64::NAN,
        -f64::NAN,
    ]
}

#[test]
fn order_agrees_with_doubles() {
    for a in specimens() {
        assert_eq!(w(a).not_a_number(), a.is_nan());
        assert_eq!(w(a).at_least_zero(), a >= 0.0, "{a}");
        assert_eq!(w(a).above_zero(), a > 0.0, "{a}");
        assert_eq!(w(a).is_zero(), a == 0.0, "{a}");
        assert_eq!(w(a).abs().bits, a.abs().to_bits(), "{a}");
        for b in specimens() {
            assert_eq!(w(a).less_than(w(b)), a < b, "{a} {b}");
        }
    }
}

#[test]
fn extremes_agree_with_folds() {
    let all = specimens();
    for start in 0..all.len() {
        for end in start..=all.len() {
            let part = &all[start..end];
            let readings: Vec<Watts> = part.iter().map(|x| w(*x)).collect();
            let min = part.iter().fold(f64::INFINITY, |a, &b| a.min(b));
            let max = part.iter().fold(f64::NEG_INFINITY, |a, &b| a.max(b));
            let top = part.iter().map(|y| y.abs()).fold(0.0, f64::max);
            assert_eq!(v(lowest(&readings)), min);
            assert_eq!(v(highest(&readings)), max);
            assert_eq!(peak(&readings).bits, top.to_bits());
        }
    }
}

#[test]
fn extremes_of_nothing() {
    assert_eq!(v(lowest(&vec![])), f64::INFINITY);
    assert_eq!(v(highest(&vec![])), f64::NEG_INFINITY);
    assert_eq!(peak(&vec![]).bits, 0);
    assert_eq!(v(lowest(&vec![w(f64::NAN)])), f64::INFINITY);
}

#[test]
fn readings_lie_between_the_extremes() {
    let readings = vec![w(-350.0), w(12.5), w(900.0), w(f64::NAN), w(-0.0)];
    assert_eq!(v(lowest(&readings)), -350.0);
    assert_eq!(v(highest(&readings)), 900.0);
    assert_eq!(v(peak(&readings)), 900.0);
}

#[test]
fn zero_is_drawn_as_consumption() {
    assert_eq!(flow_of(w(0.0)), Flow::Consumption);
    assert_eq!(flow_of(w(-0.0)), Flow::Consumption);
    assert_eq!(flow_of(w(0.1)), Flow::Consumption);
    assert_eq!(flow_of(w(-0.1)), Flow::Injection);
    assert_eq!(flow_of(w(f64::NAN)), Flow::Injection);
}

#[test]
fn power_axis_is_flat_without_power() {
    assert_eq!(power_axis(&vec![]), PowerAxis::Flat);
    assert_eq!(power_axis(&vec![w(0.0), w(-0.0)]), PowerAxis::Flat);
    assert_eq!(power_axis(&vec![w(f64::NAN)]), PowerAxis::Flat);
}

#[test]
fn power_axis_follows_the_peak() {
    assert_eq!(power_axis(&vec![w(5.0), w(-7.5), w(3.0)]), PowerAxis::Peak(w(7.5)));
    assert_eq!(power_axis(&vec![w(-f64::from_bits(1))]), PowerAxis::Peak(w(f64::from_bits(1))));
    assert_eq!(power_axis(&vec![w(f64::NEG_INFINITY)]), PowerAxis::Peak(w(f64::INFINITY)));
}
