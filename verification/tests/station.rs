use trilateration::distance::Calibration;
use trilateration::error::EstimateError;
use trilateration::fixed::{Fixed, LIMIT};
use trilateration::frame::Point;
use trilateration::defaults::{default_deployment, default_policy};
use trilateration::station::{Deployment, Slot, Station};

fn raw(v: i64) -> Fixed {
    Fixed::from_raw(v).unwrap()
}

fn fx(v: f64) -> Fixed {
    raw((v * 1e6).round() as i64)
}

fn pt(x: f64, y: f64) -> Point {
    Point { x: fx(x), y: fx(y) }
}

fn station(label: &str, x: f64, y: f64, slope: f64, intercept: f64) -> Station {
    Station {
        label: String::from(label),
        position: pt(x, y),
        calibration: Calibration { slope: fx(slope), intercept: fx(intercept) },
    }
}

#[test]
fn default_deployment_holds_three_labelled_stations() {
    let d = default_deployment();
    assert_eq!(d.first.label, "3AC3");
    assert_eq!(d.second.label, "3ACB");
    assert_eq!(d.third.label, "BF94");
    assert_eq!(d.first.position, pt(2.0, 1.0));
    assert_eq!(d.second.position, pt(13.0, 6.0));
    assert_eq!(d.third.position, pt(12.0, 1.0));
    assert_eq!(d.first.calibration, Calibration { slope: fx(-0.35), intercept: fx(-29.0) });
    assert_eq!(d.second.calibration, Calibration { slope: fx(-0.83), intercept: fx(-36.5) });
    assert_eq!(d.third.calibration, Calibration { slope: fx(-1.34), intercept: fx(-70.67) });
}

#[test]
fn slot_of_finds_each_label() {
    let d = default_deployment();
    assert_eq!(d.slot_of("3AC3"), Some(Slot::First));
    assert_eq!(d.slot_of("3ACB"), Some(Slot::Second));
    assert_eq!(d.slot_of("BF94"), Some(Slot::Third));
}

#[test]
fn slot_of_knows_no_other_label() {
    let d = default_deployment();
    assert_eq!(d.slot_of(""), None);
    assert_eq!(d.slot_of("3ac3"), None);
    assert_eq!(d.slot_of("3AC"), None);
    assert_eq!(d.slot_of("3AC3 "), None);
    assert_eq!(d.slot_of("BF95"), None);
}

#[test]
fn slot_of_takes_the_first_of_equal_labels() {
    let d = Deployment {
        first: station("A", 0.0, 0.0, -1.0, 0.0),
        second: station("B", 1.0, 0.0, -2.0, 0.0),
        third: station("B", 0.0, 1.0, -3.0, 0.0),
    };
    assert_eq!(d.slot_of("B"), Some(Slot::Second));
    assert_eq!(d.reading_distance("B", fx(-10.0)), Some((Slot::Second, Ok(fx(20.0)))));
}

#[test]
fn station_returns_the_station_of_a_slot() {
    let d = default_deployment();
    assert_eq!(d.station(Slot::First).label, "3AC3");
    assert_eq!(d.station(Slot::Second).label, "3ACB");
    assert_eq!(d.station(Slot::Third).label, "BF94");
    assert_eq!(d.station(Slot::Third).position, pt(12.0, 1.0));
}

#[test]
fn reading_distance_uses_the_calibration_of_the_labelled_station() {
    let d = default_deployment();
    assert_eq!(d.reading_distance("3AC3", fx(-102.0)), Some((Slot::First, Ok(raw(6_700_000)))));
    assert_eq!(d.reading_distance("3ACB", fx(-94.0)), Some((Slot::Second, Ok(raw(41_520_000)))));
    assert_eq!(d.reading_distance("BF94", fx(-57.0)), Some((Slot::Third, Ok(raw(5_710_000)))));
    // one reading, three stations, three distances
    assert_eq!(d.reading_distance("3AC3", fx(-100.0)), Some((Slot::First, Ok(fx(6.0)))));
    assert_eq!(d.reading_distance("3ACB", fx(-100.0)), Some((Slot::Second, Ok(fx(46.5)))));
    assert_eq!(d.reading_distance("BF94", fx(-100.0)), Some((Slot::Third, Ok(fx(63.33)))));
}

#[test]
fn reading_distance_ignores_an_unknown_label() {
    let d = default_deployment();
    assert_eq!(d.reading_distance("FFFF", fx(-102.0)), None);
    assert_eq!(d.reading_distance("", fx(-102.0)), None);
}

#[test]
fn reading_distance_reports_a_distance_beyond_the_range() {
    let d = default_deployment();
    assert_eq!(
        d.reading_distance("BF94", raw(-LIMIT)),
        Some((Slot::Third, Err(EstimateError::OutOfRange)))
    );
}

#[test]
fn configuration_takes_the_positions_and_the_policy() {
    let d = default_deployment();
    let c = d.configuration(default_policy());
    assert_eq!(c.first, pt(2.0, 1.0));
    assert_eq!(c.second, pt(13.0, 6.0));
    assert_eq!(c.third, pt(12.0, 1.0));
    assert_eq!(c.policy, default_policy());
}
