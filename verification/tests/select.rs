use trilateration::error::EstimateError;
use trilateration::fixed::{Fixed, LIMIT};
use trilateration::frame::{reference_frame, Frame, Point};
use trilateration::select::{disambiguate, Branch, Selection};

fn raw(v: i64) -> Fixed {
    Fixed::from_raw(v).unwrap()
}

fn fx(v: f64) -> Fixed {
    raw((v * 1e6).round() as i64)
}

fn pt(x: f64, y: f64) -> Point {
    Point { x: fx(x), y: fx(y) }
}

fn rp(x: i64, y: i64) -> Point {
    Point { x: raw(x), y: raw(y) }
}

/// Stations at (2, 1), (13, 6) and (12, 1).
fn frame() -> Frame {
    reference_frame(pt(2.0, 1.0), pt(13.0, 6.0), pt(12.0, 1.0)).unwrap()
}

#[test]
fn a_candidate_at_the_third_distance_is_accepted() {
    // (5, 2) is at distance sqrt(29) = 5.385165 from the third station at (10, 0)
    assert_eq!(
        disambiguate(&frame(), pt(5.0, 2.0), raw(5_385_165), fx(0.01)),
        Ok(Selection { branch: Branch::Accepted, position: pt(7.0, 3.0) })
    );
}

#[test]
fn a_candidate_off_the_third_distance_is_mirrored() {
    // d = (-5 * 4.793520 + 11 * 2.454226) / 146 rounds down to 0.020745
    assert_eq!(
        disambiguate(&frame(), rp(4_793_520, 2_454_226), raw(5_385_165), fx(0.01)),
        Ok(Selection { branch: Branch::OnBaseline, position: rp(7_000_970, 2_997_836) })
    );
}

#[test]
fn the_mirror_image_is_as_far_from_the_first_two_stations() {
    let candidate = rp(4_793_520, 2_454_226);
    let image = disambiguate(&frame(), candidate, raw(5_385_165), fx(0.01)).unwrap().position;
    let square = |x: i64, y: i64| -> f64 { (x as f64 / 1e6).powi(2) + (y as f64 / 1e6).powi(2) };
    // to the first station, the origin of the frame
    let before = square(candidate.x.raw(), candidate.y.raw());
    let after = square(image.x.raw() - 2_000_000, image.y.raw() - 1_000_000);
    assert!((before - after).abs() < 1e-4);
    // to the second station, at (11, 5) in the frame
    let before = square(candidate.x.raw() - 11_000_000, candidate.y.raw() - 5_000_000);
    let after = square(image.x.raw() - 13_000_000, image.y.raw() - 6_000_000);
    assert!((before - after).abs() < 1e-4);
}

#[test]
fn the_mirror_image_is_exact_up_to_rounding() {
    // the exact image of (5, 2) in the line from the origin to (11, 5) is
    // (5 - 30/146, 2 + 66/146) = (4.794520..., 2.452054...)
    let s = disambiguate(&frame(), pt(5.0, 2.0), raw(5_754_093), fx(0.01)).unwrap();
    let x = s.position.x.raw() - 2_000_000;
    let y = s.position.y.raw() - 1_000_000;
    // within 2 * (|b| + 1) = 12 and 2 * (|a| + 1) = 24 millionths
    assert!((x as i128 * 146 - (5_000_000i128 * 146 - 30_000_000)).abs() < 12 * 146);
    assert!((y as i128 * 146 - (2_000_000i128 * 146 + 66_000_000)).abs() < 24 * 146);
    assert_eq!((x, y), (4_794_520, 2_452_056));
}

#[test]
fn the_distance_of_the_mirror_image_selects_the_other_branch() {
    // The mirror image of (5, 2) in the line from the origin to (11, 5) is
    // (4.794521, 2.452055), at 5.754093 from the third station.
    let at_candidate = disambiguate(&frame(), pt(5.0, 2.0), raw(5_385_165), fx(0.01)).unwrap();
    let at_mirror = disambiguate(&frame(), pt(5.0, 2.0), raw(5_754_093), fx(0.01)).unwrap();
    assert_eq!(at_candidate, Selection { branch: Branch::Accepted, position: pt(7.0, 3.0) });
    assert_ne!(at_mirror.branch, Branch::Accepted);
    assert_eq!(at_mirror.position, rp(6_794_520, 3_452_056));
    // and the other way round
    let image = rp(4_794_521, 2_452_055);
    let image_own = disambiguate(&frame(), image, raw(5_754_093), fx(0.01)).unwrap();
    let image_other = disambiguate(&frame(), image, raw(5_385_165), fx(0.01)).unwrap();
    assert_eq!(image_own, Selection { branch: Branch::Accepted, position: rp(6_794_521, 3_452_055) });
    assert_ne!(image_other.branch, Branch::Accepted);
    assert_eq!(image_other.position, rp(6_999_991, 3_000_021));
}

#[test]
fn the_tolerance_bounds_the_absolute_error_strictly() {
    // 5^2 + 2^2 - 5^2 = 4, and 5^2 + 2^2 - 5.744563^2 = -4.000004...
    let kept = pt(7.0, 3.0);
    let mirrored = rp(6_794_520, 3_452_056);
    assert_eq!(disambiguate(&frame(), pt(5.0, 2.0), fx(5.0), fx(4.0)).unwrap().position, mirrored);
    assert_eq!(
        disambiguate(&frame(), pt(5.0, 2.0), fx(5.0), raw(4_000_001)),
        Ok(Selection { branch: Branch::Accepted, position: kept })
    );
    // a negative error is judged by its size, not by its sign
    assert_eq!(
        disambiguate(&frame(), pt(5.0, 2.0), raw(5_744_563), fx(4.0)).unwrap().position,
        mirrored
    );
    assert_eq!(
        disambiguate(&frame(), pt(5.0, 2.0), raw(5_744_563), raw(4_000_010)),
        Ok(Selection { branch: Branch::Accepted, position: kept })
    );
}

#[test]
fn a_third_distance_far_too_long_mirrors_the_candidate() {
    // (4.793520 - 10)^2 + 2.454226^2 - 10^2 is about -66.9
    assert_eq!(
        disambiguate(&frame(), rp(4_793_520, 2_454_226), fx(10.0), fx(0.01)).unwrap().position,
        rp(7_000_970, 2_997_836)
    );
}

#[test]
fn no_candidate_is_accepted_without_tolerance() {
    for eps in [0i64, -5] {
        assert_eq!(
            disambiguate(&frame(), pt(5.0, 2.0), raw(5_385_165), raw(eps)),
            Ok(Selection { branch: Branch::Reflected, position: rp(6_794_520, 3_452_056) })
        );
    }
}

#[test]
fn the_branch_tells_whether_the_foot_is_on_the_baseline() {
    // the foot of the perpendicular from (4.793520, 2.454226) is off the
    // baseline by 0.000116 squared units, for the rounding of the offsets
    let candidate = rp(4_793_520, 2_454_226);
    let wide = disambiguate(&frame(), candidate, raw(5_385_165), raw(200)).unwrap();
    let narrow = disambiguate(&frame(), candidate, raw(5_385_165), raw(1)).unwrap();
    assert_eq!(wide.branch, Branch::OnBaseline);
    assert_eq!(narrow.branch, Branch::Reflected);
    assert_eq!(wide.position, narrow.position);
}

#[test]
fn a_mirror_image_in_a_baseline_along_an_axis_is_exact() {
    // stations at (1, 1), (9, 1), (1, 7): the baseline is the line y = 1
    let f = reference_frame(pt(1.0, 1.0), pt(9.0, 1.0), pt(1.0, 7.0)).unwrap();
    assert_eq!(
        disambiguate(&f, pt(4.0, -3.0), fx(5.0), fx(0.01)),
        Ok(Selection { branch: Branch::OnBaseline, position: pt(5.0, 4.0) })
    );
    assert_eq!(
        disambiguate(&f, pt(4.0, 3.0), fx(5.0), fx(0.01)),
        Ok(Selection { branch: Branch::Accepted, position: pt(5.0, 4.0) })
    );
}

#[test]
fn a_candidate_on_the_baseline_is_its_own_mirror_image() {
    // (2.2, 1) lies on the line from the origin to (11, 5)
    assert_eq!(
        disambiguate(&frame(), pt(2.2, 1.0), fx(3.0), fx(0.01)),
        Ok(Selection { branch: Branch::OnBaseline, position: pt(4.2, 2.0) })
    );
}

#[test]
fn a_baseline_without_direction_is_a_configuration_error() {
    let mut f = frame();
    f.a = raw(0);
    f.b = raw(0);
    assert_eq!(
        disambiguate(&f, pt(5.0, 2.0), raw(5_385_165), fx(0.01)),
        Err(EstimateError::ConfigurationError)
    );
    // whatever the tolerance
    assert_eq!(
        disambiguate(&f, pt(5.0, 2.0), raw(5_385_165), fx(1000.0)),
        Err(EstimateError::ConfigurationError)
    );
}

/// A frame whose baseline is the first axis, a millionth long.
fn tiny() -> Frame {
    Frame { origin: rp(0, 0), second: rp(1, 0), third: rp(0, 1), a: raw(1), b: raw(0) }
}

#[test]
fn a_ratio_beyond_the_range_is_reported() {
    // d = y / a = 1e15 / 0.000001
    assert_eq!(
        disambiguate(&tiny(), rp(1, LIMIT), fx(1.0), fx(0.01)),
        Err(EstimateError::OutOfRange)
    );
    assert_eq!(
        disambiguate(&tiny(), pt(5.0, 2.0), fx(1.0), fx(0.01)),
        Ok(Selection { branch: Branch::OnBaseline, position: pt(5.0, -2.0) })
    );
}

#[test]
fn an_offset_beyond_the_range_is_reported() {
    let f = Frame { origin: rp(0, 0), second: rp(1, 0), third: rp(0, 1), a: raw(1), b: raw(-LIMIT) };
    assert_eq!(
        disambiguate(&f, rp(LIMIT, LIMIT), fx(1.0), fx(0.01)),
        Err(EstimateError::OutOfRange)
    );
}

#[test]
fn an_accepted_candidate_needs_no_offset() {
    // the ratio of this candidate does not fit, but it is at the third
    // distance from the third station, a millionth above the origin
    assert_eq!(
        disambiguate(&tiny(), rp(1, LIMIT), raw(LIMIT - 1), fx(0.01)),
        Ok(Selection { branch: Branch::Accepted, position: rp(1, LIMIT) })
    );
}

#[test]
fn a_position_beyond_the_range_is_reported() {
    let mut f = frame();
    f.origin = rp(LIMIT, 0);
    assert_eq!(
        disambiguate(&f, pt(5.0, 2.0), raw(5_385_165), fx(0.01)),
        Err(EstimateError::OutOfRange)
    );
    // a mirror image beyond the range, of a candidate within it
    let g = Frame { origin: rp(0, LIMIT), second: pt(1.0, 0.0), third: pt(0.0, 1.0), a: fx(1.0), b: raw(0) };
    assert_eq!(
        disambiguate(&g, pt(5.0, -2.0), fx(1.0), fx(0.01)),
        Err(EstimateError::OutOfRange)
    );
}

#[test]
fn selector_gives_the_same_result_twice() {
    let once = disambiguate(&frame(), rp(4_793_520, 2_454_226), raw(5_385_165), fx(0.01));
    let again = disambiguate(&frame(), rp(4_793_520, 2_454_226), raw(5_385_165), fx(0.01));
    assert_eq!(once, again);
}
