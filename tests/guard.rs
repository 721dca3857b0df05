use coordtransform::binary64::{is_less, INFINITY_BITS, SIGN_BIT};
use coordtransform::bounds::{LAT_MAX, LAT_MIN, LON_MAX, LON_MIN};
use coordtransform::{is_out_of_china, keep_outside_china};

fn out(lon: f64, lat: f64) -> bool {
    is_out_of_china(lon.to_bits(), lat.to_bits())
}

#[test]
fn test_out_of_china() {
    let moved = (1.5f64.to_bits(), 2.5f64.to_bits());
    let (lon, lat) = keep_outside_china(0.0f64.to_bits(), 0.0f64.to_bits(), moved);
    assert_eq!(f64::from_bits(lon), 0.0);
    assert_eq!(f64::from_bits(lat), 0.0);
}

#[test]
fn edges_are_the_nearest_doubles() {
    assert_eq!(LON_MIN, 72.004f64.to_bits());
    assert_eq!(LON_MAX, 135.05f64.to_bits());
    assert_eq!(LAT_MIN, 3.86f64.to_bits());
    assert_eq!(LAT_MAX, 53.55f64.to_bits());
    assert_eq!(SIGN_BIT, (-0.0f64).to_bits());
    assert_eq!(INFINITY_BITS, f64::INFINITY.to_bits());
}

#[test]
fn beijing_is_inside() {
    assert!(!out(116.404, 39.915));
}

#[test]
fn far_points_are_outside() {
    assert!(out(0.0, 0.0));
    assert!(out(-74.006, 40.7128));
    assert!(out(0.1276, 51.5074));
    assert!(out(116.404, -39.915));
    assert!(out(-116.404, 39.915));
    assert!(out(116.404, 60.0));
    assert!(out(140.0, 39.915));
}

#[test]
fn edges_are_outside() {
    assert!(out(72.004, 39.915));
    assert!(out(135.05, 39.915));
    assert!(out(116.404, 3.86));
    assert!(out(116.404, 53.55));
    assert!(out(72.004, 3.86));
}

#[test]
fn next_doubles_past_the_edges_are_inside() {
    assert!(!out(f64::from_bits(LON_MIN + 1), 39.915));
    assert!(!out(f64::from_bits(LON_MAX - 1), 39.915));
    assert!(!out(116.404, f64::from_bits(LAT_MIN + 1)));
    assert!(!out(116.404, f64::from_bits(LAT_MAX - 1)));
}

#[test]
fn nan_and_infinity_are_outside() {
    assert!(out(f64::NAN, 39.915));
    assert!(out(116.404, f64::NAN));
    assert!(out(f64::INFINITY, 39.915));
    assert!(out(116.404, f64::NEG_INFINITY));
}

#[test]
fn inside_point_takes_the_moved_value() {
    let moved = (116.41024449916938f64.to_bits(), 39.91640428150164f64.to_bits());
    let r = keep_outside_china(116.404f64.to_bits(), 39.915f64.to_bits(), moved);
    assert_eq!(r, moved);
}

#[test]
fn outside_point_is_kept_bit_for_bit() {
    let moved = (1.0f64.to_bits(), 2.0f64.to_bits());
    let neg_zero = (-0.0f64).to_bits();
    let r = keep_outside_china(neg_zero, 0.0f64.to_bits(), moved);
    assert_eq!(r, (neg_zero, 0.0f64.to_bits()));
    let nan = f64::NAN.to_bits();
    let r = keep_outside_china(116.404f64.to_bits(), nan, moved);
    assert_eq!(r, (116.404f64.to_bits(), nan));
}

#[test]
fn points_between_inside_points_are_inside() {
    assert!(!out(80.0, 10.0));
    assert!(!out(130.0, 50.0));
    assert!(!out(105.0, 35.0));
    assert!(!out(80.0, 50.0));
}

#[test]
fn is_less_agrees_with_float_order() {
    let values = [
        f64::NEG_INFINITY,
        -f64::MAX,
        -135.05,
        -1.0,
        -f64::MIN_POSITIVE,
        -f64::from_bits(1),
        -0.0,
        0.0,
        f64::from_bits(1),
        f64::from_bits(0x000f_ffff_ffff_ffff),
        f64::MIN_POSITIVE,
        1.0,
        3.86,
        72.004,
        f64::from_bits(72.004f64.to_bits() + 1),
        135.05,
        f64::MAX,
        f64::INFINITY,
        f64::NAN,
        -f64::NAN,
    ];
    for a in values.iter() {
        for b in values.iter() {
            assert_eq!(is_less(a.to_bits(), b.to_bits()), a < b, "{} < {}", a, b);
        }
    }
}

#[test]
fn zeros_are_not_less_than_each_other() {
    let neg_zero = (-0.0f64).to_bits();
    let zero = 0.0f64.to_bits();
    assert!(!is_less(neg_zero, zero));
    assert!(!is_less(zero, neg_zero));
    assert!(is_less(neg_zero, f64::from_bits(1).to_bits()));
    assert!(is_less((-f64::from_bits(1)).to_bits(), zero));
}
