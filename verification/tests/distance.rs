use raytracer::entities::{Distance, IntersectionResult, BIAS_BITS, HORIZON_BITS};

fn key(length: f64) -> Distance {
    Distance::from_bits(length.to_bits())
}

#[test]
fn bias_key_is_one_ten_thousandth() {
    assert_eq!(BIAS_BITS, 0.0001f64.to_bits());
    assert_eq!(Distance::bias().bits, 0.0001f64.to_bits());
    assert_eq!(Distance::bias(), key(0.0001));
}

#[test]
fn horizon_key_is_infinity() {
    assert_eq!(HORIZON_BITS, f64::INFINITY.to_bits());
    assert_eq!(Distance::horizon(), key(f64::INFINITY));
}

#[test]
fn from_bits_keeps_the_bits() {
    assert_eq!(Distance::from_bits(0).bits, 0);
    assert_eq!(Distance::from_bits(0x4000_0000_0000_0000).bits, 0x4000_0000_0000_0000);
    assert_eq!(Distance::from_bits(u64::MAX).bits, u64::MAX);
}

#[test]
fn key_order_is_length_order() {
    let lengths = [
        0.0,
        f64::MIN_POSITIVE / 2.0,
        f64::MIN_POSITIVE,
        0.00009999,
        0.0001,
        0.00010001,
        0.5,
        1.0,
        1.0000000000000002,
        2.0,
        3.75,
        1.0e10,
        f64::MAX,
        f64::INFINITY,
    ];
    for a in lengths {
        for b in lengths {
            assert_eq!(key(a).closer_than(key(b)), a < b, "{} < {}", a, b);
        }
    }
}

#[test]
fn what_is_no_length_is_never_closer() {
    let odd = [f64::NAN, -f64::NAN, -1.0, -0.5, f64::NEG_INFINITY];
    let lengths = [0.0, 0.0001, 1.0, f64::INFINITY];
    for a in odd {
        for b in lengths {
            assert!(!key(a).closer_than(key(b)));
            assert!(!key(b).closer_than(key(a)));
        }
        for b in odd {
            assert!(!key(a).closer_than(key(b)));
        }
    }
}

#[test]
fn in_range_is_beyond_bias_and_before_horizon() {
    let bias = Distance::bias();
    assert!(!key(0.0).in_range(bias));
    assert!(!key(0.00009).in_range(bias));
    assert!(!key(0.0001).in_range(bias));
    assert!(key(0.00010000000000000002).in_range(bias));
    assert!(key(1.0).in_range(bias));
    assert!(key(f64::MAX).in_range(bias));
    assert!(!key(f64::INFINITY).in_range(bias));
    assert!(!key(f64::NAN).in_range(bias));
    assert!(!key(-1.0).in_range(bias));
}

#[test]
fn in_range_agrees_with_the_comparison_of_lengths() {
    let values = [
        0.0,
        0.00005,
        0.0001,
        0.0002,
        1.0,
        50.0,
        f64::MAX,
        f64::INFINITY,
        f64::NAN,
        -0.0001,
        -3.0,
    ];
    for d in values {
        assert_eq!(key(d).in_range(Distance::bias()), d > 0.0001 && d < f64::INFINITY, "{}", d);
    }
}

#[test]
fn in_range_with_another_bias() {
    let bias = key(0.00001);
    assert!(key(0.00005).in_range(bias));
    assert!(!key(0.00001).in_range(bias));
    assert!(!key(1.0).in_range(key(f64::NAN)));
    assert!(!key(1.0).in_range(key(f64::INFINITY)));
}

#[test]
fn intersection_result_holds_what_it_was_given() {
    let hit = IntersectionResult::new((1.0, 2.0, 3.0), key(2.5), (0.0, 0.0, -1.0));
    assert_eq!(hit.intersection_point, (1.0, 2.0, 3.0));
    assert_eq!(hit.distance, key(2.5));
    assert_eq!(f64::from_bits(hit.distance.bits), 2.5);
    assert_eq!(hit.normal, (0.0, 0.0, -1.0));
}
