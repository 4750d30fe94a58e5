use pumpkin::ieee::{Double, Single};

#[test]
fn singles_compare_like_numbers() {
    let values = [
        f32::NEG_INFINITY, f32::MIN, -2.5, -1.0, -1.0e-40, -0.0, 0.0, 1.0e-45, 1.0e-40,
        f32::MIN_POSITIVE, 0.1, 0.9, 1.0, 1.5, 2.0, 1.0e30, f32::MAX, f32::INFINITY, f32::NAN,
    ];
    for a in values {
        for b in values {
            let (x, y) = (Single { bits: a.to_bits() }, Single { bits: b.to_bits() });
            assert_eq!(x.exceeds(y), a > b, "{a} > {b}");
        }
    }
}

#[test]
fn doubles_compare_like_numbers() {
    let values = [
        f64::NEG_INFINITY, f64::MIN, -9.0, -1.0, -1.0e-310, -0.0, 0.0, 5.0e-324, 1.0e-310,
        f64::MIN_POSITIVE, 0.1, 8.999_999, 9.0, 9.000_001, 1.0e300, f64::MAX, f64::INFINITY,
        f64::NAN,
    ];
    for a in values {
        for b in values {
            let (x, y) = (Double { bits: a.to_bits() }, Double { bits: b.to_bits() });
            assert_eq!(x.exceeds(y), a > b, "{a} > {b}");
            assert_eq!(x.reaches(y), a >= b, "{a} >= {b}");
        }
    }
}

#[test]
fn the_lesser_double_is_the_minimum() {
    let values = [f64::NEG_INFINITY, -3.5, -1.0e-310, 0.0, 2.0, 1.0e300, f64::INFINITY];
    for a in values {
        for b in values {
            let least = Double { bits: a.to_bits() }.min_of(Double { bits: b.to_bits() });
            assert_eq!(f64::from_bits(least.bits), a.min(b));
        }
        let nan = Double { bits: f64::NAN.to_bits() };
        let number = Double { bits: a.to_bits() };
        assert_eq!(nan.min_of(number).bits, a.to_bits());
        assert_eq!(number.min_of(nan).bits, a.to_bits());
    }
}
