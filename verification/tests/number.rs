use jevi::number::{at_most, below, finite, Real};

fn double(x: f64) -> Real {
    Real {
        bits: x.to_bits(),
        text: serde_json::Value::from(x).to_string(),
        plain: format!("{x}"),
    }
}

const SOME: [f64; 24] = [
    0.0,
    -0.0,
    5e-324,
    -5e-324,
    2.2250738585072014e-308,
    2.225073858507201e-308,
    0.1,
    0.09999999999999999,
    0.5,
    0.8999999999999999,
    0.9,
    1.0,
    -1.0,
    1.5,
    2.57,
    -2.57,
    1e15,
    9007199254740991.0,
    9007199254740993.0,
    1e300,
    f64::MAX,
    f64::INFINITY,
    f64::NEG_INFINITY,
    f64::NAN,
];

#[test]
fn doubles_are_compared_as_the_hardware_does() {
    for a in SOME {
        for b in SOME {
            assert_eq!(at_most(a.to_bits(), b.to_bits()), a <= b, "{a} {b}");
            assert_eq!(below(a.to_bits(), b.to_bits()), a < b, "{a} {b}");
        }
        assert_eq!(finite(a.to_bits()), a.is_finite());
    }
}

#[test]
fn the_shipped_cuts_are_what_they_say() {
    assert_eq!(Real::nine_tenths(), double(0.9));
    assert_eq!(Real::one_tenth(), double(0.1));
}

#[test]
fn a_score_stands_for_the_nearest_level() {
    let mut scores: Vec<f64> = SOME.iter().copied().filter(|x| x.is_finite()).collect();
    for i in 0..2000 {
        scores.push(i as f64 / 64.0);
        scores.push(i as f64 / 10.0);
        scores.push(-(i as f64) / 7.0);
    }
    scores.push(0.49999999999999994);
    scores.push(4503599627370495.5);
    scores.push(4503599627370496.0);
    for x in scores {
        let expected = if x < 0.5 { "0".to_string() } else { x.round().to_string() };
        assert_eq!(double(x).level(), expected, "{x}");
    }
}

#[test]
fn two_digits_after_the_point_are_those_of_the_standard_library() {
    let mut some: Vec<f64> = SOME.to_vec();
    for i in 0..4000 {
        some.push(i as f64 / 1000.0);
        some.push(i as f64 / 8.0);
        some.push(-(i as f64) / 64.0);
        some.push(i as f64 * 0.005);
    }
    some.extend([0.125, 0.375, 0.625, 0.875, 0.005, 0.015, 0.995, 1e22, 1e23, -1e300, 4503599627370497.5, -0.001]);
    let mut bits: u64 = 0x2545_f491_4f6c_dd1d;
    for _ in 0..20_000 {
        bits ^= bits << 13;
        bits ^= bits >> 7;
        bits ^= bits << 17;
        some.push(f64::from_bits(bits));
        some.push(f64::from_bits(bits % 0x0080_0000_0000_0000 + 0x3fb0_0000_0000_0000));
    }
    for x in some {
        assert_eq!(double(x).fixed(), format!("{x:.2}"), "{x:?}");
    }
}
