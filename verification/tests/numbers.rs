use dewpoint::binary64::{is_greater, power_of_two, round_to_i32, FRACTION_SPAN, INFINITY, SIGN_BIT};
use dewpoint::measurement::{calc_mould_index, BAND_END, RH_MAX, RH_MIN, T_MAX, T_MIN, TRH};
use dewpoint::mould::{lookup_mould_index, TABLE};

fn pair(t: f64, rh: f64) -> TRH {
    TRH::new(t.to_bits(), rh.to_bits()).unwrap()
}

#[test]
fn limits_are_the_patterns_of_their_values() {
    assert_eq!(T_MAX, 80.0f64.to_bits());
    assert_eq!(T_MIN, (-40.0f64).to_bits());
    assert_eq!(RH_MAX, 100.0f64.to_bits());
    assert_eq!(RH_MIN, 0.0f64.to_bits());
    assert_eq!(SIGN_BIT, (-0.0f64).to_bits());
    assert_eq!(INFINITY, f64::INFINITY.to_bits());
    assert_eq!(FRACTION_SPAN, 1u64 << 52);
}

#[test]
fn patterns_are_ordered_as_their_values() {
    let values: Vec<f64> = vec![
        f64::NEG_INFINITY, -1234.0, -40.0001, -40.0, -1.0, -0.5, -1e-310, -0.0, 0.0, 1e-310, 0.5,
        1.0, 15.7, 80.0, 80.0001, 100.0, 100.1, 1234.0, f64::MAX, f64::INFINITY, f64::NAN,
    ];
    for a in values.iter().copied() {
        for b in values.iter().copied() {
            assert_eq!(is_greater(a.to_bits(), b.to_bits()), a > b, "{} > {}", a, b);
        }
    }
}

#[test]
fn rounding_sends_halves_away_from_zero() {
    let values: Vec<f64> = vec![
        0.0, -0.0, 1e-310, 0.25, 0.49999999999999994, 0.5, 0.75, 1.0, 1.4999, 1.5, 2.5, 15.7, 16.5,
        49.5, 50.49, 50.5, 79.5, 80.0, 87.1, 99.5, 100.0, 127.99, 1000.5, 1048575.5, -0.25, -0.5,
        -1.5, -3.2, -39.5, -40.0, -1000.5,
    ];
    for v in values {
        assert_eq!(round_to_i32(v.to_bits()), v.round() as i32, "{}", v);
    }
    assert_eq!(round_to_i32(2.5f64.to_bits()), 3);
    assert_eq!(round_to_i32((-2.5f64).to_bits()), -3);
    assert_eq!(round_to_i32(0.49f64.to_bits()), 0);
    assert_eq!(round_to_i32(f64::NAN.to_bits()), 0);
}

#[test]
fn powers_of_two() {
    assert_eq!(power_of_two(0), 1);
    assert_eq!(power_of_two(1), 2);
    assert_eq!(power_of_two(52), FRACTION_SPAN);
    assert_eq!(power_of_two(63), SIGN_BIT);
}

#[test]
fn table_has_fifty_one_rows_of_thresholds() {
    assert_eq!(TABLE.len(), 51);
    assert_eq!(TABLE[0], [0, 0, 0, 0]);
    assert_eq!(TABLE[1], [0, 97, 98, 100]);
    assert_eq!(TABLE[4], [0, 91, 93, 98]);
    assert_eq!(TABLE[16], [0, 79, 86, 91]);
    assert_eq!(TABLE[33], [0, 79, 82, 88]);
    assert_eq!(TABLE[50], [0, 79, 80, 86]);
}

#[test]
fn risk_class_counts_thresholds_exceeded() {
    assert_eq!(lookup_mould_index(16, 79), 0);
    assert_eq!(lookup_mould_index(16, 80), 1);
    assert_eq!(lookup_mould_index(16, 86), 1);
    assert_eq!(lookup_mould_index(16, 87), 2);
    assert_eq!(lookup_mould_index(16, 91), 2);
    assert_eq!(lookup_mould_index(16, 92), 3);
    assert_eq!(lookup_mould_index(1, 100), 2);
    assert_eq!(lookup_mould_index(1, 101), 3);
    assert_eq!(lookup_mould_index(50, 87), 3);
    assert_eq!(lookup_mould_index(50, 0), 0);
    assert_eq!(lookup_mould_index(20, -5), 0);
}

#[test]
fn risk_class_is_zero_outside_the_band() {
    for rh in -10..=110 {
        assert_eq!(lookup_mould_index(0, rh), 0);
        assert_eq!(lookup_mould_index(-1, rh), 0);
        assert_eq!(lookup_mould_index(-40, rh), 0);
        assert_eq!(lookup_mould_index(51, rh), 0);
        assert_eq!(lookup_mould_index(80, rh), 0);
        assert_eq!(lookup_mould_index(i32::MIN, rh), 0);
        assert_eq!(lookup_mould_index(i32::MAX, rh), 0);
    }
}

#[test]
fn risk_class_never_falls_as_humidity_rises() {
    for t in 1..=50 {
        let mut last = 0;
        for rh in 0..=100 {
            let index = lookup_mould_index(t, rh);
            assert!(index >= last);
            assert!(index <= 3);
            last = index;
        }
        assert_eq!(last, 2 + (TABLE[t as usize][3] < 100) as i32);
    }
}

#[test]
fn mould_index_rounds_both_measurements() {
    assert_eq!(calc_mould_index(&pair(15.7, 87.1)), 2);
    assert_eq!(calc_mould_index(&pair(15.5, 86.49)), 1);
    assert_eq!(calc_mould_index(&pair(15.5, 86.5)), 2);
    assert_eq!(calc_mould_index(&pair(0.0, 0.0)), 0);
    assert_eq!(calc_mould_index(&pair(0.49, 100.0)), 0);
    assert_eq!(calc_mould_index(&pair(0.5, 100.0)), 2);
    assert_eq!(calc_mould_index(&pair(50.49, 100.0)), 3);
    assert_eq!(calc_mould_index(&pair(50.5, 100.0)), 0);
    assert_eq!(calc_mould_index(&pair(-3.2, 97.3)), 0);
    assert_eq!(calc_mould_index(&pair(80.0, 100.0)), 0);
    assert_eq!(calc_mould_index(&pair(f64::NAN, 100.0)), 0);
    assert_eq!(calc_mould_index(&pair(20.0, f64::NAN)), 0);
}

#[test]
fn mould_index_is_zero_outside_the_band() {
    assert_eq!(BAND_END, 50.5f64.to_bits());
    let outside: Vec<f64> = vec![-40.0, -3.2, -0.5, -0.0, 0.0, 50.5, 50.75, 51.0, 60.0, 80.0, f64::NAN];
    for t in outside {
        let mut step = 0;
        while step <= 400 {
            let rh = step as f64 * 0.25;
            assert_eq!(calc_mould_index(&pair(t, rh)), 0, "{} {}", t, rh);
            step += 1;
        }
    }
    assert_eq!(calc_mould_index(&pair(50.3, 100.0)), 3);
}

#[test]
fn mould_index_never_falls_as_humidity_rises() {
    let inside: Vec<f64> = vec![0.5, 1.0, 4.4, 15.7, 22.5, 33.0, 49.9, 50.49];
    for t in inside {
        let mut last = 0;
        let mut step = 0;
        while step <= 800 {
            let rh = step as f64 * 0.125;
            let index = calc_mould_index(&pair(t, rh));
            assert!(index >= last, "{} {}", t, rh);
            last = index;
            step += 1;
        }
        assert!(last >= 2);
    }
}

#[test]
fn rounding_keeps_the_order() {
    let mut last = round_to_i32((-130.0f64).to_bits());
    assert_eq!(last, -130);
    let mut step = -1300;
    while step <= 1300 {
        let v = step as f64 * 0.1;
        let r = round_to_i32(v.to_bits());
        assert!(r >= last, "{}", v);
        assert_eq!(r, v.round() as i32);
        last = r;
        step += 1;
    }
}
