use forgetful_db::binary64::Binary64;

fn number(v: f64) -> Binary64 {
    Binary64::from_bits(v.to_bits())
}

fn fixed3(v: f64) -> String {
    let mut out = String::new();
    number(v).push_fixed3(&mut out);
    out
}

fn samples() -> Vec<f64> {
    let mut values = vec![
        0.0,
        -0.0,
        1.0,
        -1.0,
        3.5,
        -3.5,
        0.1,
        0.2,
        0.1 + 0.2,
        0.5,
        1.5,
        2.5,
        0.0005,
        0.0015,
        0.0025,
        0.0625,
        0.1875,
        0.3125,
        0.9994,
        0.9995,
        0.9996,
        999.9995,
        -0.0001,
        -0.0004,
        -0.0006,
        1e-7,
        1e-320,
        5e-324,
        f64::MIN_POSITIVE,
        f64::EPSILON,
        123456789.987654321,
        4503599627370495.5,
        4503599627370496.0,
        9007199254740992.0,
        9223372036854775807.0,
        9223372036854775808.0,
        18446744073709551616.0,
        1e21,
        1e22,
        1e23,
        1e100,
        1e300,
        f64::MAX,
        f64::MIN,
        f64::INFINITY,
        f64::NEG_INFINITY,
        f64::NAN,
        -f64::NAN,
        std::f64::consts::PI,
        -std::f64::consts::E,
    ];
    let mut bits: u64 = 0x9E37_79B9_7F4A_7C15;
    for _ in 0..120 {
        bits = bits.wrapping_mul(6364136223846793005).wrapping_add(1442695040888963407);
        values.push(f64::from_bits(bits));
    }
    for i in 0..2000u64 {
        bits = bits.wrapping_mul(6364136223846793005).wrapping_add(1442695040888963407);
        let exponent = 1023 - 40 + (i % 100);
        values.push(f64::from_bits((bits & 0x800F_FFFF_FFFF_FFFF) | (exponent << 52)));
    }
    for thousandths in 0..400u32 {
        values.push(f64::from(thousandths) / 1000.0);
        values.push((f64::from(thousandths) + 0.5) / 1000.0);
        values.push(f64::from(thousandths) / 16.0);
    }
    values
}

#[test]
fn bits_go_in_and_out() {
    assert_eq!(Binary64::from_bits(0x400C_0000_0000_0000).to_bits(), 0x400C_0000_0000_0000);
    assert_eq!(number(3.5), Binary64 { bits: 0x400C_0000_0000_0000 });
}

#[test]
fn three_decimals_of_plain_numbers() {
    assert_eq!(fixed3(3.5), "3.500");
    assert_eq!(fixed3(-3.5), "-3.500");
    assert_eq!(fixed3(0.0), "0.000");
    assert_eq!(fixed3(2.0), "2.000");
    assert_eq!(fixed3(0.1), "0.100");
    assert_eq!(fixed3(1234.5678), "1234.568");
    assert_eq!(fixed3(0.9996), "1.000");
    assert_eq!(fixed3(1e21), "1000000000000000000000.000");
}

#[test]
fn a_tie_goes_to_the_even_thousandth() {
    assert_eq!(fixed3(0.0625), "0.062");
    assert_eq!(fixed3(0.1875), "0.188");
    assert_eq!(fixed3(0.3125), "0.312");
    assert_eq!(fixed3(0.4375), "0.438");
}

#[test]
fn the_sign_bit_shows_even_before_zero() {
    assert_eq!(fixed3(-0.0), "-0.000");
    assert_eq!(fixed3(-0.0001), "-0.000");
    assert_eq!(fixed3(-1e-320), "-0.000");
}

#[test]
fn numbers_that_are_not_finite() {
    assert_eq!(fixed3(f64::INFINITY), "inf");
    assert_eq!(fixed3(f64::NEG_INFINITY), "-inf");
    assert_eq!(fixed3(f64::NAN), "NaN");
    assert_eq!(fixed3(-f64::NAN), "NaN");
}

#[test]
fn the_largest_number_is_written_out_in_full() {
    let text = fixed3(f64::MAX);
    assert_eq!(text.len(), 309 + 4);
    assert!(text.starts_with("17976931348623157081452742373170435679807056752584"));
    assert!(text.ends_with("4124858368.000"));
}

#[test]
fn three_decimals_agree_with_the_standard_library() {
    for v in samples() {
        assert_eq!(fixed3(v), format!("{:.3}", v), "bits {:#018x}", v.to_bits());
    }
}

#[test]
fn whole_numbers_are_told_from_the_others() {
    assert!(number(0.0).is_whole());
    assert!(number(-0.0).is_whole());
    assert!(number(42.0).is_whole());
    assert!(number(-7.0).is_whole());
    assert!(number(1e300).is_whole());
    assert!(number(4503599627370496.0).is_whole());
    assert!(!number(3.5).is_whole());
    assert!(!number(4503599627370495.5).is_whole());
    assert!(!number(5e-324).is_whole());
    assert!(!number(f64::INFINITY).is_whole());
    assert!(!number(f64::NEG_INFINITY).is_whole());
    assert!(!number(f64::NAN).is_whole());
}

#[test]
fn whole_numbers_agree_with_the_standard_library() {
    for v in samples() {
        assert_eq!(number(v).is_whole(), v.fract() == 0.0, "bits {:#018x}", v.to_bits());
    }
}

#[test]
fn numbers_saturate_to_64_bits() {
    assert_eq!(number(0.0).to_i64(), 0);
    assert_eq!(number(-0.0).to_i64(), 0);
    assert_eq!(number(42.0).to_i64(), 42);
    assert_eq!(number(-42.0).to_i64(), -42);
    assert_eq!(number(3.9).to_i64(), 3);
    assert_eq!(number(-3.9).to_i64(), -3);
    assert_eq!(number(9007199254740992.0).to_i64(), 9007199254740992);
    assert_eq!(number(9223372036854774784.0).to_i64(), 9223372036854774784);
    assert_eq!(number(9223372036854775808.0).to_i64(), i64::MAX);
    assert_eq!(number(-9223372036854775808.0).to_i64(), i64::MIN);
    assert_eq!(number(1e300).to_i64(), i64::MAX);
    assert_eq!(number(-1e300).to_i64(), i64::MIN);
    assert_eq!(number(f64::INFINITY).to_i64(), i64::MAX);
    assert_eq!(number(f64::NEG_INFINITY).to_i64(), i64::MIN);
    assert_eq!(number(f64::NAN).to_i64(), 0);
}

#[test]
fn saturation_agrees_with_the_standard_library() {
    for v in samples() {
        assert_eq!(number(v).to_i64(), v as i64, "bits {:#018x}", v.to_bits());
    }
}

#[test]
fn kinds_of_numbers() {
    assert!(number(f64::NAN).is_nan());
    assert!(!number(f64::INFINITY).is_nan());
    assert!(!number(1.0).is_nan());
    assert!(number(f64::INFINITY).is_infinite());
    assert!(number(f64::NEG_INFINITY).is_infinite());
    assert!(!number(f64::MAX).is_infinite());
    assert!(!number(f64::NAN).is_infinite());
    assert!(number(-1.0).is_sign_negative());
    assert!(number(-0.0).is_sign_negative());
    assert!(!number(0.0).is_sign_negative());
}
