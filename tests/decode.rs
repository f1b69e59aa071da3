use arbfloat::{parse, ArbFloat, FloatKind, FormatDesc, FormatError};
use num_bigint::BigInt;

fn big(n: i64) -> BigInt {
    BigInt::from(n)
}

fn check(r: &ArbFloat, kind: FloatKind, num: i64) {
    assert_eq!(r.kind, kind);
    assert_eq!(r.num, big(num));
}

fn regular(exp: i64) -> FloatKind {
    FloatKind::Regular { exp }
}

/// `num * 2^exp` as an `f64`, for values that it holds exactly.
fn as_f64(r: &ArbFloat) -> f64 {
    let exp = match r.kind {
        FloatKind::Regular { exp } => exp,
        other => panic!("not regular: {:?}", other),
    };
    let num: i64 = r.num.to_string().parse().unwrap();
    let mut v = num as f64;
    for _ in 0..exp.unsigned_abs() {
        if exp < 0 {
            v /= 2.0;
        } else {
            v *= 2.0;
        }
    }
    v
}

#[test]
fn binary32_one() {
    check(&parse(FormatDesc::binary32(), 0x3F80_0000), regular(0), 1);
}

#[test]
fn binary32_negative_zero() {
    let r = parse(FormatDesc::binary32(), 0x8000_0000);
    check(&r, FloatKind::Zero, -1);
}

#[test]
fn binary32_positive_zero() {
    check(&parse(FormatDesc::binary32(), 0), FloatKind::Zero, 1);
}

#[test]
fn binary32_infinity() {
    check(&parse(FormatDesc::binary32(), 0x7F80_0000), FloatKind::Infinity, 1);
    check(&parse(FormatDesc::binary32(), 0xFF80_0000), FloatKind::Infinity, -1);
}

#[test]
fn binary32_nan() {
    check(&parse(FormatDesc::binary32(), 0x7FC0_0000), FloatKind::NaN, 1);
    check(&parse(FormatDesc::binary32(), 0x7F80_0001), FloatKind::NaN, 1);
}

#[test]
fn binary64_one() {
    check(&parse(FormatDesc::binary64(), 0x3FF0_0000_0000_0000), regular(0), 1);
}

#[test]
fn binary64_special_values() {
    let d = FormatDesc::binary64();
    check(&parse(d, 0x8000_0000_0000_0000), FloatKind::Zero, -1);
    check(&parse(d, 0x7FF0_0000_0000_0000), FloatKind::Infinity, 1);
    check(&parse(d, 0x7FF8_0000_0000_0000), FloatKind::NaN, 1);
}

#[test]
fn toy_format_all_patterns() {
    let d = FormatDesc::new(1, 1).unwrap();
    let expected = [
        (FloatKind::Zero, 1),
        (regular(0), 1),
        (FloatKind::Infinity, 1),
        (FloatKind::NaN, 1),
        (FloatKind::Zero, -1),
        (regular(0), -1),
        (FloatKind::Infinity, -1),
        (FloatKind::NaN, -1),
    ];
    for (raw, (kind, num)) in expected.iter().enumerate() {
        check(&parse(d, raw as u64), *kind, *num);
    }
}

#[test]
fn binary32_sampled_constants() {
    let d = FormatDesc::binary32();
    check(&parse(d, 0x4000_0000), regular(1), 1);
    check(&parse(d, 0x3F00_0000), regular(-1), 1);
    check(&parse(d, 0x3FC0_0000), regular(-1), 3);
    check(&parse(d, 0x4140_0000), regular(2), 3);
    check(&parse(d, 0xC0A0_0000), regular(0), -5);
    for x in [1.0f32, 2.0, 0.5, 1.5, -0.375, 12.0, 1e-3, 3.0e38] {
        assert_eq!(as_f64(&parse(d, x.to_bits() as u64)), x as f64);
    }
}

#[test]
fn binary64_sampled_constants() {
    let d = FormatDesc::binary64();
    check(&parse(d, 0x4000_0000_0000_0000), regular(1), 1);
    check(&parse(d, 0x3FE0_0000_0000_0000), regular(-1), 1);
    check(&parse(d, 0x3FF8_0000_0000_0000), regular(-1), 3);
    for x in [1.0f64, 2.0, 0.5, 1.5, -0.1, 6.25e-300, 1.0e300] {
        assert_eq!(as_f64(&parse(d, x.to_bits())), x);
    }
}

#[test]
fn binary32_subnormals_and_extremes() {
    let d = FormatDesc::binary32();
    check(&parse(d, 0x0000_0001), regular(-149), 1);
    check(&parse(d, 0x8000_0002), regular(-148), -1);
    check(&parse(d, 0x007F_FFFF), regular(-149), 0x7F_FFFF);
    check(&parse(d, 0x0080_0000), regular(-126), 1);
    check(&parse(d, 0x7F7F_FFFF), regular(104), 0xFF_FFFF);
}

#[test]
fn regular_significands_are_odd() {
    for (f, e) in [(1u8, 1u8), (2, 2), (3, 2), (2, 3), (0, 3)] {
        let d = FormatDesc::new(f, e).unwrap();
        for raw in 0..(1u64 << (f + e + 1)) {
            let r = parse(d, raw);
            if let FloatKind::Regular { .. } = r.kind {
                assert!(r.num.trailing_zeros() == Some(0), "raw {}", raw);
            }
        }
    }
    let d = FormatDesc::binary32();
    let mut raw: u64 = 12345;
    for _ in 0..2000 {
        raw = raw.wrapping_mul(6364136223846793005).wrapping_add(1442695040888963407);
        let r = parse(d, raw >> 32);
        if let FloatKind::Regular { .. } = r.kind {
            assert_eq!(r.num.trailing_zeros(), Some(0));
        }
    }
}

#[test]
fn widest_exponent_field() {
    let d = FormatDesc::new(0, 63).unwrap();
    check(&parse(d, 0x7FFF_FFFF_FFFF_FFFE), regular((1i64 << 62) - 1), 1);
    check(&parse(d, 0x0000_0000_0000_0001), regular(2 - (1i64 << 62)), 1);
    check(&parse(d, u64::MAX), FloatKind::Infinity, -1);
    check(&parse(d, 0x8000_0000_0000_0000), FloatKind::Zero, -1);
}

#[test]
fn widest_fraction_field() {
    let d = FormatDesc::new(62, 1).unwrap();
    check(&parse(d, (1u64 << 62) | 1), FloatKind::NaN, 1);
    check(&parse(d, (1u64 << 62) - 1), regular(-61), (1i64 << 62) - 1);
    check(&parse(d, (1u64 << 62) + (1u64 << 63)), FloatKind::Infinity, -1);
    check(&parse(d, 1u64 << 61), regular(0), 1);
}

#[test]
fn bits_above_sign_are_ignored() {
    let d = FormatDesc::binary32();
    check(&parse(d, 0xABCD_0000_3F80_0000), regular(0), 1);
}

#[test]
fn format_new_accepts_and_rejects() {
    assert_eq!(FormatDesc::new(23, 8), Ok(FormatDesc::binary32()));
    assert_eq!(FormatDesc::new(52, 11), Ok(FormatDesc::binary64()));
    assert!(FormatDesc::new(0, 63).is_ok());
    assert_eq!(FormatDesc::new(1, 0), Err(FormatError::InvalidFormat));
    assert_eq!(FormatDesc::new(60, 4), Err(FormatError::InvalidFormat));
    assert_eq!(FormatDesc::new(0, 64), Err(FormatError::InvalidFormat));
    assert_eq!(FormatDesc::new(255, 255), Err(FormatError::InvalidFormat));
}

#[test]
fn binary32_derived_fields() {
    let d = FormatDesc::binary32();
    assert_eq!(d.precision(), 24);
    assert_eq!(d.frac_mask(), 0x7F_FFFF);
    assert_eq!(d.frac_shift(), 0);
    assert_eq!(d.biased_exp_mask(), 0xFF);
    assert_eq!(d.biased_exp_shift(), 23);
    assert_eq!(d.exp_bias(), 127);
    assert_eq!(d.sign_mask(), 1);
    assert_eq!(d.sign_shift(), 31);
    assert_eq!(d.integer_bit(), 0x80_0000);
}

#[test]
fn binary64_derived_fields() {
    let d = FormatDesc::binary64();
    assert_eq!(d.precision(), 53);
    assert_eq!(d.frac_mask(), (1u64 << 52) - 1);
    assert_eq!(d.biased_exp_mask(), 0x7FF);
    assert_eq!(d.biased_exp_shift(), 52);
    assert_eq!(d.exp_bias(), 1023);
    assert_eq!(d.sign_shift(), 63);
    assert_eq!(d.integer_bit(), 1u64 << 52);
    assert_eq!(FormatDesc::new(0, 63).unwrap().exp_bias(), (1i64 << 62) - 1);
}

#[test]
fn masks() {
    assert_eq!(FormatDesc::mask(0), 0);
    assert_eq!(FormatDesc::mask(1), 1);
    assert_eq!(FormatDesc::mask(3), 7);
    assert_eq!(FormatDesc::mask(63), u64::MAX >> 1);
    assert_eq!(FormatDesc::mask(64), u64::MAX);
}

#[test]
fn new_normalizes_regular_values() {
    let r = ArbFloat::new(regular(0), big(12));
    check(&r, regular(2), 3);
    let r = ArbFloat::new(regular(-10), big(-40));
    check(&r, regular(-7), -5);
    let r = ArbFloat::new(regular(5), big(7));
    check(&r, regular(5), 7);
    let r = ArbFloat::new(regular(5), big(0));
    check(&r, regular(5), 0);
}

#[test]
fn new_keeps_other_kinds() {
    check(&ArbFloat::new(FloatKind::Zero, big(-1)), FloatKind::Zero, -1);
    check(&ArbFloat::new(FloatKind::Infinity, big(8)), FloatKind::Infinity, 8);
    check(&ArbFloat::new(FloatKind::NaN, big(4)), FloatKind::NaN, 4);
}
