//! Decoding a raw bit pattern into a canonical sign / exponent / significand value.

use vstd::prelude::*;
use vstd::arithmetic::power2::{
    pow2,
    lemma_pow2_pos,
    lemma_pow2_unfold,
    lemma_pow2_adds,
    lemma_pow2_strictly_increases,
    lemma2_to64,
    lemma2_to64_rest,
};
use vstd::bits::{
    lemma_u64_shr_is_div,
    lemma_u64_low_bits_mask_is_mod,
    lemma_u64_pow2_no_overflow,
    lemma_u64_shl_is_mul,
};
use vstd::arithmetic::div_mod::{lemma_fundamental_div_mod, lemma_div_multiples_vanish};
use vstd::arithmetic::mul::{lemma_mul_is_associative, lemma_mul_is_commutative};
use num_bigint::BigInt;
use crate::big::{int_value, big_from_i64, big_mul_u64, big_trailing_zeros, big_shr};
use crate::format::FormatDesc;

verus! {

/// What a decoded value is. Only a regular value carries an exponent.
#[derive(Debug, Clone, Copy, PartialEq, Eq, Structural)]
pub enum FloatKind {
    Regular { exp: i64 },
    Zero,
    Infinity,
    NaN,
}

/// A decoded value: its kind and a signed significand. A regular value stands for
/// `num * 2^exp`; for the other kinds `num` is `1` or `-1` and records the sign.
#[derive(Debug)]
pub struct ArbFloat {
    pub kind: FloatKind,
    pub num: BigInt,
}

/// The kind of a decoded value, with the exponent as a mathematical integer.
pub enum KindModel {
    Regular { exp: int },
    Zero,
    Infinity,
    NaN,
}

/// The mathematical content of an `ArbFloat`.
pub struct FloatModel {
    pub kind: KindModel,
    pub significand: int,
}

impl FloatKind {
    pub open spec fn view(&self) -> KindModel {
        match *self {
            FloatKind::Regular { exp } => KindModel::Regular { exp: exp as int },
            FloatKind::Zero => KindModel::Zero,
            FloatKind::Infinity => KindModel::Infinity,
            FloatKind::NaN => KindModel::NaN,
        }
    }
}

impl ArbFloat {
    pub open spec fn view(&self) -> FloatModel {
        FloatModel { kind: self.kind@, significand: int_value(self.num) }
    }
}

pub open spec fn abs(m: int) -> int {
    if m < 0 { -m } else { m }
}

/// Moves every factor of two out of `m` into the exponent `e`; the result
/// stands for the same number `m * 2^e`.
pub open spec fn strip_twos(m: int, e: int) -> (int, int)
    decreases abs(m),
{
    if m != 0 && m % 2 == 0 {
        strip_twos(m / 2, e + 1)
    } else {
        (m, e)
    }
}

/// A regular value in canonical form.
pub open spec fn regular_model(m: int, e: int) -> FloatModel {
    FloatModel { kind: KindModel::Regular { exp: strip_twos(m, e).1 }, significand: strip_twos(m, e).0 }
}

/// What the normalizing constructor makes of a kind and a significand.
pub open spec fn normalize_model(kind: KindModel, m: int) -> FloatModel {
    match kind {
        KindModel::Regular { exp } => regular_model(m, exp),
        _ => FloatModel { kind, significand: m },
    }
}

/// The fraction field of `raw`.
pub open spec fn fraction_field(d: FormatDesc, raw: u64) -> int {
    raw as int % (pow2(d.frac_bits as nat) as int)
}

/// The biased exponent field of `raw`.
pub open spec fn biased_exp_field(d: FormatDesc, raw: u64) -> int {
    (raw as int / (pow2(d.frac_bits as nat) as int)) % (pow2(d.exp_bits as nat) as int)
}

/// The sign bit of `raw`.
pub open spec fn sign_field(d: FormatDesc, raw: u64) -> bool {
    (raw as int / (pow2((d.frac_bits + d.exp_bits) as nat) as int)) % 2 == 1
}

pub open spec fn sign_factor(negative: bool) -> int {
    if negative { -1 } else { 1 }
}

/// The all-ones biased exponent, which marks infinities and NaNs.
pub open spec fn max_biased_exp(d: FormatDesc) -> int {
    pow2(d.exp_bits as nat) - 1
}

/// The exponent of the fraction field read as an integer: the bias and the
/// `F` fraction bits below the radix point are taken off the biased exponent.
pub open spec fn int_exp(d: FormatDesc, raw: u64) -> int {
    biased_exp_field(d, raw) - (d.bias_spec() + d.frac_bits)
}

/// The decoded value of `raw` in the layout `d`.
pub open spec fn decode_model(d: FormatDesc, raw: u64) -> FloatModel {
    let f = fraction_field(d, raw);
    let b = biased_exp_field(d, raw);
    let s = sign_factor(sign_field(d, raw));
    if b == max_biased_exp(d) {
        if f == 0 {
            FloatModel { kind: KindModel::Infinity, significand: s }
        } else {
            FloatModel { kind: KindModel::NaN, significand: s }
        }
    } else if b == 0 {
        if f == 0 {
            FloatModel { kind: KindModel::Zero, significand: s }
        } else {
            regular_model(s * f, int_exp(d, raw) + 1)
        }
    } else {
        regular_model(s * (f + pow2(d.frac_bits as nat)), int_exp(d, raw))
    }
}

proof fn lemma_strip_twos_exact(m: int, e: int, q: int, k: nat)
    requires
        m == q * pow2(k),
        q % 2 == 1,
    ensures
        strip_twos(m, e) == (q, e + k),
    decreases k,
{
    lemma_pow2_pos(k);
    if k == 0 {
        lemma2_to64();
        assert(m == q);
    } else {
        lemma_pow2_unfold(k);
        let h = q * pow2((k - 1) as nat);
        lemma_mul_is_associative(q, 2, pow2((k - 1) as nat) as int);
        lemma_mul_is_commutative(q, 2);
        lemma_mul_is_associative(2, q, pow2((k - 1) as nat) as int);
        assert(m == 2 * h);
        assert(q != 0);
        lemma_pow2_pos((k - 1) as nat);
        assert(h != 0) by (nonlinear_arith)
            requires
                h == q * pow2((k - 1) as nat),
                q != 0,
                pow2((k - 1) as nat) > 0,
        ;
        assert(m / 2 == h);
        lemma_strip_twos_exact(h, e + 1, q, (k - 1) as nat);
    }
}

/// Strips as many factors of two as the result of `trailing_zeros` reported.
proof fn lemma_strip_by_count(m: int, e: int, k: nat)
    requires
        m % (pow2(k) as int) == 0,
        m % (pow2(k + 1) as int) != 0,
    ensures
        strip_twos(m, e) == (m / (pow2(k) as int), e + k),
{
    let p = pow2(k) as int;
    lemma_pow2_pos(k);
    let q = m / p;
    lemma_fundamental_div_mod(m, p);
    assert(m == q * p) by (nonlinear_arith)
        requires
            m == p * q + m % p,
            m % p == 0,
    ;
    if q % 2 == 0 {
        lemma_pow2_unfold(k + 1);
        let r = q / 2;
        assert(m == r * pow2(k + 1)) by (nonlinear_arith)
            requires
                m == q * p,
                q == 2 * r,
                pow2(k + 1) == 2 * p,
        ;
        lemma_pow2_pos(k + 1);
        lemma_div_multiples_vanish(r, pow2(k + 1) as int);
        vstd::arithmetic::div_mod::lemma_mod_multiples_basic(r, pow2(k + 1) as int);
        assert(false);
    }
    lemma_strip_twos_exact(m, e, q, k);
}

/// Stripping a nonzero significand below `2^n` adds less than `n` to the exponent.
proof fn lemma_strip_twos_bound(m: int, e: int, n: nat)
    requires
        m != 0,
        abs(m) < pow2(n),
    ensures
        e <= strip_twos(m, e).1 < e + n,
    decreases abs(m),
{
    if n == 0 {
        lemma2_to64();
    }
    if m % 2 == 0 {
        lemma_pow2_unfold(n);
        lemma_strip_twos_bound(m / 2, e + 1, (n - 1) as nat);
    }
}

/// Stripping keeps the number `m * 2^e`, and leaves an odd significand unless `m` is zero.
proof fn lemma_strip_twos_value(m: int, e: int)
    ensures
        e <= strip_twos(m, e).1,
        m == strip_twos(m, e).0 * pow2((strip_twos(m, e).1 - e) as nat),
        m != 0 ==> strip_twos(m, e).0 % 2 == 1,
        m == 0 ==> strip_twos(m, e).0 == 0,
    decreases abs(m),
{
    lemma2_to64();
    if m != 0 && m % 2 == 0 {
        let (q, e2) = strip_twos(m / 2, e + 1);
        lemma_strip_twos_value(m / 2, e + 1);
        let k = (e2 - (e + 1)) as nat;
        assert(strip_twos(m, e) == (q, e2));
        lemma_pow2_unfold(k + 1);
        assert((e2 - e) as nat == k + 1);
        assert(m == q * pow2(k + 1)) by (nonlinear_arith)
            requires
                m == 2 * (m / 2),
                m / 2 == q * pow2(k),
                pow2(k + 1) == 2 * pow2(k),
        ;
    } else {
        assert((e - e) as nat == 0);
        assert(m * pow2(0) == m);
    }
}

/// `m1 * 2^e1` and `m2 * 2^e2` are the same rational number.
pub open spec fn same_dyadic(m1: int, e1: int, m2: int, e2: int) -> bool {
    let lo = if e1 <= e2 { e1 } else { e2 };
    m1 * pow2((e1 - lo) as nat) == m2 * pow2((e2 - lo) as nat)
}

proof fn lemma_strip_twos_same_dyadic(m: int, e: int)
    ensures
        same_dyadic(strip_twos(m, e).0, strip_twos(m, e).1, m, e),
{
    lemma_strip_twos_value(m, e);
    lemma2_to64();
    let (q, e2) = strip_twos(m, e);
    assert((e - e) as nat == 0);
    assert(m * pow2(0) == m);
    if e2 == e {
        assert(q * pow2(0) == q);
    }
}

/// The number that a pattern of a regular kind encodes, as a pair `(m, e)`
/// standing for `m * 2^e`: `(-1)^s * (1 + f / 2^F) * 2^(b - bias)` for a normal
/// pattern and `(-1)^s * (f / 2^F) * 2^(1 - bias)` for a subnormal one.
pub open spec fn encoded_value(d: FormatDesc, raw: u64) -> (int, int) {
    let f = fraction_field(d, raw);
    let b = biased_exp_field(d, raw);
    let s = sign_factor(sign_field(d, raw));
    if b == 0 {
        (s * f, 1 - d.bias_spec() - d.frac_bits)
    } else {
        (s * (pow2(d.frac_bits as nat) + f), b - d.bias_spec() - d.frac_bits)
    }
}

/// Every pattern decodes to exactly one kind, chosen by its biased exponent `b`
/// and fraction `f`: all-ones `b` gives an infinity when `f` is zero and a NaN
/// otherwise; zero `b` gives a zero when `f` is zero and a subnormal regular value
/// otherwise; any other `b` gives a normal regular value.
pub proof fn lemma_classification(d: FormatDesc, raw: u64)
    requires
        d.wf(),
    ensures
        ({
            let f = fraction_field(d, raw);
            let b = biased_exp_field(d, raw);
            let k = decode_model(d, raw).kind;
            &&& 0 <= b <= max_biased_exp(d)
            &&& 0 < max_biased_exp(d)
            &&& (k is Infinity <==> b == max_biased_exp(d) && f == 0)
            &&& (k is NaN <==> b == max_biased_exp(d) && f != 0)
            &&& (k is Zero <==> b == 0 && f == 0)
            &&& (k is Regular <==> b != max_biased_exp(d) && (b != 0 || f != 0))
        }),
{
    lemma_pow2_pos(d.frac_bits as nat);
    lemma_pow2_pos(d.exp_bits as nat);
    lemma_pow2_unfold(d.exp_bits as nat);
    lemma_pow2_pos((d.exp_bits - 1) as nat);
}

/// A regular value made by the normalizing constructor has a zero or odd
/// significand, and stands for the same number as the significand and exponent
/// it was given.
pub proof fn lemma_normalized_canonical(kind: KindModel, m: int)
    ensures
        normalize_model(kind, m).kind matches KindModel::Regular { exp } ==> {
            &&& normalize_model(kind, m).significand == 0
                || normalize_model(kind, m).significand % 2 == 1
            &&& kind matches KindModel::Regular { exp: e0 } && same_dyadic(
                normalize_model(kind, m).significand,
                exp,
                m,
                e0,
            )
        },
{
    if let KindModel::Regular { exp } = kind {
        lemma_strip_twos_value(m, exp);
        lemma_strip_twos_same_dyadic(m, exp);
    }
}

/// The significand of every decoded regular value is odd.
pub proof fn lemma_decoded_canonical(d: FormatDesc, raw: u64)
    requires
        d.wf(),
    ensures
        decode_model(d, raw).kind is Regular ==> decode_model(d, raw).significand % 2 == 1,
{
    lemma_pow2_pos(d.frac_bits as nat);
    let f = fraction_field(d, raw);
    let s = sign_factor(sign_field(d, raw));
    lemma_strip_twos_value(s * f, int_exp(d, raw) + 1);
    lemma_strip_twos_value(s * (f + pow2(d.frac_bits as nat)), int_exp(d, raw));
}

/// A decoded regular value, read as `significand * 2^exp`, is the number that
/// its bit pattern encodes.
pub proof fn lemma_exponent_compensation(d: FormatDesc, raw: u64)
    requires
        d.wf(),
    ensures
        decode_model(d, raw).kind matches KindModel::Regular { exp } ==> same_dyadic(
            decode_model(d, raw).significand,
            exp,
            encoded_value(d, raw).0,
            encoded_value(d, raw).1,
        ),
{
    let (m, e) = encoded_value(d, raw);
    lemma_strip_twos_same_dyadic(m, e);
}

impl ArbFloat {
    /// Builds a value, bringing a regular one into canonical form: the trailing
    /// zero bits of the significand move into the exponent.
    pub fn new(kind: FloatKind, num: BigInt) -> (r: ArbFloat)
        requires
            kind matches FloatKind::Regular { exp } ==> strip_twos(int_value(num), exp as int).1
                <= i64::MAX,
        ensures
            r@ == normalize_model(kind@, int_value(num)),
    {
        let mut num = num;
        match kind {
            FloatKind::Regular { exp } => {
                match big_trailing_zeros(&num) {
                    Some(k) => {
                        proof {
                            lemma_strip_by_count(int_value(num), exp as int, k as nat);
                        }
                        big_shr(&mut num, k);
                        let adjusted = (exp as i128 + k as i128) as i64;
                        ArbFloat { kind: FloatKind::Regular { exp: adjusted }, num }
                    },
                    None => ArbFloat { kind, num },
                }
            },
            _ => ArbFloat { kind, num },
        }
    }
}

/// What shifting and masking read out of `raw`, and the bounds that keep the
/// exponent arithmetic in range.
proof fn lemma_field_extraction(d: FormatDesc, raw: u64)
    requires
        d.wf(),
    ensures
        (raw >> 0u64) & ((pow2(d.frac_bits as nat) - 1) as u64) == fraction_field(d, raw),
        (raw >> (d.frac_bits as u64)) & ((pow2(d.exp_bits as nat) - 1) as u64)
            == biased_exp_field(d, raw),
        (((raw >> ((d.frac_bits + d.exp_bits) as u64)) & 1u64) != 0) == sign_field(d, raw),
        0 <= fraction_field(d, raw) < pow2(d.frac_bits as nat),
        0 <= biased_exp_field(d, raw) < pow2(d.exp_bits as nat),
        pow2(d.exp_bits as nat) <= pow2(63),
        0 < pow2((d.exp_bits - 1) as nat) <= pow2(62),
        2 * pow2(d.frac_bits as nat) <= pow2(63),
        pow2(d.exp_bits as nat) == 2 * pow2((d.exp_bits - 1) as nat),
        pow2(62) == 0x4000_0000_0000_0000,
        pow2(63) == 0x8000_0000_0000_0000,
        pow2(64) == 0x1_0000_0000_0000_0000,
{
    let fb = d.frac_bits;
    let eb = d.exp_bits;
    lemma2_to64();
    lemma2_to64_rest();
    lemma_u64_shr_is_div(raw, 0);
    lemma_u64_shr_is_div(raw, fb as u64);
    lemma_u64_shr_is_div(raw, (fb + eb) as u64);
    lemma_u64_low_bits_mask_is_mod(raw, fb as nat);
    lemma_u64_low_bits_mask_is_mod(raw / (pow2(fb as nat) as u64), eb as nat);
    lemma_u64_low_bits_mask_is_mod(raw / (pow2((fb + eb) as nat) as u64), 1);
    lemma_pow2_pos(fb as nat);
    lemma_pow2_pos(eb as nat);
    lemma_pow2_pos((eb - 1) as nat);
    if eb < 63 {
        lemma_pow2_strictly_increases(eb as nat, 63);
        lemma_pow2_strictly_increases((eb - 1) as nat, 62);
    }
    lemma_pow2_adds(fb as nat, 1);
    lemma_pow2_unfold(eb as nat);
    if fb < 62 {
        lemma_pow2_strictly_increases((fb + 1) as nat, 63);
    }
}

/// Decodes the bit pattern `storage` in the layout `desc`. Bits above the sign
/// bit are ignored.
pub fn parse(desc: FormatDesc, storage: u64) -> (r: ArbFloat)
    requires
        desc.wf(),
    ensures
        r@ == decode_model(desc, storage),
{
    let fb = desc.frac_bits;
    let eb = desc.exp_bits;
    proof {
        lemma_field_extraction(desc, storage);
    }
    let frac = (storage >> desc.frac_shift()) & desc.frac_mask();
    let biased_exp = (storage >> desc.biased_exp_shift()) & desc.biased_exp_mask();
    let sign = ((storage >> desc.sign_shift()) & desc.sign_mask()) != 0;
    assert(frac == fraction_field(desc, storage));
    assert(biased_exp == biased_exp_field(desc, storage));
    assert(sign == sign_field(desc, storage));

    // The fraction field is read as an integer rather than as a fixed-point
    // number in [1, 2): the radix point moves right by `precision - 1` bits,
    // which the exponent gives back.
    let exp: i64 = biased_exp as i64 - (desc.exp_bias() + desc.precision() - 1);
    assert(exp == int_exp(desc, storage));
    let mut num = big_from_i64(if sign { -1 } else { 1 });
    let kind = if biased_exp == desc.biased_exp_mask() {
        if frac == 0 {
            FloatKind::Infinity
        } else {
            FloatKind::NaN
        }
    } else if biased_exp == 0 {
        if frac == 0 {
            FloatKind::Zero
        } else {
            // A subnormal: no implicit leading bit.
            big_mul_u64(&mut num, frac);
            proof {
                lemma_strip_twos_bound(int_value(num), exp + 1, 64);
            }
            FloatKind::Regular { exp: exp + 1 }
        }
    } else {
        let ib = desc.integer_bit();
        let fb64: u64 = fb as u64;
        proof {
            lemma_u64_pow2_no_overflow(fb as nat);
            lemma_u64_shl_is_mul(1, fb64);
        }
        assert(frac | ib == frac + ib) by (bit_vector)
            requires
                ib == 1u64 << fb64,
                frac < ib,
                fb64 < 64,
        ;
        let ghost before = int_value(num);
        big_mul_u64(&mut num, frac | ib);
        proof {
            let x = (frac + ib) as int;
            if sign {
                assert(before == -1);
                assert(int_value(num) == -x) by (nonlinear_arith)
                    requires
                        int_value(num) == before * x,
                        before == -1,
                ;
            } else {
                assert(int_value(num) == x) by (nonlinear_arith)
                    requires
                        int_value(num) == before * x,
                        before == 1,
                ;
            }
            assert(biased_exp < pow2(eb as nat) - 1);
            assert(exp < pow2(62));
            assert(abs(int_value(num)) < pow2(64));
            lemma_strip_twos_bound(int_value(num), exp as int, 64);
        }
        FloatKind::Regular { exp }
    };
    ArbFloat::new(kind, num)
}

} // verus!
