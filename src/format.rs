//! Bit layouts of binary floating-point formats held in a `u64`.

use vstd::prelude::*;
use vstd::arithmetic::power2::{pow2, lemma_pow2_pos, lemma_pow2_strictly_increases};
use vstd::bits::{lemma_u64_pow2_no_overflow, lemma_u64_shl_is_mul};

verus! {

/// Number of bits of the integer that holds a raw bit pattern.
pub const STORAGE_BITS: u32 = 64;

/// Reasons a layout is rejected.
#[derive(Debug, Clone, Copy, PartialEq, Eq, Structural)]
pub enum FormatError {
    /// No exponent bits, or sign, exponent and fraction do not fit in the storage integer.
    InvalidFormat,
}

/// A layout: `frac_bits` fraction bits at the bottom, `exp_bits` biased exponent bits
/// above them, and one sign bit above those.
#[derive(Debug, Clone, Copy, PartialEq, Eq, Structural)]
pub struct FormatDesc {
    pub frac_bits: u8,
    pub exp_bits: u8,
}

/// The layout widths that a `FormatDesc` may have.
pub open spec fn valid_widths(frac_bits: int, exp_bits: int) -> bool {
    exp_bits >= 1 && frac_bits + exp_bits + 1 <= STORAGE_BITS
}

impl FormatDesc {
    pub open spec fn wf(&self) -> bool {
        valid_widths(self.frac_bits as int, self.exp_bits as int)
    }

    /// The bias subtracted from the stored exponent: `2^(E-1) - 1`.
    pub open spec fn bias_spec(&self) -> int {
        pow2((self.exp_bits - 1) as nat) - 1
    }

    /// Builds a layout, rejecting widths that do not fit.
    pub fn new(frac_bits: u8, exp_bits: u8) -> (r: Result<FormatDesc, FormatError>)
        ensures
            valid_widths(frac_bits as int, exp_bits as int) ==> r == Ok::<FormatDesc, FormatError>(
                FormatDesc { frac_bits, exp_bits },
            ),
            !valid_widths(frac_bits as int, exp_bits as int) ==> r == Err::<FormatDesc, FormatError>(
                FormatError::InvalidFormat,
            ),
    {
        if exp_bits >= 1 && (frac_bits as u32) + (exp_bits as u32) + 1 <= STORAGE_BITS {
            Ok(FormatDesc { frac_bits, exp_bits })
        } else {
            Err(FormatError::InvalidFormat)
        }
    }

    /// The standard single-precision layout.
    pub fn binary32() -> (r: FormatDesc)
        ensures
            r.frac_bits == 23 && r.exp_bits == 8,
            r.wf(),
    {
        FormatDesc { frac_bits: 23, exp_bits: 8 }
    }

    /// The standard double-precision layout.
    pub fn binary64() -> (r: FormatDesc)
        ensures
            r.frac_bits == 52 && r.exp_bits == 11,
            r.wf(),
    {
        FormatDesc { frac_bits: 52, exp_bits: 11 }
    }

    /// Significand precision in bits, the implicit leading bit included.
    pub fn precision(&self) -> (r: i64)
        ensures
            r == self.frac_bits + 1,
    {
        self.frac_bits as i64 + 1
    }

    /// The mask of the low `bits` bits.
    pub fn mask(bits: u32) -> (r: u64)
        requires
            bits <= STORAGE_BITS,
        ensures
            r == pow2(bits as nat) - 1,
    {
        if bits == STORAGE_BITS {
            proof {
                vstd::arithmetic::power2::lemma2_to64_rest();
            }
            u64::MAX
        } else {
            proof {
                lemma_u64_pow2_no_overflow(bits as nat);
                lemma_u64_shl_is_mul(1, bits as u64);
            }
            (1u64 << bits) - 1
        }
    }

    /// Mask of the fraction field, taken after shifting by `frac_shift`.
    pub fn frac_mask(&self) -> (r: u64)
        requires
            self.wf(),
        ensures
            r == pow2(self.frac_bits as nat) - 1,
    {
        Self::mask(self.frac_bits as u32)
    }

    /// Position of the fraction field.
    pub fn frac_shift(&self) -> (r: u64)
        ensures
            r == 0,
    {
        0
    }

    /// Mask of the biased exponent field, taken after shifting by `biased_exp_shift`.
    pub fn biased_exp_mask(&self) -> (r: u64)
        requires
            self.wf(),
        ensures
            r == pow2(self.exp_bits as nat) - 1,
    {
        Self::mask(self.exp_bits as u32)
    }

    /// Position of the biased exponent field.
    pub fn biased_exp_shift(&self) -> (r: u64)
        ensures
            r == self.frac_bits,
    {
        self.frac_shift() + self.frac_bits as u64
    }

    /// The exponent bias, `2^(E-1) - 1`.
    pub fn exp_bias(&self) -> (r: i64)
        requires
            self.wf(),
        ensures
            r == self.bias_spec(),
    {
        let n: u64 = (self.exp_bits - 1) as u64;
        proof {
            lemma_u64_pow2_no_overflow(n as nat);
            lemma_u64_shl_is_mul(1, n);
            lemma_pow2_pos(n as nat);
            if n < 62 {
                lemma_pow2_strictly_increases(n as nat, 62);
            }
            vstd::arithmetic::power2::lemma2_to64_rest();
        }
        ((1u64 << n) - 1) as i64
    }

    /// Mask of the sign field, taken after shifting by `sign_shift`.
    pub fn sign_mask(&self) -> (r: u64)
        ensures
            r == 1,
    {
        1
    }

    /// Position of the sign bit.
    pub fn sign_shift(&self) -> (r: u64)
        ensures
            r == self.frac_bits + self.exp_bits,
    {
        self.biased_exp_shift() + self.exp_bits as u64
    }

    /// The implicit leading bit of a normal significand, `2^F`.
    pub fn integer_bit(&self) -> (r: u64)
        requires
            self.wf(),
        ensures
            r == pow2(self.frac_bits as nat),
    {
        proof {
            lemma_u64_pow2_no_overflow(self.frac_bits as nat);
            lemma_u64_shl_is_mul(1, self.frac_bits as u64);
        }
        1u64 << self.frac_bits
    }
}

} // verus!
