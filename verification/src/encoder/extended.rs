//! The 80-bit extended-precision number of the AIFF header: one sign bit, a
//! 15-bit exponent with bias 16383 and a 64-bit mantissa.
//!
//! A double is taken as its IEEE 754 bit pattern, so that the conversion is
//! exact integer arithmetic.
use vstd::prelude::*;
use vstd::arithmetic::power2::{lemma2_to64, lemma2_to64_rest, lemma_pow2_unfold, pow2};

verus! {

/// The sign bit of a double.
pub open spec fn sign_bit(bits: u64) -> nat {
    (bits / 0x8000_0000_0000_0000) as nat
}

/// The 11-bit exponent field of a double.
pub open spec fn exponent_field(bits: u64) -> nat {
    (bits / 0x10_0000_0000_0000 % 0x800) as nat
}

/// The 52-bit fraction field of a double.
pub open spec fn fraction_field(bits: u64) -> nat {
    (bits % 0x10_0000_0000_0000) as nat
}

/// Neither an infinity nor a NaN.
pub open spec fn is_finite(bits: u64) -> bool {
    exponent_field(bits) != 0x7ff
}

/// Plus or minus zero.
pub open spec fn is_zero(bits: u64) -> bool {
    exponent_field(bits) == 0 && fraction_field(bits) == 0
}

/// The magnitude of a finite double is `significand * 2^scale`: this is the
/// significand, with its leading one where the double is normal.
pub open spec fn significand(bits: u64) -> nat {
    if exponent_field(bits) == 0 {
        fraction_field(bits)
    } else {
        0x10_0000_0000_0000 + fraction_field(bits)
    }
}

/// The power of two by which the significand is scaled.
pub open spec fn scale(bits: u64) -> int {
    if exponent_field(bits) == 0 {
        -1074
    } else {
        exponent_field(bits) - 1075
    }
}

/// Doubles `mantissa` and lowers `exponent` by one until the mantissa is at
/// least `2^62`. The value `mantissa * 2^exponent` stays what it was.
pub open spec fn normalized(mantissa: nat, exponent: int) -> (nat, int)
    decreases
        (if mantissa < 0x4000_0000_0000_0000 {
            0x4000_0000_0000_0000 - mantissa
        } else {
            0
        }),
{
    if mantissa == 0 || mantissa >= 0x4000_0000_0000_0000 {
        (mantissa, exponent)
    } else {
        normalized(2 * mantissa, exponent - 1)
    }
}

/// An 80-bit extended-precision number.
#[derive(Clone, Copy, Debug, PartialEq, Eq, Structural)]
pub struct Extended {
    /// The sign in the high bit, the biased exponent in the low 15 bits.
    pub sign_exponent: u16,
    /// The mantissa, its integer bit included.
    pub mantissa: u64,
}

/// The encoding of a finite double.
///
/// Zero of either sign is all zeros. Otherwise the magnitude is brought
/// into `[0.5, 1)`, the mantissa is that magnitude times `2^63`, and the
/// exponent counts from the bias 16383, so that the magnitude is
/// `mantissa * 2^(exponent - 16383 - 63)`.
pub open spec fn spec_encode(bits: u64) -> Extended {
    if is_zero(bits) {
        Extended { sign_exponent: 0, mantissa: 0 }
    } else {
        let (mantissa, exponent) = normalized(significand(bits), 16383 + 63 + scale(bits));
        Extended {
            sign_exponent: (sign_bit(bits) * 0x8000 + exponent) as u16,
            mantissa: mantissa as u64,
        }
    }
}

/// The two bytes of `value`, most significant first.
pub open spec fn be_bytes_u16(value: u16) -> Seq<u8> {
    seq![(value / 0x100) as u8, (value % 0x100) as u8]
}

/// The eight bytes of `value`, most significant first.
pub open spec fn be_bytes_u64(value: u64) -> Seq<u8> {
    seq![
        (value / 0x100_0000_0000_0000) as u8,
        (value / 0x1_0000_0000_0000 % 0x100) as u8,
        (value / 0x100_0000_0000 % 0x100) as u8,
        (value / 0x1_0000_0000 % 0x100) as u8,
        (value / 0x100_0000 % 0x100) as u8,
        (value / 0x1_0000 % 0x100) as u8,
        (value / 0x100 % 0x100) as u8,
        (value % 0x100) as u8,
    ]
}

/// Normalising keeps the value and fills the mantissa: the result is the
/// mantissa times `2^k` with the exponent lowered by `k`, and lies in
/// `[2^62, 2^63)`.
pub proof fn lemma_normalized_value(mantissa: nat, exponent: int)
    requires
        0 < mantissa < 0x8000_0000_0000_0000,
    ensures
        ({
            let (m, x) = normalized(mantissa, exponent);
            &&& 0x4000_0000_0000_0000 <= m < 0x8000_0000_0000_0000
            &&& 0 <= exponent - x <= 62
            &&& m == mantissa * pow2((exponent - x) as nat)
        }),
    decreases
        (if mantissa < 0x4000_0000_0000_0000 {
            0x4000_0000_0000_0000 - mantissa
        } else {
            0
        }),
{
    lemma2_to64();
    if mantissa < 0x4000_0000_0000_0000 {
        lemma_normalized_value(2 * mantissa, exponent - 1);
        let (m, x) = normalized(2 * mantissa, exponent - 1);
        let k = (exponent - 1 - x) as nat;
        lemma_pow2_unfold(k + 1);
        assert(m == mantissa * pow2(k + 1)) by (nonlinear_arith)
            requires
                m == (2 * mantissa) * pow2(k),
                pow2(k + 1) == 2 * pow2(k),
        ;
        if k == 62 {
            lemma2_to64_rest();
            assert(mantissa * pow2(63) >= 0x8000_0000_0000_0000) by (nonlinear_arith)
                requires
                    mantissa >= 1,
                    pow2(63) == 0x8000_0000_0000_0000,
            ;
        }
        assert(normalized(mantissa, exponent) == (m, x));
        assert(exponent - x == k + 1);
    } else {
        assert(normalized(mantissa, exponent) == (mantissa, exponent));
        assert(mantissa == mantissa * pow2(0)) by (nonlinear_arith)
            requires
                pow2(0) == 1,
        ;
    }
}

/// Encoding keeps sign and magnitude. Of a finite double that is not zero,
/// the mantissa is the significand times `2^k` and lies in `[2^62, 2^63)`,
/// the exponent makes up for the `k` doublings, and the high bit of the
/// first field is the sign.
pub proof fn lemma_encode_keeps_value(bits: u64)
    requires
        is_finite(bits),
        !is_zero(bits),
    ensures
        ({
            let encoded = spec_encode(bits);
            let k = 16383 + 63 + scale(bits) - encoded.sign_exponent % 0x8000;
            &&& encoded.sign_exponent / 0x8000 == sign_bit(bits)
            &&& 0 <= k <= 62
            &&& encoded.mantissa == significand(bits) * pow2(k as nat)
            &&& 0x4000_0000_0000_0000 <= encoded.mantissa < 0x8000_0000_0000_0000
        }),
{
    lemma_normalized_value(significand(bits), 16383 + 63 + scale(bits));
}

impl Extended {
    /// Encodes the finite double with the bit pattern `bits`.
    pub fn from_f64_bits(bits: u64) -> (r: Extended)
        requires
            is_finite(bits),
        ensures
            r == spec_encode(bits),
    {
        let sign: u64 = bits / 0x8000_0000_0000_0000;
        let field: u64 = bits / 0x10_0000_0000_0000 % 0x800;
        let fraction: u64 = bits % 0x10_0000_0000_0000;
        if field == 0 && fraction == 0 {
            return Extended { sign_exponent: 0, mantissa: 0 };
        }
        let start: u64 = if field == 0 {
            fraction
        } else {
            0x10_0000_0000_0000 + fraction
        };
        let first: u64 = if field == 0 {
            16383 + 63 - 1074
        } else {
            16383 + 63 + field - 1075
        };
        let mut mantissa: u64 = start;
        let mut exponent: u64 = first;
        let ghost mut doublings: nat = 0;
        proof {
            lemma2_to64();
            lemma2_to64_rest();
        }
        while mantissa < 0x4000_0000_0000_0000
            invariant
                0 < mantissa < 0x8000_0000_0000_0000,
                15372 <= first <= 17417,
                doublings <= 62,
                exponent == first - doublings,
                mantissa >= pow2(doublings),
                normalized(mantissa as nat, exponent as int) == normalized(
                    start as nat,
                    first as int,
                ),
            decreases 0x8000_0000_0000_0000 - mantissa,
        {
            proof {
                lemma2_to64_rest();
                assert(doublings < 62);
                lemma_pow2_unfold(doublings + 1);
                doublings = doublings + 1;
            }
            mantissa = mantissa * 2;
            exponent = exponent - 1;
        }
        Extended { sign_exponent: (sign * 0x8000 + exponent) as u16, mantissa }
    }

    /// Encodes the double with the bit pattern `bits`, unless it is an
    /// infinity or a NaN.
    pub fn try_from_f64_bits(bits: u64) -> (r: Option<Extended>)
        ensures
            r == if is_finite(bits) {
                Some(spec_encode(bits))
            } else {
                None
            },
    {
        if bits / 0x10_0000_0000_0000 % 0x800 == 0x7ff {
            None
        } else {
            Some(Extended::from_f64_bits(bits))
        }
    }

    /// The ten bytes of the number: sign and exponent, then the mantissa,
    /// each most significant byte first.
    pub fn to_be_bytes(&self) -> (bytes: [u8; 10])
        ensures
            bytes@ == be_bytes_u16(self.sign_exponent) + be_bytes_u64(self.mantissa),
    {
        let e: u16 = self.sign_exponent;
        let m: u64 = self.mantissa;
        let mut bytes: [u8; 10] = [0u8; 10];
        bytes[0] = (e / 0x100) as u8;
        bytes[1] = (e % 0x100) as u8;
        bytes[2] = (m / 0x100_0000_0000_0000) as u8;
        bytes[3] = (m / 0x1_0000_0000_0000 % 0x100) as u8;
        bytes[4] = (m / 0x100_0000_0000 % 0x100) as u8;
        bytes[5] = (m / 0x1_0000_0000 % 0x100) as u8;
        bytes[6] = (m / 0x100_0000 % 0x100) as u8;
        bytes[7] = (m / 0x1_0000 % 0x100) as u8;
        bytes[8] = (m / 0x100 % 0x100) as u8;
        bytes[9] = (m % 0x100) as u8;
        assert(bytes@ =~= be_bytes_u16(self.sign_exponent) + be_bytes_u64(self.mantissa));
        bytes
    }
}

} // verus!
