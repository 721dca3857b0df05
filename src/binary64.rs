//! The IEEE 754 binary64 encoding, read as an integer.
//!
//! Every finite double is an integer multiple of 2^-1074, the smallest
//! subnormal. `value` gives that integer for an encoding, so the order of
//! doubles becomes the order of integers, and the comparisons that the
//! coordinate guard needs can be decided on the 64-bit patterns alone.
use vstd::arithmetic::div_mod::lemma_fundamental_div_mod;
use vstd::arithmetic::power2::{lemma_pow2_pos, lemma_pow2_strictly_increases, lemma_pow2_unfold, pow2};
use vstd::prelude::*;

verus! {

/// The sign bit of an encoding.
pub const SIGN_BIT: u64 = 0x8000_0000_0000_0000;

/// The encoding of positive infinity: the largest magnitude that is not a NaN.
pub const INFINITY_BITS: u64 = 0x7ff0_0000_0000_0000;

/// One step of the biased exponent: 2^52, the span of the fraction field.
pub const FRACTION_SPAN: u64 = 0x10_0000_0000_0000;

/// The encoding has its sign bit set.
pub open spec fn is_negative(b: u64) -> bool {
    b >= SIGN_BIT
}

/// The encoding without its sign bit.
pub open spec fn magnitude_bits(b: u64) -> nat {
    (b as nat) % (SIGN_BIT as nat)
}

/// The biased exponent field, 0 to 2047.
pub open spec fn exponent(b: u64) -> nat {
    magnitude_bits(b) / (FRACTION_SPAN as nat)
}

/// The 52-bit fraction field.
pub open spec fn fraction(b: u64) -> nat {
    magnitude_bits(b) % (FRACTION_SPAN as nat)
}

/// The encoding is a NaN: all exponent bits set and a fraction that is not zero.
pub open spec fn is_nan(b: u64) -> bool {
    exponent(b) == 2047 && fraction(b) != 0
}

/// The absolute value of the encoded number in units of 2^-1074.
/// A subnormal (exponent 0) is its fraction; a normal number is its
/// significand, with the hidden bit, scaled by its exponent. Infinity, read
/// the same way, lies beyond every finite magnitude.
pub open spec fn magnitude(b: u64) -> nat {
    if exponent(b) == 0 {
        fraction(b)
    } else {
        (FRACTION_SPAN + fraction(b)) as nat * pow2((exponent(b) - 1) as nat)
    }
}

/// The signed value of the encoded number in units of 2^-1074;
/// both zeros are 0.
pub open spec fn value(b: u64) -> int {
    if is_negative(b) {
        -magnitude(b)
    } else {
        magnitude(b) as int
    }
}

/// `a < b` as IEEE 754 defines it on doubles: false when either is a NaN,
/// else the order of the encoded numbers.
pub open spec fn precedes(a: u64, b: u64) -> bool {
    !is_nan(a) && !is_nan(b) && value(a) < value(b)
}

/// The two fields make up the magnitude bits, and a NaN is exactly a
/// magnitude above that of infinity.
proof fn lemma_fields(b: u64)
    ensures
        magnitude_bits(b) == exponent(b) * (FRACTION_SPAN as nat) + fraction(b),
        fraction(b) < FRACTION_SPAN,
        exponent(b) < 2048,
        magnitude_bits(b) == b % SIGN_BIT,
        is_nan(b) <==> magnitude_bits(b) > INFINITY_BITS,
{
    lemma_fundamental_div_mod(magnitude_bits(b) as int, FRACTION_SPAN as int);
}

/// The magnitude grows strictly with the magnitude bits.
proof fn lemma_magnitude_increases(a: u64, b: u64)
    requires
        magnitude_bits(a) < magnitude_bits(b),
    ensures
        magnitude(a) < magnitude(b),
{
    lemma_fields(a);
    lemma_fields(b);
    let ea = exponent(a);
    let eb = exponent(b);
    let fa = fraction(a);
    let fb = fraction(b);
    let span = FRACTION_SPAN as nat;
    if ea == eb {
        assert(fa < fb);
        if ea != 0 {
            let p = pow2((ea - 1) as nat);
            lemma_pow2_pos((ea - 1) as nat);
            assert((span + fa) * p < (span + fb) * p) by (nonlinear_arith)
                requires
                    fa < fb,
                    p > 0,
            ;
        }
    } else {
        assert(ea < eb) by (nonlinear_arith)
            requires
                ea * span + fa < eb * span + fb,
                fa < span,
                fb < span,
                ea != eb,
        ;
        let pb = pow2((eb - 1) as nat);
        lemma_pow2_pos((eb - 1) as nat);
        assert(span * pb <= (span + fb) * pb) by (nonlinear_arith);
        if ea == 0 {
            assert(span <= span * pb) by (nonlinear_arith)
                requires
                    pb > 0,
            ;
        } else {
            let pa = pow2((ea - 1) as nat);
            lemma_pow2_pos((ea - 1) as nat);
            lemma_pow2_unfold(ea);
            if ea < eb - 1 {
                lemma_pow2_strictly_increases(ea, (eb - 1) as nat);
            }
            assert(pow2(ea) <= pb);
            assert((span + fa) * pa < span * pow2(ea)) by (nonlinear_arith)
                requires
                    fa < span,
                    pa > 0,
                    pow2(ea) == 2 * pa,
            ;
            assert(span * pow2(ea) <= span * pb) by (nonlinear_arith)
                requires
                    pow2(ea) <= pb,
            ;
        }
    }
}

/// An encoding has magnitude 0 exactly when it is one of the two zeros.
proof fn lemma_magnitude_zero(b: u64)
    ensures
        magnitude(b) == 0 <==> magnitude_bits(b) == 0,
{
    lemma_fields(b);
    lemma_fields(0);
    if magnitude_bits(b) != 0 {
        lemma_magnitude_increases(0, b);
    }
}

/// Decides `a < b` for the doubles whose encodings are `a` and `b`.
pub fn is_less(a: u64, b: u64) -> (r: bool)
    ensures
        r == precedes(a, b),
{
    let ma = a % SIGN_BIT;
    let mb = b % SIGN_BIT;
    proof {
        lemma_fields(a);
        lemma_fields(b);
        lemma_magnitude_zero(a);
        lemma_magnitude_zero(b);
        if ma < mb {
            lemma_magnitude_increases(a, b);
        } else if mb < ma {
            lemma_magnitude_increases(b, a);
        }
    }
    if ma > INFINITY_BITS || mb > INFINITY_BITS {
        false
    } else if a < SIGN_BIT {
        b < SIGN_BIT && ma < mb
    } else if b < SIGN_BIT {
        ma != 0 || mb != 0
    } else {
        mb < ma
    }
}

} // verus!
