//! Lua numbers are IEEE-754 binary64 values, carried everywhere as their
//! 64-bit pattern.  Sign tests, equality, the orderings and negation are
//! plain bit logic and are verified here; rounding arithmetic goes through
//! the software implementation of `rustc_apfloat`, behind trusted wrappers.

use vstd::prelude::*;

use rustc_apfloat::Float;
use rustc_apfloat::ieee::Double;

verus! {

/// Sign bit of a binary64 pattern.
pub const SIGN_MASK: u64 = 0x8000_0000_0000_0000;
/// Everything but the sign bit.
pub const ABS_MASK: u64 = 0x7FFF_FFFF_FFFF_FFFF;
/// The biased-exponent field.
pub const EXP_MASK: u64 = 0x7FF0_0000_0000_0000;
/// The fraction field.
pub const FRAC_MASK: u64 = 0x000F_FFFF_FFFF_FFFF;
/// The pattern of +1.0.
pub const ONE_BITS: u64 = 0x3FF0_0000_0000_0000;
/// The quiet NaN produced for operations with no numeric result.
pub const QNAN_BITS: u64 = 0x7FF8_0000_0000_0000;

pub open spec fn is_nan_bits(b: u64) -> bool {
    (b & EXP_MASK) == EXP_MASK && (b & FRAC_MASK) != 0
}

pub open spec fn is_zero_bits(b: u64) -> bool {
    (b & ABS_MASK) == 0
}

pub open spec fn sign_bit(b: u64) -> bool {
    (b & SIGN_MASK) != 0
}

pub open spec fn mag_bits(b: u64) -> u64 {
    b & ABS_MASK
}

/// IEEE-754 `==` on two patterns: false on any NaN, true for +0 and -0,
/// otherwise bit equality.
pub open spec fn num_eq_bits(a: u64, b: u64) -> bool {
    &&& !is_nan_bits(a)
    &&& !is_nan_bits(b)
    &&& (a == b || (is_zero_bits(a) && is_zero_bits(b)))
}

/// IEEE-754 `<` on two patterns.  The exponent-major layout of binary64
/// makes magnitude comparison an unsigned comparison of the low 63 bits.
pub open spec fn flt_lt_bits(a: u64, b: u64) -> bool {
    if is_nan_bits(a) || is_nan_bits(b) {
        false
    } else if is_zero_bits(a) && is_zero_bits(b) {
        false
    } else if sign_bit(a) != sign_bit(b) {
        sign_bit(a)
    } else if !sign_bit(a) {
        mag_bits(a) < mag_bits(b)
    } else {
        mag_bits(a) > mag_bits(b)
    }
}

/// IEEE-754 `<=` on two patterns.
pub open spec fn flt_le_bits(a: u64, b: u64) -> bool {
    num_eq_bits(a, b) || flt_lt_bits(a, b)
}

/// The key of the IEEE-754 total order: negative patterns are reflected
/// below the non-negative ones.
pub open spec fn total_key(b: u64) -> int {
    if sign_bit(b) {
        0xFFFF_FFFF_FFFF_FFFFu64 - b
    } else {
        b + 0x8000_0000_0000_0000u64
    }
}

pub fn number_is_nan(b: u64) -> (r: bool)
    ensures
        r == is_nan_bits(b),
{
    (b & EXP_MASK) == EXP_MASK && (b & FRAC_MASK) != 0
}

pub fn number_is_zero(b: u64) -> (r: bool)
    ensures
        r == is_zero_bits(b),
{
    (b & ABS_MASK) == 0
}

/// The key of the total order, as the unsigned comparison image of a pattern.
pub fn number_total_key(b: u64) -> (k: u64)
    ensures
        k == total_key(b),
{
    if b & SIGN_MASK != 0 {
        proof {
            assert(b & SIGN_MASK != 0 ==> !b == 0xFFFF_FFFF_FFFF_FFFFu64 - b) by (bit_vector);
        }
        !b
    } else {
        proof {
            assert(b & SIGN_MASK == 0 ==> (b | SIGN_MASK) == b + 0x8000_0000_0000_0000u64)
                by (bit_vector);
        }
        b | SIGN_MASK
    }
}

/// Strict comparison in the IEEE-754 total order (`f64::total_cmp` is `Less`).
pub fn numbers_total_lt(a: u64, b: u64) -> (r: bool)
    ensures
        r == (total_key(a) < total_key(b)),
{
    number_total_key(a) < number_total_key(b)
}

/// Non-strict comparison in the IEEE-754 total order.
pub fn numbers_total_le(a: u64, b: u64) -> (r: bool)
    ensures
        r == (total_key(a) <= total_key(b)),
{
    number_total_key(a) <= number_total_key(b)
}

/// IEEE-754 `==` of two patterns.
pub fn numbers_eq(a: u64, b: u64) -> (r: bool)
    ensures
        r == num_eq_bits(a, b),
{
    if number_is_nan(a) || number_is_nan(b) {
        false
    } else if a == b {
        true
    } else {
        number_is_zero(a) && number_is_zero(b)
    }
}

/// IEEE-754 `<` of two patterns.
pub fn numbers_lt(a: u64, b: u64) -> (r: bool)
    ensures
        r == flt_lt_bits(a, b),
{
    if number_is_nan(a) || number_is_nan(b) {
        false
    } else if number_is_zero(a) && number_is_zero(b) {
        false
    } else {
        let sa = a & SIGN_MASK != 0;
        let sb = b & SIGN_MASK != 0;
        if sa != sb {
            sa
        } else if !sa {
            (a & ABS_MASK) < (b & ABS_MASK)
        } else {
            (a & ABS_MASK) > (b & ABS_MASK)
        }
    }
}

/// IEEE-754 negation: the sign bit is flipped, on every pattern.
pub fn number_neg(b: u64) -> (r: u64)
    ensures
        r == (b ^ SIGN_MASK),
{
    b ^ SIGN_MASK
}

pub uninterp spec fn add_of(a: u64, b: u64) -> u64;

pub uninterp spec fn sub_of(a: u64, b: u64) -> u64;

pub uninterp spec fn mul_of(a: u64, b: u64) -> u64;

pub uninterp spec fn div_of(a: u64, b: u64) -> u64;

pub uninterp spec fn fmod_of(a: u64, b: u64) -> u64;

pub uninterp spec fn number_of_len(n: usize) -> u64;

pub uninterp spec fn decimal_of(b: u64) -> Seq<u8>;

/// Result of the square-and-multiply accumulation over `mul_of`, the exact
/// chain of multiplications the exponentiation loop performs.
pub open spec fn pow_loop_of(acc: u64, base: u64, e: nat) -> u64
    decreases e,
{
    if e == 0 {
        acc
    } else {
        pow_loop_of(
            if e % 2 == 1 {
                mul_of(acc, base)
            } else {
                acc
            },
            mul_of(base, base),
            e / 2,
        )
    }
}

/// `x` squared `s` times over `mul_of`.
pub open spec fn square_times_of(x: u64, s: nat) -> u64
    decreases s,
{
    if s == 0 {
        x
    } else {
        square_times_of(mul_of(x, x), (s - 1) as nat)
    }
}

/// The magnitude part of exponentiation, then the reciprocal for a negative
/// exponent.
pub open spec fn pow_finish_of(b: u64, c: u64, n: u64, s: u64) -> u64 {
    let mag = square_times_of(pow_loop_of(ONE_BITS, b, n as nat), s as nat);
    if sign_bit(c) {
        div_of(ONE_BITS, mag)
    } else {
        mag
    }
}

/// The exponents this library's power operation takes: zero, an
/// infinity, or a finite integral value.
///
/// The software float library this crate computes with offers no power
/// function, and a platform `pow` is not a function of its arguments
/// alone across machines, so no honest name could stand for its result
/// on the remaining exponents.  Rather than silently producing a wrong
/// number there, the power operation refuses them: `number_pow` returns
/// nothing and the arithmetic handler turns that into a fatal error, as
/// it treats operands of the wrong type.
pub open spec fn pow_supported(c: u64) -> bool {
    let eb = (c >> 52u64) & 0x7FF;
    let m = c & FRAC_MASK;
    ||| is_zero_bits(c)
    ||| (eb == 0x7FF && m == 0)
    ||| (1023 <= eb < 0x7FF && (eb >= 1075 || m & (((1u64 << ((1075 - eb) as u64)) - 1) as u64)
        == 0))
}

/// Exponentiation of a pattern by a supported exponent: an exponent of
/// zero gives one, an infinite exponent follows the magnitude of the
/// base, and an integral exponent `n * 2^s` is computed by
/// square-and-multiply over `mul_of`.  The arms outside `pow_supported`
/// are never taken by `number_pow`.
pub open spec fn pow_of_bits(b: u64, c: u64) -> u64 {
    let eb = (c >> 52u64) & 0x7FF;
    let m = c & FRAC_MASK;
    if is_zero_bits(c) {
        ONE_BITS
    } else if is_nan_bits(c) {
        QNAN_BITS
    } else if eb == 0x7FF {
        if is_nan_bits(b) {
            QNAN_BITS
        } else if mag_bits(b) == ONE_BITS {
            ONE_BITS
        } else if (mag_bits(b) > ONE_BITS) == !sign_bit(c) {
            EXP_MASK
        } else {
            0u64
        }
    } else if eb < 1023 {
        QNAN_BITS
    } else {
        let k = (eb - 1023) as u64;
        let sig = (1u64 << 52u64) | m;
        if k < 52 {
            if m & (((1u64 << ((52 - k) as u64)) - 1) as u64) != 0 {
                QNAN_BITS
            } else {
                pow_finish_of(b, c, sig >> ((52 - k) as u64), 0)
            }
        } else if k <= 63 {
            pow_finish_of(b, c, sig << ((k - 52) as u64), 0)
        } else {
            pow_finish_of(b, c, sig << 11u64, (k - 63) as u64)
        }
    }
}

fn pow_accumulate(b: u64, c: u64, n: u64, s: u64) -> (r: u64)
    ensures
        r == pow_finish_of(b, c, n, s),
{
    let mut acc = ONE_BITS;
    let mut base = b;
    let mut e = n;
    while e > 0
        invariant
            pow_loop_of(acc, base, e as nat) == pow_loop_of(ONE_BITS, b, n as nat),
        decreases e,
    {
        proof {
            assert(e & 1 == e % 2) by (bit_vector);
            assert(e >> 1u64 == e / 2) by (bit_vector);
        }
        if e & 1 == 1 {
            acc = number_mul(acc, base);
        }
        base = number_mul(base, base);
        e = e >> 1u64;
    }
    let mut i = s;
    let mut r = acc;
    while i > 0
        invariant
            square_times_of(r, i as nat) == square_times_of(
                pow_loop_of(ONE_BITS, b, n as nat),
                s as nat,
            ),
        decreases i,
    {
        r = number_mul(r, r);
        i = i - 1;
    }
    if c & SIGN_MASK != 0 {
        number_div(ONE_BITS, r)
    } else {
        r
    }
}

/// Exponentiation on two patterns, pinned to `pow_of_bits` — including
/// its deliberate narrowing: a finite non-integral exponent yields a
/// quiet NaN, not the general real power.
/// Exponentiation on two patterns: the computed pattern for a supported
/// exponent, and nothing — never a made-up number — for a NaN or finite
/// non-integral one.
pub fn number_pow(b: u64, c: u64) -> (r: Option<u64>)
    ensures
        match r {
            Some(v) => pow_supported(c) && v == pow_of_bits(b, c),
            None => !pow_supported(c),
        },
{
    let eb = (c >> 52u64) & 0x7FF;
    let m = c & FRAC_MASK;
    proof {
        assert(((c >> 52u64) & 0x7FF) < 0x800) by (bit_vector);
        assert((((c >> 52u64) & 0x7FF) == 0x7FF) == ((c & 0x7FF0_0000_0000_0000u64)
            == 0x7FF0_0000_0000_0000u64)) by (bit_vector);
    }
    if number_is_zero(c) {
        Some(ONE_BITS)
    } else if number_is_nan(c) {
        None
    } else if eb == 0x7FF {
        if number_is_nan(b) {
            Some(QNAN_BITS)
        } else if (b & ABS_MASK) == ONE_BITS {
            Some(ONE_BITS)
        } else if ((b & ABS_MASK) > ONE_BITS) == ((c & SIGN_MASK) == 0) {
            Some(EXP_MASK)
        } else {
            Some(0)
        }
    } else if eb < 1023 {
        None
    } else {
        let k = eb - 1023;
        let sig = (1u64 << 52u64) | m;
        if k < 52 {
            let shift = 52 - k;
            proof {
                assert(shift < 64 ==> (1u64 << shift) >= 1) by (bit_vector);
            }
            let low = (1u64 << shift) - 1;
            if m & low != 0 {
                None
            } else {
                Some(pow_accumulate(b, c, sig >> shift, 0))
            }
        } else if k <= 63 {
            Some(pow_accumulate(b, c, sig << (k - 52), 0))
        } else {
            Some(pow_accumulate(b, c, sig << 11u64, k - 63))
        }
    }
}

/// Whether a pattern is an integral double of small magnitude: zero, or
/// a value whose fraction bits below the exponent's point are clear and
/// whose magnitude stays below the contiguous integer range.
pub open spec fn is_small_int_bits(b: u64) -> bool {
    let eb = (b >> 52u64) & 0x7FF;
    let m = b & FRAC_MASK;
    ||| is_zero_bits(b)
    ||| (1023 <= eb <= 1075 && (eb == 1075 || m & (((1u64 << ((1075 - eb) as u64)) - 1) as u64)
        == 0))
}

/// The integer magnitude of a small integral pattern.
pub open spec fn int_mag_of_bits(b: u64) -> u64 {
    let eb = (b >> 52u64) & 0x7FF;
    let m = b & FRAC_MASK;
    if is_zero_bits(b) {
        0u64
    } else {
        ((1u64 << 52u64) | m) >> ((1075 - eb) as u64)
    }
}

/// The display text of a number: plain sign and digits for a small
/// integral double, as the original rendered them, and the software
/// float's decimal rendering for everything else.
pub open spec fn number_text(b: u64) -> Seq<u8> {
    if is_small_int_bits(b) {
        (if sign_bit(b) {
            seq![45u8]
        } else {
            Seq::<u8>::empty()
        }) + crate::text::dec_spec(int_mag_of_bits(b) as nat)
    } else {
        decimal_of(b)
    }
}

/// Appends the display text of a number.
pub fn push_number_text(out: &mut Vec<u8>, b: u64)
    ensures
        final(out)@ == old(out)@ + number_text(b),
{
    let eb = (b >> 52u64) & 0x7FF;
    let m = b & FRAC_MASK;
    proof {
        assert(((b >> 52u64) & 0x7FF) < 0x800) by (bit_vector);
    }
    if number_is_zero(b) {
        if b & SIGN_MASK != 0 {
            out.push(45u8);
        }
        crate::text::push_dec(out, 0);
        proof {
            assert(out@ =~= old(out)@ + number_text(b));
        }
    } else if 1023 <= eb && eb <= 1075 && (eb == 1075 || {
        let shift = 1075 - eb;
        proof {
            assert(shift < 64 ==> (1u64 << shift) >= 1) by (bit_vector);
        }
        m & ((1u64 << shift) - 1) == 0
    }) {
        if b & SIGN_MASK != 0 {
            out.push(45u8);
        }
        let mag = ((1u64 << 52u64) | m) >> (1075 - eb);
        crate::text::push_dec(out, mag);
        proof {
            assert(out@ =~= old(out)@ + number_text(b));
        }
    } else {
        let digits = number_decimal(b);
        crate::text::push_bytes(out, &digits);
    }
}

/// Relies on rustc_apfloat's `Double` addition: correctly rounded
/// round-to-nearest-even IEEE-754 addition, a function of the two bit
/// patterns alone.
#[verifier::external_body]
pub fn number_add(a: u64, b: u64) -> (r: u64)
    ensures
        r == add_of(a, b),
{
    (Double::from_bits(a as u128) + Double::from_bits(b as u128)).value.to_bits() as u64
}

/// Relies on rustc_apfloat's `Double` subtraction: correctly rounded
/// IEEE-754 subtraction, a function of the two bit patterns alone.
#[verifier::external_body]
pub fn number_sub(a: u64, b: u64) -> (r: u64)
    ensures
        r == sub_of(a, b),
{
    (Double::from_bits(a as u128) - Double::from_bits(b as u128)).value.to_bits() as u64
}

/// Relies on rustc_apfloat's `Double` multiplication: correctly rounded
/// IEEE-754 multiplication, a function of the two bit patterns alone.
#[verifier::external_body]
pub fn number_mul(a: u64, b: u64) -> (r: u64)
    ensures
        r == mul_of(a, b),
{
    (Double::from_bits(a as u128) * Double::from_bits(b as u128)).value.to_bits() as u64
}

/// Relies on rustc_apfloat's `Double` division: correctly rounded IEEE-754
/// division, a function of the two bit patterns alone.
#[verifier::external_body]
pub fn number_div(a: u64, b: u64) -> (r: u64)
    ensures
        r == div_of(a, b),
{
    (Double::from_bits(a as u128) / Double::from_bits(b as u128)).value.to_bits() as u64
}

/// Relies on rustc_apfloat's `Double::c_fmod`: the exact IEEE-754 remainder
/// with the sign of the dividend, as C `fmod` computes it, a function of the
/// two bit patterns alone.
#[verifier::external_body]
pub fn number_fmod(a: u64, b: u64) -> (r: u64)
    ensures
        r == fmod_of(a, b),
{
    Double::from_bits(a as u128).c_fmod(Double::from_bits(b as u128)).value.to_bits() as u64
}

/// Relies on rustc_apfloat's `Double::from_u128`: correctly rounded
/// conversion of an unsigned integer, a function of the argument alone.
#[verifier::external_body]
pub fn number_of_length(n: usize) -> (r: u64)
    ensures
        r == number_of_len(n),
{
    Double::from_u128(n as u128).value.to_bits() as u64
}

/// Relies on rustc_apfloat's `Display` for `Double`: a decimal rendering
/// computed from the bit pattern alone (plain digits for small integral
/// values, scientific notation otherwise).
#[verifier::external_body]
pub fn number_decimal(b: u64) -> (r: Vec<u8>)
    ensures
        r@ == decimal_of(b),
{
    format!("{}", Double::from_bits(b as u128)).into_bytes()
}

} // verus!
