//! Arithmetic on 16-bit words: wrapping, the signed reading, the two
//! arithmetic flags and the shifts.

use vstd::arithmetic::div_mod::{
    lemma_basic_div, lemma_hoist_over_denominator, lemma_mod_multiples_basic,
};
use vstd::arithmetic::power2::{lemma2_to64, lemma_pow2_adds, lemma_pow2_pos, pow2};
use vstd::bits::{lemma_u32_pow2_no_overflow, lemma_u32_shl_is_mul};
use vstd::prelude::*;

verus! {

/// The word that `v` is modulo 2^16.
pub open spec fn wrapped(v: int) -> u16 {
    (v % 0x1_0000) as u16
}

/// The value of a word read as a signed number in two's complement.
pub open spec fn signed(x: u16) -> int {
    if x < 0x8000 {
        x as int
    } else {
        x - 0x1_0000
    }
}

/// Whether `v` lies outside the range of a signed word.
pub open spec fn beyond_signed(v: int) -> bool {
    v < -0x8000 || v > 0x7FFF
}

/// Whether `x` has its sign bit set.
pub open spec fn sign_bit(x: u16) -> bool {
    x & 0x8000 != 0
}

/// The rule of signs for an addition: the operands share a sign that the
/// result does not have.
pub open spec fn sign_rule_add(a: u16, b: u16, result: u16) -> bool {
    sign_bit(a) == sign_bit(b) && sign_bit(a) != sign_bit(result)
}

/// The rule of signs for a subtraction: the operands differ in sign, and
/// the result has not the sign of the first.
pub open spec fn sign_rule_sub(a: u16, b: u16, result: u16) -> bool {
    sign_bit(a) != sign_bit(b) && sign_bit(a) != sign_bit(result)
}

/// `x` shifted left by `count` bits. Bits that leave the word are lost, so
/// a count of 16 or more leaves nothing.
pub open spec fn shift_left(x: u16, count: u8) -> u16 {
    if count < 16 {
        x << count
    } else {
        0
    }
}

/// `x` shifted right by `count` bits as a signed number: the sign bit fills
/// the places that open at the top, so a count of 16 or more leaves the
/// sign in every bit.
pub open spec fn shift_right_signed(x: u16, count: u8) -> u16 {
    if count < 16 {
        if sign_bit(x) {
            (x >> count) | !(0xFFFFu16 >> count)
        } else {
            x >> count
        }
    } else if sign_bit(x) {
        0xFFFF
    } else {
        0
    }
}

/// The sign bit is set in exactly the words from 0x8000 on, which are the
/// words that read as negative numbers.
pub proof fn lemma_sign_bit(x: u16)
    ensures
        sign_bit(x) == (x >= 0x8000),
        sign_bit(x) == (signed(x) < 0),
{
    assert((x & 0x8000 != 0) == (x >= 0x8000)) by (bit_vector);
}

/// The flags of an addition. With `result` the wrapped sum of `a` and `b`:
/// the result is below the first operand exactly when the unsigned sum left
/// the 16 bits, and the rule of signs holds exactly when the signed sum left
/// the range of a signed word.
pub proof fn lemma_add_flags(a: u16, b: u16)
    ensures
        (wrapped(a + b) < a) == (a + b > 0xFFFF),
        sign_rule_add(a, b, wrapped(a + b)) == beyond_signed(signed(a) + signed(b)),
{
    lemma_sign_bit(a);
    lemma_sign_bit(b);
    lemma_sign_bit(wrapped(a + b));
}

/// The flags of a subtraction. With `result` the wrapped difference of `a`
/// and `b`: a borrow is needed exactly when `a` is below `b`, which is when
/// the unsigned difference left the 16 bits, and the rule of signs holds
/// exactly when the signed difference left the range of a signed word.
pub proof fn lemma_sub_flags(a: u16, b: u16)
    ensures
        (a < b) == (a - b < 0),
        (a < b) == (wrapped(a - b) > a),
        sign_rule_sub(a, b, wrapped(a - b)) == beyond_signed(signed(a) - signed(b)),
{
    lemma_sign_bit(a);
    lemma_sign_bit(b);
    lemma_sign_bit(wrapped(a - b));
}

/// A shift to the right by less than 16 bits is the shift of the word
/// taken as a signed number of 16 bits.
pub proof fn lemma_shift_right_is_signed_shift(x: u16, count: u8)
    requires
        count < 16,
    ensures
        shift_right_signed(x, count) == ((x as i16) >> count) as u16,
{
    assert(shift_right_signed(x, count) == ((x as i16) >> count) as u16) by (bit_vector)
        requires
            count < 16,
    ;
}

/// A shift to the left by `count` bits multiplies by 2^`count`, modulo 2^16.
pub proof fn lemma_shift_left_multiplies(x: u16, count: u8)
    ensures
        shift_left(x, count) == wrapped(x * pow2(count as nat)),
{
    lemma2_to64();
    if count < 16 {
        let c = count as u32;
        lemma_u32_pow2_no_overflow(c as nat);
        lemma_u32_shl_is_mul(1u32, c);
        let p = 1u32 << c;
        assert((x << count) as u32 == (x as u32 * p) % 0x1_0000) by (bit_vector)
            requires
                p == 1u32 << c,
                c == count as u32,
                count < 16,
        ;
    } else {
        let k = pow2((count - 16) as nat);
        lemma_pow2_adds(16, (count - 16) as nat);
        assert(x * (0x1_0000 * k) == (x * k) * 0x1_0000) by (nonlinear_arith);
        lemma_mod_multiples_basic(x * k, 0x1_0000);
    }
}

/// A shift to the right by `count` bits divides the signed value of the
/// word by 2^`count`, rounding towards minus infinity.
pub proof fn lemma_shift_right_divides(x: u16, count: u8)
    ensures
        signed(shift_right_signed(x, count)) == signed(x) / (pow2(count as nat) as int),
{
    lemma2_to64();
    lemma_sign_bit(x);
    lemma_sign_bit(shift_right_signed(x, count));
    lemma_shift_right_keeps_sign(x, count);
    let r = shift_right_signed(x, count);
    if count < 16 {
        let c = count as u32;
        lemma_u32_pow2_no_overflow(c as nat);
        lemma_u32_shl_is_mul(1u32, c);
        let p = 1u32 << c;
        if x < 0x8000 {
            assert((x >> count) as u32 == x as u32 / p) by (bit_vector)
                requires
                    p == 1u32 << c,
                    c == count as u32,
                    count < 16,
            ;
        } else {
            let q = 0x1_0000u32 / p;
            assert(((x >> count) | !(0xFFFFu16 >> count)) as u32 == x as u32 / p + (0x1_0000u32
                - q) && q * p == 0x1_0000u32) by (bit_vector)
                requires
                    p == 1u32 << c,
                    c == count as u32,
                    count < 16,
                    q == 0x1_0000u32 / p,
            ;
            lemma_hoist_over_denominator(x as int, -(q as int), p as nat);
            assert(x + (-(q as int)) * p == x - 0x1_0000) by (nonlinear_arith)
                requires
                    q * p == 0x1_0000,
            ;
        }
    } else {
        let d = pow2(count as nat) as int;
        let k = pow2((count - 16) as nat);
        lemma_pow2_adds(16, (count - 16) as nat);
        lemma_pow2_pos((count - 16) as nat);
        assert(d >= 0x1_0000) by (nonlinear_arith)
            requires
                d == 0x1_0000 * k,
                k >= 1,
        ;
        if x < 0x8000 {
            lemma_basic_div(x as int, d);
        } else {
            // A negative value above minus the divisor has the quotient -1.
            lemma_hoist_over_denominator(signed(x), 1, d as nat);
            lemma_basic_div(signed(x) + d, d);
        }
    }
}

/// A shift to the right keeps the sign: the result reads as negative exactly
/// when the word did.
pub proof fn lemma_shift_right_keeps_sign(x: u16, count: u8)
    ensures
        sign_bit(shift_right_signed(x, count)) == sign_bit(x),
{
    assert(sign_bit(shift_right_signed(x, count)) == sign_bit(x)) by (bit_vector);
}

/// The shifted word, bits leaving at the top.
pub fn shl_word(x: u16, count: u8) -> (r: u16)
    ensures
        r == shift_left(x, count),
{
    if count < 16 {
        x << count
    } else {
        0
    }
}

/// The shifted word, the sign bit filling in at the top.
pub fn sar_word(x: u16, count: u8) -> (r: u16)
    ensures
        r == shift_right_signed(x, count),
{
    let negative = (x & 0x8000) != 0;
    if count < 16 {
        if negative {
            (x >> count) | !(0xFFFFu16 >> count)
        } else {
            x >> count
        }
    } else if negative {
        0xFFFF
    } else {
        0
    }
}

} // verus!
