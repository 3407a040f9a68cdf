//! Bit fields of 16-bit words and their two's-complement reading.

use vstd::prelude::*;
use vstd::arithmetic::div_mod::{
    lemma_fundamental_div_mod_converse, lemma_mod_bound, lemma_small_mod,
};
use vstd::arithmetic::power2::{
    lemma2_to64, lemma_pow2_adds, lemma_pow2_pos, lemma_pow2_strictly_increases,
    lemma_pow2_unfold, pow2,
};
use vstd::bits::{
    lemma_u32_low_bits_mask_is_mod, lemma_u32_shl_is_mul, lemma_u32_shr_is_div, low_bits_mask,
};

verus! {

/// The unsigned number held by the `width` bits of `word` that start `shift`
/// bits above the least significant one.
pub open spec fn field(word: int, shift: nat, width: nat) -> int {
    (word / (pow2(shift) as int)) % (pow2(width) as int)
}

/// The two's-complement reading of a raw `width`-bit number: raw values in
/// the upper half of the range stand for the negative numbers.
pub open spec fn signed(raw: int, width: nat) -> int {
    if raw >= pow2((width - 1) as nat) {
        raw - pow2(width)
    } else {
        raw
    }
}

/// The raw `width`-bit number that stands for `value` in two's complement.
pub open spec fn raw_of(value: int, width: nat) -> int {
    value % (pow2(width) as int)
}

/// The signed number held by a bit field.
pub open spec fn signed_field(word: int, shift: nat, width: nat) -> int {
    signed(field(word, shift, width), width)
}

/// Two to the power `exponent`.
pub fn two_pow(exponent: u32) -> (power: u32)
    requires
        exponent < 32,
    ensures
        power == pow2(exponent as nat),
{
    proof {
        lemma_pow2_strictly_increases(exponent as nat, 32);
        lemma2_to64();
        lemma_u32_shl_is_mul(1, exponent);
    }
    1u32 << exponent
}

/// Reads the `width` bits of `word` that start at bit `shift`.
pub fn bit_field(word: u16, shift: u32, width: u32) -> (raw: u16)
    requires
        shift + width <= 16,
    ensures
        raw == field(word as int, shift as nat, width as nat),
        raw < pow2(width as nat),
{
    let wide: u32 = word as u32;
    let size: u32 = two_pow(width);
    proof {
        lemma_pow2_pos(width as nat);
    }
    let mask: u32 = size - 1;
    let shifted: u32 = wide >> shift;
    let raw: u32 = shifted & mask;
    proof {
        lemma2_to64();
        lemma_pow2_strictly_increases(width as nat, 17);
        lemma_u32_shr_is_div(wide, shift);
        assert(mask == low_bits_mask(width as nat) as u32);
        lemma_u32_low_bits_mask_is_mod(shifted, width as nat);
        lemma_mod_bound(shifted as int, pow2(width as nat) as int);
    }
    raw as u16
}

/// Reads a raw `width`-bit number as two's complement.
pub fn sign_extend(raw: u16, width: u32) -> (value: i32)
    requires
        1 <= width <= 16,
        raw < pow2(width as nat),
    ensures
        value == signed(raw as int, width as nat),
        -pow2((width - 1) as nat) <= value < pow2((width - 1) as nat),
{
    let half: u32 = two_pow(width - 1);
    proof {
        lemma2_to64();
        lemma_pow2_unfold(width as nat);
        lemma_pow2_strictly_increases((width - 1) as nat, 16);
    }
    if raw as u32 >= half {
        raw as i32 - (half as i32) - (half as i32)
    } else {
        raw as i32
    }
}

/// Reads the `width` bits of `word` that start at bit `shift` as a
/// two's-complement number.
pub fn signed_bit_field(word: u16, shift: u32, width: u32) -> (value: i32)
    requires
        1 <= width,
        shift + width <= 16,
    ensures
        value == signed_field(word as int, shift as nat, width as nat),
        -pow2((width - 1) as nat) <= value < pow2((width - 1) as nat),
{
    sign_extend(bit_field(word, shift, width), width)
}

/// A raw value below half of its range reads unchanged; one at or above half
/// reads as the raw value less the size of the range, which is negative.
/// Either way the reading lies in the signed range of the width.
pub proof fn lemma_signed_reading(raw: int, width: nat)
    requires
        1 <= width,
        0 <= raw < pow2(width),
    ensures
        raw < pow2((width - 1) as nat) ==> signed(raw, width) == raw,
        raw >= pow2((width - 1) as nat) ==> signed(raw, width) == raw - pow2(width) && signed(
            raw,
            width,
        ) < 0,
        -pow2((width - 1) as nat) <= signed(raw, width) < pow2((width - 1) as nat),
{
    lemma_pow2_unfold(width);
}

/// The thresholds of the field widths that the calibration block uses: a
/// 4-bit field above 7 has 16 subtracted, a 5-bit field above 15 has 32
/// subtracted, a 6-bit field above 31 has 64 subtracted, and a 10-bit field
/// above 511 has 1024 subtracted; likewise fields of 3, 8 and 16 bits with
/// their thresholds. Smaller raw values read unchanged.
pub proof fn lemma_signed_thresholds(raw: int)
    ensures
        signed(raw, 3) == if raw > 3 { raw - 8 } else { raw },
        signed(raw, 4) == if raw > 7 { raw - 16 } else { raw },
        signed(raw, 5) == if raw > 15 { raw - 32 } else { raw },
        signed(raw, 6) == if raw > 31 { raw - 64 } else { raw },
        signed(raw, 8) == if raw > 127 { raw - 256 } else { raw },
        signed(raw, 10) == if raw > 511 { raw - 1024 } else { raw },
        signed(raw, 16) == if raw > 32767 { raw - 65536 } else { raw },
{
    lemma2_to64();
}

/// Writing a number of the signed range in two's complement and reading it
/// back gives the number again.
pub proof fn lemma_signed_round_trip(value: int, width: nat)
    requires
        1 <= width,
        -pow2((width - 1) as nat) <= value < pow2((width - 1) as nat),
    ensures
        0 <= raw_of(value, width) < pow2(width),
        signed(raw_of(value, width), width) == value,
{
    lemma_pow2_unfold(width);
    lemma_pow2_pos(width);
    let size = pow2(width) as int;
    if value >= 0 {
        lemma_small_mod(value as nat, size as nat);
    } else {
        lemma_small_mod((value + size) as nat, size as nat);
        lemma_fundamental_div_mod_converse(value, size, -1, value + size);
    }
}

/// A word put together from a field's value, the bits below it and the bits
/// above it gives that value back when the field is read.
pub proof fn lemma_field_of_packed(low: int, raw: int, high: int, shift: nat, width: nat)
    requires
        0 <= low < pow2(shift),
        0 <= raw < pow2(width),
        0 <= high,
    ensures
        field(low + raw * pow2(shift) + high * pow2(shift + width), shift, width) == raw,
{
    let unit = pow2(shift) as int;
    let size = pow2(width) as int;
    let word = low + raw * unit + high * pow2(shift + width);
    lemma_pow2_pos(shift);
    lemma_pow2_pos(width);
    lemma_pow2_adds(shift, width);
    let upper = raw + high * size;
    assert(word == unit * upper + low) by (nonlinear_arith)
        requires
            word == low + raw * unit + high * (unit * size),
            upper == raw + high * size,
    ;
    assert(0 <= upper) by (nonlinear_arith)
        requires
            upper == raw + high * size,
            0 <= raw,
            0 <= high,
            0 < size,
    ;
    lemma_fundamental_div_mod_converse(word, unit, upper, low);
    assert(upper == size * high + raw) by (nonlinear_arith)
        requires
            upper == raw + high * size,
    ;
    lemma_fundamental_div_mod_converse(upper, size, high, raw);
}

} // verus!
