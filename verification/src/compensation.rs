//! The whole-number side of temperature compensation: the signed reading
//! of registers and pixels, the correction for the resolution, and the
//! choice of the temperature range.

#![allow(non_snake_case)]

use vstd::prelude::*;
use vstd::arithmetic::power2::{lemma2_to64, pow2};
use crate::bits::{bit_field, field, sign_extend, signed, two_pow};
use crate::eeprom::Dyadic;
use crate::PIXEL_COUNT;

verus! {

/// Reads a register as a signed 16-bit number.
pub fn signed_register(raw: u16) -> (value: i32)
    ensures
        value == signed(raw as int, 16),
        -32768 <= value <= 32767,
{
    proof {
        lemma2_to64();
    }
    sign_extend(raw, 16)
}

/// The correction for a measurement taken at another resolution than the
/// calibration: two to the power of the calibrated resolution code, over
/// two to the power of the code in bits 10 and 11 of the control register.
pub fn resolution_correction(resolution: u16, control: u16) -> (correction: Dyadic)
    requires
        resolution < 4,
    ensures
        correction.numerator == pow2(resolution as nat),
        correction.exponent == field(control as int, 10, 2),
{
    proof {
        lemma2_to64();
    }
    Dyadic {
        numerator: two_pow(resolution as u32) as i32,
        exponent: bit_field(control, 10, 2) as u32,
    }
}

/// Reads every raw pixel as a signed 16-bit number.
pub fn signed_pixels(pixel_data: [u16; PIXEL_COUNT]) -> (values: [i32; PIXEL_COUNT])
    ensures
        forall|p: int|
            0 <= p < PIXEL_COUNT ==> #[trigger] values[p] == signed(pixel_data[p] as int, 16),
{
    let mut values: [i32; PIXEL_COUNT] = [0; PIXEL_COUNT];
    let mut index: usize = 0;
    while index < PIXEL_COUNT
        invariant
            index <= PIXEL_COUNT,
            forall|p: int|
                0 <= p < index ==> #[trigger] values[p] == signed(pixel_data[p] as int, 16),
        decreases PIXEL_COUNT - index,
    {
        let value: i32 = signed_register(pixel_data[index]);
        values[index] = value;
        index += 1;
    }
    values
}

/// A temperature range: its number, from 0 for the coldest to 3 for the
/// hottest, and the corner temperature at its lower end.
#[derive(Clone, Copy, Debug, PartialEq, Eq, Structural)]
pub struct Range {
    pub index: usize,
    pub corner: i32,
}

/// The number of the range of a temperature: 0 below zero degrees, 1 from
/// zero to below `ct3`, 2 from `ct3` to below `ct4`, 3 from `ct4` on.
pub open spec fn range_index(temperature: int, ct3: int, ct4: int) -> int {
    if temperature < 0 {
        0
    } else if temperature < ct3 {
        1
    } else if temperature < ct4 {
        2
    } else {
        3
    }
}

/// The corner temperature at the lower end of range `index`.
pub open spec fn range_corner(index: int, ct3: int, ct4: int) -> int {
    if index == 0 {
        -40
    } else if index == 1 {
        0
    } else if index == 2 {
        ct3
    } else {
        ct4
    }
}

/// Selects the range of a temperature estimate. `T_o` is the estimate in
/// whole degrees, rounded down: the corners are whole degrees, so an
/// estimate lies in the range of its whole part.
pub fn select_range(T_o: i32, CT3: i32, CT4: i32) -> (range: Range)
    ensures
        range.index == range_index(T_o as int, CT3 as int, CT4 as int),
        range.corner == range_corner(range.index as int, CT3 as int, CT4 as int),
{
    if T_o < 0 {
        Range { index: 0, corner: -40 }
    } else if T_o < CT3 {
        Range { index: 1, corner: 0 }
    } else if T_o < CT4 {
        Range { index: 2, corner: CT3 }
    } else {
        Range { index: 3, corner: CT4 }
    }
}

/// The range changes exactly at zero, at `ct3` and at `ct4`: the last whole
/// degree below a corner lies in the range below it, the corner itself in
/// the range above.
pub proof fn lemma_range_switches_at_corners(ct3: int, ct4: int)
    requires
        0 < ct3 < ct4,
    ensures
        range_index(-1, ct3, ct4) == 0,
        range_index(0, ct3, ct4) == 1,
        range_index(ct3 - 1, ct3, ct4) == 1,
        range_index(ct3, ct3, ct4) == 2,
        range_index(ct4 - 1, ct3, ct4) == 2,
        range_index(ct4, ct3, ct4) == 3,
{
}

/// A warmer estimate never lies in a colder range, and every estimate lies
/// at or above the corner of its range, but for the coldest range, which
/// has no lower end.
pub proof fn lemma_range_rises(colder: int, warmer: int, ct3: int, ct4: int)
    requires
        0 <= ct3 <= ct4,
        colder <= warmer,
    ensures
        range_index(colder, ct3, ct4) <= range_index(warmer, ct3, ct4),
        range_index(colder, ct3, ct4) > 0 ==> range_corner(
            range_index(colder, ct3, ct4),
            ct3,
            ct4,
        ) <= colder,
{
}

} // verus!
