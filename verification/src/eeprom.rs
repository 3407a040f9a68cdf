//! The calibration block of the sensor and the coefficients it holds.
//!
//! Coefficients that the sensor defines as fractions are kept exact, as a
//! whole numerator over a power of two.

#![allow(non_snake_case)]

use vstd::prelude::*;
use vstd::arithmetic::power2::{lemma2_to64, pow2};
use crate::bits::{bit_field, field, signed_bit_field, signed_field};

verus! {

/// Number of 16-bit words in the calibration block.
pub const EEPROM_SIZE: usize = 816;

/// Number of bytes in the calibration block.
pub const EEPROM_BYTES: usize = 1632;

/// Bus address of the first word of the calibration block.
pub const EEPROM_BASE: u16 = 0x2410;

/// Bus address of the calibration word of the first pixel.
pub const EEPROM_PIXELS: u16 = 0x2440;

/// The fraction `numerator / 2^exponent`.
#[derive(Clone, Copy, Debug, PartialEq, Eq)]
pub struct Dyadic {
    pub numerator: i32,
    pub exponent: u32,
}

/// The word of the calibration block that the sensor keeps at bus address
/// `address`.
pub open spec fn word(eeprom: Seq<u16>, address: int) -> int {
    eeprom[address - 0x2410] as int
}

/// `value` times two to the power `exponent`.
pub open spec fn scaled(value: int, exponent: int) -> int {
    value * pow2(exponent as nat)
}

/// The words that a block of bytes holds, each word's most significant byte
/// first.
pub open spec fn words_of(bytes: Seq<u8>) -> Seq<u16> {
    Seq::new((bytes.len() / 2) as nat, |i: int| (bytes[2 * i] * 256 + bytes[2 * i + 1]) as u16)
}

/// Puts the bytes read from the sensor together into words, most significant
/// byte first.
pub fn read_eeprom(d: [u8; EEPROM_BYTES]) -> (converted: [u16; EEPROM_SIZE])
    ensures
        converted@ == words_of(d@),
{
    let mut converted: [u16; EEPROM_SIZE] = [0; EEPROM_SIZE];
    let mut i: usize = 0;
    while i < EEPROM_SIZE
        invariant
            i <= EEPROM_SIZE,
            forall|k: int| 0 <= k < i ==> #[trigger] converted[k] == d[2 * k] * 256 + d[2 * k + 1],
        decreases EEPROM_SIZE - i,
    {
        let msb: u16 = d[i * 2] as u16;
        let lsb: u16 = d[i * 2 + 1] as u16;
        converted[i] = msb * 256 + lsb;
        i += 1;
    }
    assert(converted@ =~= words_of(d@));
    converted
}

/// The word of the calibration block at bus address `address`.
pub fn get_eeprom_val(address: u16, eeprom_raw: [u16; EEPROM_SIZE]) -> (val: u16)
    requires
        0x2410 <= address < 0x2410 + EEPROM_SIZE,
    ensures
        val == word(eeprom_raw@, address as int),
{
    let index: usize = (address - EEPROM_BASE) as usize;
    eeprom_raw[index]
}

/// `K_Vdd`: the signed upper byte of word 0x2433, times 32.
pub open spec fn k_vdd(eeprom: Seq<u16>) -> int {
    signed_field(word(eeprom, 0x2433), 8, 8) * 32
}

/// `VDD_25`: the lower byte of word 0x2433 less 256, times 32, less 8192.
pub open spec fn vdd_25(eeprom: Seq<u16>) -> int {
    (field(word(eeprom, 0x2433), 0, 8) - 256) * 32 - 8192
}

/// Restores the supply voltage coefficient `K_Vdd`.
pub fn restore_K_Vdd(eeprom_raw: [u16; EEPROM_SIZE]) -> (K_Vdd: i32)
    ensures
        K_Vdd == k_vdd(eeprom_raw@),
{
    proof {
        lemma2_to64();
    }
    signed_bit_field(get_eeprom_val(0x2433, eeprom_raw), 8, 8) * 32
}

/// Restores the supply voltage reference `VDD_25`.
pub fn restore_VDD_25(eeprom_raw: [u16; EEPROM_SIZE]) -> (VDD_25: i32)
    ensures
        VDD_25 == vdd_25(eeprom_raw@),
{
    proof {
        lemma2_to64();
    }
    let raw: i32 = bit_field(get_eeprom_val(0x2433, eeprom_raw), 0, 8) as i32;
    (raw - 256) * 32 - 8192
}

/// Numerator of `K_V_PTAT` over 2^12: the signed upper six bits of word 0x2432.
pub open spec fn k_v_ptat(eeprom: Seq<u16>) -> int {
    signed_field(word(eeprom, 0x2432), 10, 6)
}

/// Numerator of `K_T_PTAT` over 2^3: the signed lower ten bits of word 0x2432.
pub open spec fn k_t_ptat(eeprom: Seq<u16>) -> int {
    signed_field(word(eeprom, 0x2432), 0, 10)
}

/// `V_PTAT_25`: word 0x2431 read as a signed number.
pub open spec fn v_ptat_25(eeprom: Seq<u16>) -> int {
    signed_field(word(eeprom, 0x2431), 0, 16)
}

/// Numerator of `Alpha_PTAT` over 2^2: the upper four bits of word 0x2410
/// are quarters above the base value 8.
pub open spec fn alpha_ptat(eeprom: Seq<u16>) -> int {
    field(word(eeprom, 0x2410), 12, 4) + 32
}

/// Restores the coefficients of the ambient temperature sensor.
pub fn restore_T_a(
    K_V_PTAT: &mut Dyadic,
    K_T_PTAT: &mut Dyadic,
    V_PTAT_25: &mut i32,
    Alpha_PTAT: &mut Dyadic,
    eeprom_raw: [u16; EEPROM_SIZE],
)
    ensures
        final(K_V_PTAT).numerator == k_v_ptat(eeprom_raw@),
        final(K_V_PTAT).exponent == 12,
        final(K_T_PTAT).numerator == k_t_ptat(eeprom_raw@),
        final(K_T_PTAT).exponent == 3,
        *final(V_PTAT_25) == v_ptat_25(eeprom_raw@),
        final(Alpha_PTAT).numerator == alpha_ptat(eeprom_raw@),
        final(Alpha_PTAT).exponent == 2,
{
    proof {
        lemma2_to64();
    }
    let ptat: u16 = get_eeprom_val(0x2432, eeprom_raw);
    *K_V_PTAT = Dyadic { numerator: signed_bit_field(ptat, 10, 6), exponent: 12 };
    *K_T_PTAT = Dyadic { numerator: signed_bit_field(ptat, 0, 10), exponent: 3 };
    *V_PTAT_25 = signed_bit_field(get_eeprom_val(0x2431, eeprom_raw), 0, 16);
    let Alpha_PTAT_EE: i32 = bit_field(get_eeprom_val(0x2410, eeprom_raw), 12, 4) as i32;
    *Alpha_PTAT = Dyadic { numerator: Alpha_PTAT_EE + 32, exponent: 2 };
}

/// `GAIN`: word 0x2430 read as a signed number.
pub open spec fn gain(eeprom: Seq<u16>) -> int {
    signed_field(word(eeprom, 0x2430), 0, 16)
}

/// Restores the gain that the sensor was calibrated at.
pub fn restore_gain(eeprom_raw: [u16; EEPROM_SIZE]) -> (gain: i32)
    ensures
        gain == self::gain(eeprom_raw@),
{
    signed_bit_field(get_eeprom_val(0x2430, eeprom_raw), 0, 16)
}

/// Numerator of `Ks_Ta` over 2^13: the signed upper byte of word 0x243C.
pub open spec fn ks_ta(eeprom: Seq<u16>) -> int {
    signed_field(word(eeprom, 0x243C), 8, 8)
}

/// Restores the ambient temperature coefficient of the sensitivity.
pub fn restore_Ks_Ta(eeprom_raw: [u16; EEPROM_SIZE]) -> (Ks_Ta: Dyadic)
    ensures
        Ks_Ta.numerator == ks_ta(eeprom_raw@),
        Ks_Ta.exponent == 13,
{
    Dyadic { numerator: signed_bit_field(get_eeprom_val(0x243C, eeprom_raw), 8, 8), exponent: 13 }
}

/// The step between corner temperatures, in degrees: ten times bits 12 and
/// 13 of word 0x243F.
pub open spec fn step(eeprom: Seq<u16>) -> int {
    field(word(eeprom, 0x243F), 12, 2) * 10
}

/// The corner temperature `CT3` for a given step: bits 4 to 7 of word 0x243F
/// count the steps above zero.
pub open spec fn ct3(step: int, eeprom: Seq<u16>) -> int {
    field(word(eeprom, 0x243F), 4, 4) * step
}

/// The corner temperature `CT4` for a given step and `CT3`: bits 8 to 11 of
/// word 0x243F count the steps above `CT3`.
pub open spec fn ct4(step: int, ct3: int, eeprom: Seq<u16>) -> int {
    field(word(eeprom, 0x243F), 8, 4) * step + ct3
}

/// Restores the step between corner temperatures.
pub fn restore_Step(eeprom_raw: [u16; EEPROM_SIZE]) -> (Step: i32)
    ensures
        Step == step(eeprom_raw@),
        0 <= Step <= 30,
{
    proof {
        lemma2_to64();
    }
    bit_field(get_eeprom_val(0x243F, eeprom_raw), 12, 2) as i32 * 10
}

/// Restores the corner temperature `CT3` for the step `Step`.
pub fn restore_CT3(Step: i32, eeprom_raw: [u16; EEPROM_SIZE]) -> (CT3: i32)
    requires
        i32::MIN <= ct3(Step as int, eeprom_raw@) <= i32::MAX,
    ensures
        CT3 == ct3(Step as int, eeprom_raw@),
{
    bit_field(get_eeprom_val(0x243F, eeprom_raw), 4, 4) as i32 * Step
}

/// Restores the corner temperature `CT4` for the step `Step` and the corner `CT3`.
pub fn restore_CT4(Step: i32, CT3: i32, eeprom_raw: [u16; EEPROM_SIZE]) -> (CT4: i32)
    requires
        i32::MIN <= ct4(Step as int, 0, eeprom_raw@) <= i32::MAX,
        i32::MIN <= ct4(Step as int, CT3 as int, eeprom_raw@) <= i32::MAX,
    ensures
        CT4 == ct4(Step as int, CT3 as int, eeprom_raw@),
{
    bit_field(get_eeprom_val(0x243F, eeprom_raw), 8, 4) as i32 * Step + CT3
}

/// The exponent that the four `Ks_To` coefficients share: the lower four
/// bits of word 0x243F, plus 8.
pub open spec fn ks_to_scale(eeprom: Seq<u16>) -> int {
    field(word(eeprom, 0x243F), 0, 4) + 8
}

/// Numerator of the `Ks_To` coefficient of temperature range `range`, from 0
/// to 3: the signed bytes of words 0x243D and 0x243E, lower byte first.
pub open spec fn ks_to(eeprom: Seq<u16>, range: int) -> int {
    signed_field(word(eeprom, 0x243D + range / 2), (8 * (range % 2)) as nat, 8)
}

/// Restores the sensitivity coefficients of the four temperature ranges, the
/// coldest range first.
pub fn restore_Ks_To(eeprom_raw: [u16; EEPROM_SIZE]) -> (Ks_To: (Dyadic, Dyadic, Dyadic, Dyadic))
    ensures
        Ks_To.0.numerator == ks_to(eeprom_raw@, 0),
        Ks_To.1.numerator == ks_to(eeprom_raw@, 1),
        Ks_To.2.numerator == ks_to(eeprom_raw@, 2),
        Ks_To.3.numerator == ks_to(eeprom_raw@, 3),
        Ks_To.0.exponent == ks_to_scale(eeprom_raw@),
        Ks_To.1.exponent == ks_to_scale(eeprom_raw@),
        Ks_To.2.exponent == ks_to_scale(eeprom_raw@),
        Ks_To.3.exponent == ks_to_scale(eeprom_raw@),
{
    proof {
        lemma2_to64();
    }
    let Ks_To_scale: u32 = bit_field(get_eeprom_val(0x243F, eeprom_raw), 0, 4) as u32 + 8;
    let low: u16 = get_eeprom_val(0x243D, eeprom_raw);
    let high: u16 = get_eeprom_val(0x243E, eeprom_raw);
    let Ks_To1 = Dyadic { numerator: signed_bit_field(low, 0, 8), exponent: Ks_To_scale };
    let Ks_To2 = Dyadic { numerator: signed_bit_field(low, 8, 8), exponent: Ks_To_scale };
    let Ks_To3 = Dyadic { numerator: signed_bit_field(high, 0, 8), exponent: Ks_To_scale };
    let Ks_To4 = Dyadic { numerator: signed_bit_field(high, 8, 8), exponent: Ks_To_scale };
    (Ks_To1, Ks_To2, Ks_To3, Ks_To4)
}

/// The exponent of the sensitivity of the first compensation pixel: the
/// upper four bits of word 0x2420, plus 27.
pub open spec fn a_cp_scale(eeprom: Seq<u16>) -> int {
    field(word(eeprom, 0x2420), 12, 4) + 27
}

/// Numerator of the sensitivity of the first compensation pixel: the lower
/// ten bits of word 0x2439.
pub open spec fn a_cp_0(eeprom: Seq<u16>) -> int {
    field(word(eeprom, 0x2439), 0, 10)
}

/// The ratio between the sensitivities of the two compensation pixels, in
/// 128ths above one: the signed upper six bits of word 0x2439.
pub open spec fn cp_ratio(eeprom: Seq<u16>) -> int {
    signed_field(word(eeprom, 0x2439), 10, 6)
}

/// Restores the sensitivities of the two compensation pixels. The second is
/// the first times `1 + ratio / 2^7`, so its exponent is 7 higher.
pub fn restore_a_CP(eeprom_raw: [u16; EEPROM_SIZE]) -> (a_CP: (Dyadic, Dyadic))
    ensures
        a_CP.0.numerator == a_cp_0(eeprom_raw@),
        a_CP.0.exponent == a_cp_scale(eeprom_raw@),
        a_CP.1.numerator == a_cp_0(eeprom_raw@) * (128 + cp_ratio(eeprom_raw@)),
        a_CP.1.exponent == a_cp_scale(eeprom_raw@) + 7,
        0 <= a_CP.0.numerator < 1024,
        0 <= a_CP.1.numerator <= 1024 * 160,
{
    proof {
        lemma2_to64();
    }
    let a_scale_CP: u32 = bit_field(get_eeprom_val(0x2420, eeprom_raw), 12, 4) as u32 + 27;
    let cp: u16 = get_eeprom_val(0x2439, eeprom_raw);
    let CP_P1_P0_ratio: i32 = signed_bit_field(cp, 10, 6);
    let a_CP_0_EE: i32 = bit_field(cp, 0, 10) as i32;
    let factor: i32 = 128 + CP_P1_P0_ratio;
    assert(0 <= a_CP_0_EE * factor <= 1024 * 160) by (nonlinear_arith)
        requires
            0 <= a_CP_0_EE < 1024,
            96 <= factor < 160,
    ;
    let a_CP_0 = Dyadic { numerator: a_CP_0_EE, exponent: a_scale_CP };
    let a_CP_1 = Dyadic { numerator: a_CP_0_EE * factor, exponent: a_scale_CP + 7 };
    (a_CP_0, a_CP_1)
}

/// Offset of the first compensation pixel: the signed lower ten bits of word
/// 0x243A.
pub open spec fn off_cp_0(eeprom: Seq<u16>) -> int {
    signed_field(word(eeprom, 0x243A), 0, 10)
}

/// Offset of the second compensation pixel: the signed upper six bits of
/// word 0x243A are its distance from the first.
pub open spec fn off_cp_1(eeprom: Seq<u16>) -> int {
    off_cp_0(eeprom) + signed_field(word(eeprom, 0x243A), 10, 6)
}

/// Restores the offsets of the two compensation pixels.
pub fn restore_Off_CP(eeprom_raw: [u16; EEPROM_SIZE]) -> (Off_CP: (i32, i32))
    ensures
        Off_CP.0 == off_cp_0(eeprom_raw@),
        Off_CP.1 == off_cp_1(eeprom_raw@),
{
    proof {
        lemma2_to64();
    }
    let cp: u16 = get_eeprom_val(0x243A, eeprom_raw);
    let Off_CP_0: i32 = signed_bit_field(cp, 0, 10);
    let Off_CP_1_delta: i32 = signed_bit_field(cp, 10, 6);
    (Off_CP_0, Off_CP_0 + Off_CP_1_delta)
}

/// The exponent that the `K_V` coefficients share: bits 8 to 11 of word
/// 0x2438.
pub open spec fn k_v_scale(eeprom: Seq<u16>) -> int {
    field(word(eeprom, 0x2438), 8, 4)
}

/// The exponent that the `K_Ta` coefficients share: bits 4 to 7 of word
/// 0x2438, plus 8.
pub open spec fn k_ta_scale1(eeprom: Seq<u16>) -> int {
    field(word(eeprom, 0x2438), 4, 4) + 8
}

/// The exponent by which the per-pixel part of `K_Ta` is scaled up: the
/// lower four bits of word 0x2438.
pub open spec fn k_ta_scale2(eeprom: Seq<u16>) -> int {
    field(word(eeprom, 0x2438), 0, 4)
}

/// Numerator of `K_V_CP` over 2^`k_v_scale`: the signed upper byte of word
/// 0x243B.
pub open spec fn k_v_cp(eeprom: Seq<u16>) -> int {
    signed_field(word(eeprom, 0x243B), 8, 8)
}

/// Numerator of `K_Ta_CP` over 2^`k_ta_scale1`: the signed lower byte of
/// word 0x243B.
pub open spec fn k_ta_cp(eeprom: Seq<u16>) -> int {
    signed_field(word(eeprom, 0x243B), 0, 8)
}

/// Restores the supply voltage coefficient of the compensation pixels.
pub fn restore_K_V_CP(eeprom_raw: [u16; EEPROM_SIZE]) -> (K_V_CP: Dyadic)
    ensures
        K_V_CP.numerator == k_v_cp(eeprom_raw@),
        K_V_CP.exponent == k_v_scale(eeprom_raw@),
{
    let K_V_Scale: u32 = bit_field(get_eeprom_val(0x2438, eeprom_raw), 8, 4) as u32;
    Dyadic {
        numerator: signed_bit_field(get_eeprom_val(0x243B, eeprom_raw), 8, 8),
        exponent: K_V_Scale,
    }
}

/// Restores the ambient temperature coefficient of the compensation pixels.
pub fn restore_K_Ta_CP(eeprom_raw: [u16; EEPROM_SIZE]) -> (K_Ta_CP: Dyadic)
    ensures
        K_Ta_CP.numerator == k_ta_cp(eeprom_raw@),
        K_Ta_CP.exponent == k_ta_scale1(eeprom_raw@),
{
    proof {
        lemma2_to64();
    }
    let K_Ta_scale_1: u32 = bit_field(get_eeprom_val(0x2438, eeprom_raw), 4, 4) as u32 + 8;
    Dyadic {
        numerator: signed_bit_field(get_eeprom_val(0x243B, eeprom_raw), 0, 8),
        exponent: K_Ta_scale_1,
    }
}

/// Numerator of `TGC` over 2^5: the signed lower byte of word 0x243C.
pub open spec fn tgc(eeprom: Seq<u16>) -> int {
    signed_field(word(eeprom, 0x243C), 0, 8)
}

/// Restores the gradient compensation coefficient.
pub fn restore_TGC(eeprom_raw: [u16; EEPROM_SIZE]) -> (TGC: Dyadic)
    ensures
        TGC.numerator == tgc(eeprom_raw@),
        TGC.exponent == 5,
{
    Dyadic { numerator: signed_bit_field(get_eeprom_val(0x243C, eeprom_raw), 0, 8), exponent: 5 }
}

/// The resolution code that the sensor was calibrated at: bits 12 and 13 of
/// word 0x2438.
pub open spec fn resolution(eeprom: Seq<u16>) -> int {
    field(word(eeprom, 0x2438), 12, 2)
}

/// Restores the resolution code that the sensor was calibrated at.
pub fn restore_Resolution(eeprom_raw: [u16; EEPROM_SIZE]) -> (Resolution: u16)
    ensures
        Resolution == resolution(eeprom_raw@),
        Resolution < 4,
{
    proof {
        lemma2_to64();
    }
    bit_field(get_eeprom_val(0x2438, eeprom_raw), 12, 2)
}

} // verus!
