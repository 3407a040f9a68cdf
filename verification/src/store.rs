//! The calibration store: every coefficient of one calibration block.

#![allow(non_snake_case)]

use vstd::prelude::*;
use vstd::arithmetic::power2::lemma2_to64;
use crate::bits::field;
use crate::eeprom::{
    a_cp_0, a_cp_scale, alpha_ptat, cp_ratio, ct3, ct4, gain, k_t_ptat, k_ta_cp, k_ta_scale1,
    k_v_cp, k_v_ptat, k_v_scale, k_vdd, ks_ta, ks_to, ks_to_scale, off_cp_0, off_cp_1, read_eeprom,
    resolution, restore_CT3, restore_CT4, restore_K_Ta_CP, restore_K_V_CP, restore_K_Vdd,
    restore_Ks_Ta, restore_Ks_To, restore_Off_CP, restore_Resolution, restore_Step, restore_TGC,
    restore_T_a, restore_VDD_25, restore_a_CP, restore_gain, step, tgc, v_ptat_25, vdd_25,
    word, words_of, Dyadic, EEPROM_BYTES, EEPROM_SIZE,
};
use crate::error::{BusError, CalibrationError};
use crate::pixels::{
    a, a_scale, checkerboard, is_exact, k_ta, k_v, outliers, pix_os_ref, restore_K_Ta, restore_K_V,
    restore_a, restore_bad_pixels, restore_offset, restore_pattern, DyadicGrid,
};
use crate::PIXEL_COUNT;

verus! {

/// The coefficients of one sensor, restored from its calibration block.
#[derive(Clone, Copy, Debug, PartialEq, Eq)]
pub struct EepromVars {
    pub K_Vdd: i32,
    pub VDD_25: i32,
    pub K_V_PTAT: Dyadic,
    pub K_T_PTAT: Dyadic,
    pub V_PTAT_25: i32,
    pub Alpha_PTAT: Dyadic,
    pub pix_os_ref: [i32; PIXEL_COUNT],
    pub a: DyadicGrid,
    pub K_V: DyadicGrid,
    pub K_Ta: DyadicGrid,
    pub GAIN: i32,
    pub Ks_Ta: Dyadic,
    pub CT3: i32,
    pub CT4: i32,
    pub Ks_To: (Dyadic, Dyadic, Dyadic, Dyadic),
    pub a_CP: (Dyadic, Dyadic),
    pub Off_CP: (i32, i32),
    pub K_V_CP: Dyadic,
    pub K_Ta_CP: Dyadic,
    pub TGC: Dyadic,
    pub Resolution: u16,
    pub pattern: [u16; PIXEL_COUNT],
    pub bad_pixels: [usize; 4],
}

impl EepromVars {
    /// Whether the scalar coefficients are those of the calibration block
    /// `eeprom`.
    pub open spec fn scalars_of(self, eeprom: Seq<u16>) -> bool {
        &&& self.K_Vdd == k_vdd(eeprom)
        &&& self.VDD_25 == vdd_25(eeprom)
        &&& self.K_V_PTAT.numerator == k_v_ptat(eeprom)
        &&& self.K_V_PTAT.exponent == 12
        &&& self.K_T_PTAT.numerator == k_t_ptat(eeprom)
        &&& self.K_T_PTAT.exponent == 3
        &&& self.V_PTAT_25 == v_ptat_25(eeprom)
        &&& self.Alpha_PTAT.numerator == alpha_ptat(eeprom)
        &&& self.Alpha_PTAT.exponent == 2
        &&& self.GAIN == gain(eeprom)
        &&& self.Ks_Ta.numerator == ks_ta(eeprom)
        &&& self.Ks_Ta.exponent == 13
        &&& self.CT3 == ct3(step(eeprom), eeprom)
        &&& self.CT4 == ct4(step(eeprom), ct3(step(eeprom), eeprom), eeprom)
        &&& self.Ks_To.0.numerator == ks_to(eeprom, 0)
        &&& self.Ks_To.1.numerator == ks_to(eeprom, 1)
        &&& self.Ks_To.2.numerator == ks_to(eeprom, 2)
        &&& self.Ks_To.3.numerator == ks_to(eeprom, 3)
        &&& self.Ks_To.0.exponent == ks_to_scale(eeprom)
        &&& self.Ks_To.1.exponent == ks_to_scale(eeprom)
        &&& self.Ks_To.2.exponent == ks_to_scale(eeprom)
        &&& self.Ks_To.3.exponent == ks_to_scale(eeprom)
        &&& self.a_CP.0.numerator == a_cp_0(eeprom)
        &&& self.a_CP.0.exponent == a_cp_scale(eeprom)
        &&& self.a_CP.1.numerator == a_cp_0(eeprom) * (128 + cp_ratio(eeprom))
        &&& self.a_CP.1.exponent == a_cp_scale(eeprom) + 7
        &&& self.Off_CP.0 == off_cp_0(eeprom)
        &&& self.Off_CP.1 == off_cp_1(eeprom)
        &&& self.K_V_CP.numerator == k_v_cp(eeprom)
        &&& self.K_V_CP.exponent == k_v_scale(eeprom)
        &&& self.K_Ta_CP.numerator == k_ta_cp(eeprom)
        &&& self.K_Ta_CP.exponent == k_ta_scale1(eeprom)
        &&& self.TGC.numerator == tgc(eeprom)
        &&& self.TGC.exponent == 5
        &&& self.Resolution == resolution(eeprom)
    }

    /// Whether the per-pixel coefficients are those of the calibration block
    /// `eeprom`.
    pub open spec fn pixels_of(self, eeprom: Seq<u16>) -> bool {
        &&& self.a.exponent == a_scale(eeprom)
        &&& self.K_V.exponent == k_v_scale(eeprom)
        &&& self.K_Ta.exponent == k_ta_scale1(eeprom)
        &&& forall|p: int|
            0 <= p < PIXEL_COUNT ==> #[trigger] self.pix_os_ref[p] == pix_os_ref(eeprom, p)
        &&& forall|p: int|
            0 <= p < PIXEL_COUNT ==> #[trigger] self.a.numerators[p] == a(eeprom, p)
        &&& forall|p: int|
            0 <= p < PIXEL_COUNT ==> #[trigger] self.K_V.numerators[p] == k_v(eeprom, p)
        &&& forall|p: int|
            0 <= p < PIXEL_COUNT ==> #[trigger] self.K_Ta.numerators[p] == k_ta(eeprom, p)
    }

    /// Whether the list of defective pixels is that of the calibration block
    /// `eeprom`: the marked pixels in rising order, then `usize::MAX`.
    pub open spec fn bad_pixels_of(self, eeprom: Seq<u16>) -> bool {
        forall|k: int|
            0 <= k < 4 ==> #[trigger] self.bad_pixels[k] == if k < outliers(
                eeprom,
                PIXEL_COUNT as nat,
            ).len() {
                outliers(eeprom, PIXEL_COUNT as nat)[k]
            } else {
                usize::MAX as int
            }
    }

    /// Whether the checkerboard table gives every pixel its phase.
    pub open spec fn pattern_valid(self) -> bool {
        forall|p: int| 0 <= p < PIXEL_COUNT ==> #[trigger] self.pattern[p] == checkerboard(p)
    }

    /// Whether every coefficient of this store is the one that the
    /// calibration block `eeprom` holds.
    pub open spec fn restored_from(self, eeprom: Seq<u16>) -> bool {
        &&& self.scalars_of(eeprom)
        &&& self.pixels_of(eeprom)
        &&& self.bad_pixels_of(eeprom)
        &&& self.pattern_valid()
    }

    /// Whether every numerator of a fraction is a whole number that a
    /// floating-point number of 24 significant bits holds exactly, so that
    /// the fraction, whose divisor is a power of two, is exact in such
    /// numbers too.
    pub open spec fn numerators_exact(self) -> bool {
        &&& is_exact(self.K_V_PTAT.numerator as int)
        &&& is_exact(self.K_T_PTAT.numerator as int)
        &&& is_exact(self.Alpha_PTAT.numerator as int)
        &&& is_exact(self.Ks_Ta.numerator as int)
        &&& is_exact(self.Ks_To.0.numerator as int)
        &&& is_exact(self.Ks_To.1.numerator as int)
        &&& is_exact(self.Ks_To.2.numerator as int)
        &&& is_exact(self.Ks_To.3.numerator as int)
        &&& is_exact(self.a_CP.0.numerator as int)
        &&& is_exact(self.a_CP.1.numerator as int)
        &&& is_exact(self.K_V_CP.numerator as int)
        &&& is_exact(self.K_Ta_CP.numerator as int)
        &&& is_exact(self.TGC.numerator as int)
        &&& forall|p: int| 0 <= p < PIXEL_COUNT ==> is_exact(#[trigger] self.pix_os_ref[p] as int)
        &&& forall|p: int|
            0 <= p < PIXEL_COUNT ==> is_exact(#[trigger] self.a.numerators[p] as int)
        &&& forall|p: int|
            0 <= p < PIXEL_COUNT ==> is_exact(#[trigger] self.K_V.numerators[p] as int)
        &&& forall|p: int|
            0 <= p < PIXEL_COUNT ==> is_exact(#[trigger] self.K_Ta.numerators[p] as int)
    }

    /// What holds of the store of any calibration block.
    pub open spec fn well_formed(self) -> bool {
        &&& self.pattern_valid()
        &&& self.numerators_exact()
        &&& self.Resolution < 4
        &&& 0 <= self.CT3 <= self.CT4 <= 900
        &&& 8 <= self.Ks_To.0.exponent <= 23
        &&& 30 <= self.a.exponent <= 45
        &&& self.K_V.exponent <= 15
        &&& 8 <= self.K_Ta.exponent <= 23
        &&& forall|k: int|
            0 <= k < 4 ==> #[trigger] self.bad_pixels[k] < PIXEL_COUNT || self.bad_pixels[k]
                == usize::MAX
    }
}

/// Restores every coefficient from a calibration block. The block is refused
/// when it marks more than four pixels as defective; any other block gives a
/// store.
pub fn restore(eeprom_raw: [u16; EEPROM_SIZE]) -> (result: Result<EepromVars, CalibrationError>)
    ensures
        match result {
            Ok(vars) => {
                &&& outliers(eeprom_raw@, PIXEL_COUNT as nat).len() <= 4
                &&& vars.restored_from(eeprom_raw@)
                &&& vars.well_formed()
            },
            Err(error) => {
                &&& error == CalibrationError::TooManyBadPixels
                &&& outliers(eeprom_raw@, PIXEL_COUNT as nat).len() > 4
            },
        },
{
    proof {
        lemma2_to64();
    }
    let K_Vdd = restore_K_Vdd(eeprom_raw);
    let VDD_25 = restore_VDD_25(eeprom_raw);

    let mut K_V_PTAT = Dyadic { numerator: 0, exponent: 0 };
    let mut K_T_PTAT = Dyadic { numerator: 0, exponent: 0 };
    let mut V_PTAT_25: i32 = 0;
    let mut Alpha_PTAT = Dyadic { numerator: 0, exponent: 0 };
    restore_T_a(&mut K_V_PTAT, &mut K_T_PTAT, &mut V_PTAT_25, &mut Alpha_PTAT, eeprom_raw);

    let pix_os_ref = restore_offset(eeprom_raw);
    let a = restore_a(eeprom_raw);
    let K_V = restore_K_V(eeprom_raw);
    let K_Ta = restore_K_Ta(eeprom_raw);
    let GAIN = restore_gain(eeprom_raw);
    let Ks_Ta = restore_Ks_Ta(eeprom_raw);

    let Step = restore_Step(eeprom_raw);
    let ghost steps_3 = field(word(eeprom_raw@, 0x243F), 4, 4);
    let ghost steps_4 = field(word(eeprom_raw@, 0x243F), 8, 4);
    assert(0 <= steps_3 * Step <= 450 && 0 <= steps_4 * Step <= 450) by (nonlinear_arith)
        requires
            0 <= steps_3 < 16,
            0 <= steps_4 < 16,
            0 <= Step <= 30,
    ;
    let CT3 = restore_CT3(Step, eeprom_raw);
    let CT4 = restore_CT4(Step, CT3, eeprom_raw);

    let Ks_To = restore_Ks_To(eeprom_raw);
    let a_CP = restore_a_CP(eeprom_raw);
    let Off_CP = restore_Off_CP(eeprom_raw);
    let K_V_CP = restore_K_V_CP(eeprom_raw);
    let K_Ta_CP = restore_K_Ta_CP(eeprom_raw);
    let TGC = restore_TGC(eeprom_raw);
    let Resolution = restore_Resolution(eeprom_raw);
    let pattern = restore_pattern();

    let bad_pixels = match restore_bad_pixels(eeprom_raw) {
        Ok(bad_pixels) => bad_pixels,
        Err(error) => {
            return Err(error);
        },
    };
    proof {
        crate::pixels::lemma_outliers_members(eeprom_raw@, PIXEL_COUNT as nat);
        let marked = outliers(eeprom_raw@, PIXEL_COUNT as nat);
        assert forall|k: int| 0 <= k < 4 implies #[trigger] bad_pixels[k] < PIXEL_COUNT
            || bad_pixels[k] == usize::MAX by {
            if k < marked.len() {
                assert(marked.contains(marked[k]));
            }
        }
    }

    Ok(
        EepromVars {
            K_Vdd,
            VDD_25,
            K_V_PTAT,
            K_T_PTAT,
            V_PTAT_25,
            Alpha_PTAT,
            pix_os_ref,
            a,
            K_V,
            K_Ta,
            GAIN,
            Ks_Ta,
            CT3,
            CT4,
            Ks_To,
            a_CP,
            Off_CP,
            K_V_CP,
            K_Ta_CP,
            TGC,
            Resolution,
            pattern,
            bad_pixels,
        },
    )
}

/// Builds the calibration store from the outcome of reading the calibration
/// block off the bus. A failed read gives no store and hands the bus error
/// on; a block that was read is decoded as `restore` says.
pub fn initialize(block: Result<[u8; EEPROM_BYTES], BusError>) -> (result: Result<
    EepromVars,
    CalibrationError,
>)
    ensures
        match block {
            Err(bus) => result == Err::<EepromVars, CalibrationError>(CalibrationError::Bus(bus)),
            Ok(bytes) => match result {
                Ok(vars) => {
                    &&& outliers(words_of(bytes@), PIXEL_COUNT as nat).len() <= 4
                    &&& vars.restored_from(words_of(bytes@))
                    &&& vars.well_formed()
                },
                Err(error) => {
                    &&& error == CalibrationError::TooManyBadPixels
                    &&& outliers(words_of(bytes@), PIXEL_COUNT as nat).len() > 4
                },
            },
        },
{
    match block {
        Err(bus) => Err(CalibrationError::Bus(bus)),
        Ok(bytes) => restore(read_eeprom(bytes)),
    }
}

} // verus!
