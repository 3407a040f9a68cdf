//! The per-pixel coefficients of the calibration block.
//!
//! A pixel is named by its index in row-major order: pixel `p` stands in row
//! `p / 32` and column `p % 32`.

#![allow(non_snake_case)]

use vstd::prelude::*;
use vstd::arithmetic::power2::{lemma2_to64, lemma_pow2_pos, lemma_pow2_strictly_increases};
use crate::bits::{bit_field, field, signed_bit_field, signed_field, two_pow};
use crate::eeprom::{
    get_eeprom_val, k_ta_scale1, k_ta_scale2, k_v_scale, scaled, word, EEPROM_PIXELS, EEPROM_SIZE,
};
use crate::error::CalibrationError;
use crate::{PIXELS_WIDTH, PIXEL_COUNT};

verus! {

/// Numerators of one coefficient for every pixel, over a power of two that
/// all pixels share.
#[derive(Clone, Copy, Debug, PartialEq, Eq)]
pub struct DyadicGrid {
    pub numerators: [i32; PIXEL_COUNT],
    pub exponent: u32,
}

/// Whether a whole number is one that a floating-point number of 24
/// significant bits holds exactly: its magnitude is below 2^24.
pub open spec fn is_exact(value: int) -> bool {
    -16777216 < value < 16777216
}

/// Entry `index` of a table of signed 4-bit numbers that starts at bus
/// address `base` and holds four entries to a word, the lowest bits first.
pub open spec fn table_entry(eeprom: Seq<u16>, base: int, index: int) -> int {
    signed_field(word(eeprom, base + index / 4), (4 * (index % 4)) as nat, 4)
}

/// The calibration word of pixel `pixel`.
pub open spec fn pixel_word(eeprom: Seq<u16>, pixel: int) -> int {
    word(eeprom, 0x2440 + pixel)
}

/// Average offset of all pixels: word 0x2411 read as a signed number.
pub open spec fn offset_average(eeprom: Seq<u16>) -> int {
    signed_field(word(eeprom, 0x2411), 0, 16)
}

/// Offset reference of pixel `pixel`: the average offset, plus the row, the
/// column and the pixel's own correction, each scaled up by the exponent
/// that word 0x2410 gives for it.
pub open spec fn pix_os_ref(eeprom: Seq<u16>, pixel: int) -> int {
    offset_average(eeprom)
        + scaled(table_entry(eeprom, 0x2412, pixel / 32), field(word(eeprom, 0x2410), 8, 4))
        + scaled(table_entry(eeprom, 0x2418, pixel % 32), field(word(eeprom, 0x2410), 4, 4))
        + scaled(signed_field(pixel_word(eeprom, pixel), 10, 6), field(word(eeprom, 0x2410), 0, 4))
}

/// The exponent that the sensitivities of all pixels share: the upper four
/// bits of word 0x2420, plus 30.
pub open spec fn a_scale(eeprom: Seq<u16>) -> int {
    field(word(eeprom, 0x2420), 12, 4) + 30
}

/// Numerator of the sensitivity of pixel `pixel`: the reference sensitivity
/// of word 0x2421, plus the row, the column and the pixel's own correction,
/// each scaled up by the exponent that word 0x2420 gives for it.
pub open spec fn a(eeprom: Seq<u16>, pixel: int) -> int {
    word(eeprom, 0x2421)
        + scaled(table_entry(eeprom, 0x2422, pixel / 32), field(word(eeprom, 0x2420), 8, 4))
        + scaled(table_entry(eeprom, 0x2428, pixel % 32), field(word(eeprom, 0x2420), 4, 4))
        + scaled(signed_field(pixel_word(eeprom, pixel), 4, 6), field(word(eeprom, 0x2420), 0, 4))
}

/// Numerator of `K_V` of pixel `pixel`. Word 0x2434 holds one signed 4-bit
/// number for each parity of row and column: from the top, even row and even
/// column, odd row and even column, even row and odd column, odd row and odd
/// column.
pub open spec fn k_v(eeprom: Seq<u16>, pixel: int) -> int {
    signed_field(
        word(eeprom, 0x2434),
        (12 - 4 * ((pixel / 32) % 2) - 8 * ((pixel % 32) % 2)) as nat,
        4,
    )
}

/// The part of `K_Ta` that pixels of one parity of row and column share.
/// Word 0x2436 holds the signed bytes for even columns and word 0x2437 those
/// for odd columns, each with the even rows in its upper byte.
pub open spec fn k_ta_rc(eeprom: Seq<u16>, pixel: int) -> int {
    signed_field(word(eeprom, 0x2436 + (pixel % 32) % 2), (8 - 8 * ((pixel / 32) % 2)) as nat, 8)
}

/// Numerator of `K_Ta` of pixel `pixel`: the part shared within its parity,
/// plus the signed bits 1 to 3 of the pixel's own word scaled up.
pub open spec fn k_ta(eeprom: Seq<u16>, pixel: int) -> int {
    k_ta_rc(eeprom, pixel) + scaled(
        signed_field(pixel_word(eeprom, pixel), 1, 3),
        k_ta_scale2(eeprom),
    )
}

/// The checkerboard phase of pixel `pixel`: 0 where row and column have the
/// same parity, 1 where they differ.
pub open spec fn checkerboard(pixel: int) -> int {
    (pixel / 32 + pixel % 32) % 2
}

/// Whether the calibration block marks pixel `pixel` as defective: the
/// lowest bit of its word.
pub open spec fn is_outlier(eeprom: Seq<u16>, pixel: int) -> bool {
    field(pixel_word(eeprom, pixel), 0, 1) == 1
}

/// The defective pixels among the first `count`, in rising order.
pub open spec fn outliers(eeprom: Seq<u16>, count: nat) -> Seq<int>
    decreases count,
{
    if count == 0 {
        Seq::empty()
    } else if is_outlier(eeprom, count - 1) {
        outliers(eeprom, (count - 1) as nat).push(count - 1)
    } else {
        outliers(eeprom, (count - 1) as nat)
    }
}

/// Multiplies a small correction by a power of two.
fn scale_up(value: i32, exponent: u32) -> (product: i32)
    requires
        -32768 <= value <= 32768,
        exponent <= 15,
    ensures
        product == scaled(value as int, exponent as int),
        -32768 * 32768 <= product <= 32768 * 32768,
        -32 <= value <= 32 ==> -32 * 32768 <= product <= 32 * 32768,
{
    let power: i32 = two_pow(exponent) as i32;
    proof {
        lemma2_to64();
        lemma_pow2_pos(exponent as nat);
        lemma_pow2_strictly_increases(exponent as nat, 16);
        assert(-32768 * 32768 <= value * power <= 32768 * 32768) by (nonlinear_arith)
            requires
                -32768 <= value <= 32768,
                0 < power <= 32768,
        ;
        if -32 <= value <= 32 {
            assert(-32 * 32768 <= value * power <= 32 * 32768) by (nonlinear_arith)
                requires
                    -32 <= value <= 32,
                    0 < power <= 32768,
            ;
        }
    }
    value * power
}

/// Reads entry `index` of the table of signed 4-bit numbers at `base`.
fn table_value(eeprom_raw: [u16; EEPROM_SIZE], base: u16, index: usize) -> (value: i32)
    requires
        0x2410 <= base <= 0x2430,
        index < 32,
    ensures
        value == table_entry(eeprom_raw@, base as int, index as int),
        -8 <= value < 8,
{
    proof {
        lemma2_to64();
    }
    let address: u16 = base + (index / 4) as u16;
    let shift: u32 = 4 * (index % 4) as u32;
    signed_bit_field(get_eeprom_val(address, eeprom_raw), shift, 4)
}

/// Reads the calibration word of pixel `pixel`.
fn pixel_value(eeprom_raw: [u16; EEPROM_SIZE], pixel: usize) -> (value: u16)
    requires
        pixel < PIXEL_COUNT,
    ensures
        value == pixel_word(eeprom_raw@, pixel as int),
{
    get_eeprom_val(EEPROM_PIXELS + pixel as u16, eeprom_raw)
}

/// Restores the offset reference of every pixel.
pub fn restore_offset(eeprom_raw: [u16; EEPROM_SIZE]) -> (pix_os_ref: [i32; PIXEL_COUNT])
    ensures
        forall|p: int|
            0 <= p < PIXEL_COUNT ==> #[trigger] pix_os_ref[p] == self::pix_os_ref(eeprom_raw@, p),
        forall|p: int| 0 <= p < PIXEL_COUNT ==> is_exact(#[trigger] pix_os_ref[p] as int),
{
    proof {
        lemma2_to64();
    }
    let offset_avg: i32 = signed_bit_field(get_eeprom_val(0x2411, eeprom_raw), 0, 16);
    let scales: u16 = get_eeprom_val(0x2410, eeprom_raw);
    let OCC_scale_row: u32 = bit_field(scales, 8, 4) as u32;
    let OCC_scale_column: u32 = bit_field(scales, 4, 4) as u32;
    let OCC_scale_remnant: u32 = bit_field(scales, 0, 4) as u32;

    let mut pix_os_ref: [i32; PIXEL_COUNT] = [0; PIXEL_COUNT];
    let mut index: usize = 0;
    while index < PIXEL_COUNT
        invariant
            index <= PIXEL_COUNT,
            offset_avg == offset_average(eeprom_raw@),
            OCC_scale_row == field(word(eeprom_raw@, 0x2410), 8, 4),
            OCC_scale_column == field(word(eeprom_raw@, 0x2410), 4, 4),
            OCC_scale_remnant == field(word(eeprom_raw@, 0x2410), 0, 4),
            OCC_scale_row <= 15,
            OCC_scale_column <= 15,
            OCC_scale_remnant <= 15,
            forall|p: int|
                0 <= p < index ==> #[trigger] pix_os_ref[p] == self::pix_os_ref(eeprom_raw@, p),
            forall|p: int| 0 <= p < index ==> is_exact(#[trigger] pix_os_ref[p] as int),
        decreases PIXEL_COUNT - index,
    {
        proof {
            lemma2_to64();
        }
        let OCC_row: i32 = table_value(eeprom_raw, 0x2412, index / PIXELS_WIDTH);
        let OCC_column: i32 = table_value(eeprom_raw, 0x2418, index % PIXELS_WIDTH);
        let offset: i32 = signed_bit_field(pixel_value(eeprom_raw, index), 10, 6);
        let value: i32 = offset_avg + scale_up(OCC_row, OCC_scale_row) + scale_up(
            OCC_column,
            OCC_scale_column,
        ) + scale_up(offset, OCC_scale_remnant);
        pix_os_ref[index] = value;
        index += 1;
    }
    pix_os_ref
}

/// Restores the sensitivity of every pixel.
pub fn restore_a(eeprom_raw: [u16; EEPROM_SIZE]) -> (a: DyadicGrid)
    ensures
        a.exponent == a_scale(eeprom_raw@),
        forall|p: int|
            0 <= p < PIXEL_COUNT ==> #[trigger] a.numerators[p] == self::a(eeprom_raw@, p),
        forall|p: int| 0 <= p < PIXEL_COUNT ==> is_exact(#[trigger] a.numerators[p] as int),
{
    proof {
        lemma2_to64();
    }
    let a_reference: i32 = get_eeprom_val(0x2421, eeprom_raw) as i32;
    let scales: u16 = get_eeprom_val(0x2420, eeprom_raw);
    let a_scale: u32 = bit_field(scales, 12, 4) as u32 + 30;
    let ACC_scale_row: u32 = bit_field(scales, 8, 4) as u32;
    let ACC_scale_column: u32 = bit_field(scales, 4, 4) as u32;
    let ACC_scale_remnant: u32 = bit_field(scales, 0, 4) as u32;

    let mut a: [i32; PIXEL_COUNT] = [0; PIXEL_COUNT];
    let mut index: usize = 0;
    while index < PIXEL_COUNT
        invariant
            index <= PIXEL_COUNT,
            a_reference == word(eeprom_raw@, 0x2421),
            ACC_scale_row == field(word(eeprom_raw@, 0x2420), 8, 4),
            ACC_scale_column == field(word(eeprom_raw@, 0x2420), 4, 4),
            ACC_scale_remnant == field(word(eeprom_raw@, 0x2420), 0, 4),
            ACC_scale_row <= 15,
            ACC_scale_column <= 15,
            ACC_scale_remnant <= 15,
            forall|p: int| 0 <= p < index ==> #[trigger] a[p] == self::a(eeprom_raw@, p),
            forall|p: int| 0 <= p < index ==> is_exact(#[trigger] a[p] as int),
        decreases PIXEL_COUNT - index,
    {
        proof {
            lemma2_to64();
        }
        let ACC_row: i32 = table_value(eeprom_raw, 0x2422, index / PIXELS_WIDTH);
        let ACC_column: i32 = table_value(eeprom_raw, 0x2428, index % PIXELS_WIDTH);
        let a_pixel: i32 = signed_bit_field(pixel_value(eeprom_raw, index), 4, 6);
        let value: i32 = a_reference + scale_up(ACC_row, ACC_scale_row) + scale_up(
            ACC_column,
            ACC_scale_column,
        ) + scale_up(a_pixel, ACC_scale_remnant);
        a[index] = value;
        index += 1;
    }
    DyadicGrid { numerators: a, exponent: a_scale }
}

/// Restores the supply voltage coefficient of every pixel.
pub fn restore_K_V(eeprom_raw: [u16; EEPROM_SIZE]) -> (K_V: DyadicGrid)
    ensures
        K_V.exponent == k_v_scale(eeprom_raw@),
        forall|p: int|
            0 <= p < PIXEL_COUNT ==> #[trigger] K_V.numerators[p] == k_v(eeprom_raw@, p),
        forall|p: int| 0 <= p < PIXEL_COUNT ==> is_exact(#[trigger] K_V.numerators[p] as int),
{
    proof {
        lemma2_to64();
    }
    let K_V_scale: u32 = bit_field(get_eeprom_val(0x2438, eeprom_raw), 8, 4) as u32;
    let phases: u16 = get_eeprom_val(0x2434, eeprom_raw);

    let mut K_V: [i32; PIXEL_COUNT] = [0; PIXEL_COUNT];
    let mut index: usize = 0;
    while index < PIXEL_COUNT
        invariant
            index <= PIXEL_COUNT,
            phases == word(eeprom_raw@, 0x2434),
            forall|p: int| 0 <= p < index ==> #[trigger] K_V[p] == k_v(eeprom_raw@, p),
            forall|p: int| 0 <= p < index ==> is_exact(#[trigger] K_V[p] as int),
        decreases PIXEL_COUNT - index,
    {
        proof {
            lemma2_to64();
        }
        let row_odd: u32 = ((index / PIXELS_WIDTH) % 2) as u32;
        let column_odd: u32 = ((index % PIXELS_WIDTH) % 2) as u32;
        let value: i32 = signed_bit_field(phases, 12 - 4 * row_odd - 8 * column_odd, 4);
        K_V[index] = value;
        index += 1;
    }
    DyadicGrid { numerators: K_V, exponent: K_V_scale }
}

/// Restores the ambient temperature coefficient of every pixel.
pub fn restore_K_Ta(eeprom_raw: [u16; EEPROM_SIZE]) -> (K_Ta: DyadicGrid)
    ensures
        K_Ta.exponent == k_ta_scale1(eeprom_raw@),
        forall|p: int|
            0 <= p < PIXEL_COUNT ==> #[trigger] K_Ta.numerators[p] == k_ta(eeprom_raw@, p),
        forall|p: int| 0 <= p < PIXEL_COUNT ==> is_exact(#[trigger] K_Ta.numerators[p] as int),
{
    proof {
        lemma2_to64();
    }
    let scales: u16 = get_eeprom_val(0x2438, eeprom_raw);
    let K_Ta_scale1: u32 = bit_field(scales, 4, 4) as u32 + 8;
    let K_Ta_scale2: u32 = bit_field(scales, 0, 4) as u32;
    let even_columns: u16 = get_eeprom_val(0x2436, eeprom_raw);
    let odd_columns: u16 = get_eeprom_val(0x2437, eeprom_raw);

    let mut K_Ta: [i32; PIXEL_COUNT] = [0; PIXEL_COUNT];
    let mut index: usize = 0;
    while index < PIXEL_COUNT
        invariant
            index <= PIXEL_COUNT,
            K_Ta_scale2 == k_ta_scale2(eeprom_raw@),
            K_Ta_scale2 <= 15,
            even_columns == word(eeprom_raw@, 0x2436),
            odd_columns == word(eeprom_raw@, 0x2437),
            forall|p: int| 0 <= p < index ==> #[trigger] K_Ta[p] == k_ta(eeprom_raw@, p),
            forall|p: int| 0 <= p < index ==> is_exact(#[trigger] K_Ta[p] as int),
        decreases PIXEL_COUNT - index,
    {
        proof {
            lemma2_to64();
        }
        let row_odd: u32 = ((index / PIXELS_WIDTH) % 2) as u32;
        let phases: u16 = if (index % PIXELS_WIDTH) % 2 == 0 {
            even_columns
        } else {
            odd_columns
        };
        let K_Ta_RC_EE: i32 = signed_bit_field(phases, 8 - 8 * row_odd, 8);
        let K_Ta_EE: i32 = signed_bit_field(pixel_value(eeprom_raw, index), 1, 3);
        let value: i32 = K_Ta_RC_EE + scale_up(K_Ta_EE, K_Ta_scale2);
        K_Ta[index] = value;
        index += 1;
    }
    DyadicGrid { numerators: K_Ta, exponent: K_Ta_scale1 }
}

/// Restores the checkerboard phase of every pixel.
pub fn restore_pattern() -> (pattern: [u16; PIXEL_COUNT])
    ensures
        forall|i: int| 0 <= i < PIXEL_COUNT ==> #[trigger] pattern[i] == checkerboard(i),
        forall|i: u16| i < PIXEL_COUNT ==> #[trigger] pattern[i as int] == ((i / 32) ^ i) & 1,
{
    let mut pattern: [u16; PIXEL_COUNT] = [0; PIXEL_COUNT];
    let mut index: u16 = 0;
    while index < 768
        invariant
            index <= 768,
            forall|i: int| 0 <= i < index ==> #[trigger] pattern[i] == checkerboard(i),
            forall|i: u16| i < index ==> #[trigger] pattern[i as int] == ((i / 32) ^ i) & 1,
        decreases 768 - index,
    {
        let phase: u16 = ((index / 32) ^ index) & 1;
        assert(phase == (index / 32 + index % 32) % 2) by (bit_vector)
            requires
                phase == ((index / 32) ^ index) & 1,
        ;
        pattern[index as usize] = phase;
        index += 1;
    }
    pattern
}

/// The list of defective pixels only grows with the number of pixels looked
/// at.
proof fn lemma_outliers_grow(eeprom: Seq<u16>, fewer: nat, more: nat)
    requires
        fewer <= more,
    ensures
        outliers(eeprom, fewer).len() <= outliers(eeprom, more).len(),
    decreases more,
{
    if fewer < more {
        lemma_outliers_grow(eeprom, fewer, (more - 1) as nat);
    }
}

/// The list of defective pixels holds exactly the pixels that the
/// calibration block marks, each once and in rising order.
pub proof fn lemma_outliers_members(eeprom: Seq<u16>, count: nat)
    ensures
        forall|p: int|
            #[trigger] outliers(eeprom, count).contains(p) <==> 0 <= p < count && is_outlier(
                eeprom,
                p,
            ),
        forall|j: int, k: int|
            0 <= j < k < outliers(eeprom, count).len() ==> #[trigger] outliers(eeprom, count)[j]
                < #[trigger] outliers(eeprom, count)[k],
    decreases count,
{
    if count > 0 {
        let before = outliers(eeprom, (count - 1) as nat);
        let all = outliers(eeprom, count);
        lemma_outliers_members(eeprom, (count - 1) as nat);
        if is_outlier(eeprom, count - 1) {
            assert(all == before.push(count - 1));
            assert forall|p: int| #[trigger] all.contains(p) implies 0 <= p < count && is_outlier(
                eeprom,
                p,
            ) by {
                let k = choose|k: int| 0 <= k < all.len() && all[k] == p;
                if k < before.len() {
                    assert(before[k] == p);
                    assert(before.contains(p));
                }
            }
            assert forall|p: int| 0 <= p < count && is_outlier(eeprom, p) implies #[trigger] all.contains(
                p,
            ) by {
                if p == count - 1 {
                    assert(all[before.len() as int] == p);
                } else {
                    assert(before.contains(p));
                    let k = choose|k: int| 0 <= k < before.len() && before[k] == p;
                    assert(all[k] == p);
                }
            }
            assert forall|j: int, k: int| 0 <= j < k < all.len() implies #[trigger] all[j]
                < #[trigger] all[k] by {
                assert(all[j] == before[j]);
                assert(before.contains(before[j]));
                if k < before.len() {
                    assert(all[k] == before[k]);
                }
            }
        } else {
            assert(all == before);
            assert forall|p: int| 0 <= p < count && is_outlier(eeprom, p) implies #[trigger] all.contains(
                p,
            ) by {
                assert(p != count - 1);
                assert(before.contains(p));
            }
        }
    }
}

/// Restores the list of defective pixels: their indices in rising order,
/// the unused places filled with `usize::MAX`. A block that marks more than
/// four pixels is refused.
pub fn restore_bad_pixels(eeprom_raw: [u16; EEPROM_SIZE]) -> (result: Result<
    [usize; 4],
    CalibrationError,
>)
    ensures
        match result {
            Ok(bad_pixels) => {
                &&& outliers(eeprom_raw@, PIXEL_COUNT as nat).len() <= 4
                &&& forall|k: int|
                    0 <= k < 4 ==> #[trigger] bad_pixels[k] == if k < outliers(
                        eeprom_raw@,
                        PIXEL_COUNT as nat,
                    ).len() {
                        outliers(eeprom_raw@, PIXEL_COUNT as nat)[k]
                    } else {
                        usize::MAX as int
                    }
            },
            Err(error) => {
                &&& error == CalibrationError::TooManyBadPixels
                &&& outliers(eeprom_raw@, PIXEL_COUNT as nat).len() > 4
            },
        },
{
    let mut bad_pixels: [usize; 4] = [usize::MAX; 4];
    let mut found: usize = 0;
    let mut index: usize = 0;
    while index < PIXEL_COUNT
        invariant
            index <= PIXEL_COUNT,
            found == outliers(eeprom_raw@, index as nat).len(),
            found <= 4,
            forall|k: int|
                0 <= k < 4 ==> #[trigger] bad_pixels[k] == if k < found {
                    outliers(eeprom_raw@, index as nat)[k]
                } else {
                    usize::MAX as int
                },
        decreases PIXEL_COUNT - index,
    {
        proof {
            lemma2_to64();
        }
        let is_outlier: bool = bit_field(pixel_value(eeprom_raw, index), 0, 1) == 1;
        if is_outlier {
            if found == 4 {
                proof {
                    lemma_outliers_grow(eeprom_raw@, (index + 1) as nat, PIXEL_COUNT as nat);
                }
                return Err(CalibrationError::TooManyBadPixels);
            }
            bad_pixels[found] = index;
            found += 1;
        }
        index += 1;
    }
    Ok(bad_pixels)
}

} // verus!
