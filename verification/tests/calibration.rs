use thermal_camera::eeprom::{
    get_eeprom_val, read_eeprom, restore_CT3, restore_CT4, restore_K_Ta_CP, restore_K_V_CP,
    restore_K_Vdd, restore_Ks_Ta, restore_Ks_To, restore_Off_CP, restore_Resolution,
    restore_Step, restore_TGC, restore_T_a, restore_VDD_25, restore_a_CP, restore_gain, Dyadic,
    EEPROM_BYTES, EEPROM_SIZE,
};
use thermal_camera::error::{BusError, BusFailure, CalibrationError};
use thermal_camera::pixels::{
    restore_K_Ta, restore_K_V, restore_a, restore_bad_pixels, restore_offset, restore_pattern,
};
use thermal_camera::store::{initialize, restore};

fn dyadic(numerator: i32, exponent: u32) -> Dyadic {
    Dyadic { numerator, exponent }
}

fn put(eeprom: &mut [u16; EEPROM_SIZE], address: u16, value: u16) {
    eeprom[(address - 0x2410) as usize] = value;
}

/// Puts a signed coefficient into `width` bits at `shift`, leaving the other bits of the word.
fn pack(word: u16, value: i32, shift: u32, width: u32) -> u16 {
    let mask: u32 = ((1u32 << width) - 1) << shift;
    let raw: u32 = ((value as u32) << shift) & mask;
    ((word as u32 & !mask) | raw) as u16
}

fn pixel_word(pixel: usize) -> u16 {
    (((pixel as u64 * 2654435761u64) >> 7) & 0xFFFE) as u16
}

/// A calibration block with every field in use; pixels 5 and 700 are marked defective.
fn block() -> [u16; EEPROM_SIZE] {
    let mut eeprom = [0u16; EEPROM_SIZE];
    put(&mut eeprom, 0x2410, 0x4210);
    put(&mut eeprom, 0x2411, 0xFFBB);
    let rows: [u16; 6] = [0x0202, 0xF202, 0xF2F2, 0xE2E2, 0xD1E1, 0xB1D1];
    for (i, word) in rows.iter().enumerate() {
        put(&mut eeprom, 0x2412 + i as u16, *word);
    }
    let columns: [u16; 8] = [0xF1F3, 0xF0F2, 0xE0E1, 0xD0D1, 0xC0C2, 0xB1B3, 0xA1A3, 0x9193];
    for (i, word) in columns.iter().enumerate() {
        put(&mut eeprom, 0x2418 + i as u16, *word);
    }
    put(&mut eeprom, 0x2420, 0x7957);
    put(&mut eeprom, 0x2421, 0x2363);
    let rows: [u16; 6] = [0xE446, 0xFFDD, 0x2210, 0x3321, 0x3333, 0x0112];
    for (i, word) in rows.iter().enumerate() {
        put(&mut eeprom, 0x2422 + i as u16, *word);
    }
    let columns: [u16; 8] = [0xFFDD, 0xEEFF, 0xDDCC, 0x1100, 0x2211, 0x3322, 0x4433, 0x7654];
    for (i, word) in columns.iter().enumerate() {
        put(&mut eeprom, 0x2428 + i as u16, *word);
    }
    put(&mut eeprom, 0x2430, 0x18EF);
    put(&mut eeprom, 0x2431, 0x2FF1);
    put(&mut eeprom, 0x2432, 0x5952);
    put(&mut eeprom, 0x2433, 0x9D68);
    put(&mut eeprom, 0x2434, 0x5493);
    put(&mut eeprom, 0x2436, 0x4CB0);
    put(&mut eeprom, 0x2437, 0x7F01);
    put(&mut eeprom, 0x2438, 0x2363);
    put(&mut eeprom, 0x2439, 0xE446);
    put(&mut eeprom, 0x243A, 0xFBB5);
    put(&mut eeprom, 0x243B, 0x044B);
    put(&mut eeprom, 0x243C, 0xF020);
    put(&mut eeprom, 0x243D, 0x9797);
    put(&mut eeprom, 0x243E, 0x2E80);
    put(&mut eeprom, 0x243F, 0x2889);
    for pixel in 0..768 {
        put(&mut eeprom, 0x2440 + pixel as u16, pixel_word(pixel));
    }
    put(&mut eeprom, 0x2440 + 367, 0x08A0);
    put(&mut eeprom, 0x2440 + 5, pixel_word(5) | 1);
    put(&mut eeprom, 0x2440 + 700, pixel_word(700) | 1);
    eeprom
}

#[test]
fn read_eeprom_puts_the_high_byte_first() {
    let mut bytes = [0u8; EEPROM_BYTES];
    bytes[0] = 0x42;
    bytes[1] = 0x10;
    bytes[2] = 0xFF;
    bytes[3] = 0xBB;
    bytes[1630] = 0x01;
    bytes[1631] = 0x02;
    let words = read_eeprom(bytes);
    assert_eq!(words[0], 0x4210);
    assert_eq!(words[1], 0xFFBB);
    assert_eq!(words[2], 0);
    assert_eq!(words[815], 0x0102);
}

#[test]
fn get_eeprom_val_counts_from_the_base_address() {
    let eeprom = block();
    assert_eq!(get_eeprom_val(0x2410, eeprom), 0x4210);
    assert_eq!(get_eeprom_val(0x2433, eeprom), 0x9D68);
    assert_eq!(get_eeprom_val(0x2440 + 367, eeprom), 0x08A0);
    assert_eq!(get_eeprom_val(0x2440 + 767, eeprom), pixel_word(767));
}

#[test]
fn supply_voltage_coefficients() {
    let eeprom = block();
    assert_eq!(restore_K_Vdd(eeprom), -3168);
    assert_eq!(restore_VDD_25(eeprom), -13056);
}

#[test]
fn ambient_temperature_coefficients() {
    let eeprom = block();
    let mut k_v_ptat = dyadic(0, 0);
    let mut k_t_ptat = dyadic(0, 0);
    let mut v_ptat_25 = 0;
    let mut alpha_ptat = dyadic(0, 0);
    restore_T_a(&mut k_v_ptat, &mut k_t_ptat, &mut v_ptat_25, &mut alpha_ptat, eeprom);
    // 22 / 4096 = 0.00537109375, 338 / 8 = 42.25, 36 / 4 = 9
    assert_eq!(k_v_ptat, dyadic(22, 12));
    assert_eq!(k_t_ptat, dyadic(338, 3));
    assert_eq!(v_ptat_25, 12273);
    assert_eq!(alpha_ptat, dyadic(36, 2));
}

#[test]
fn ambient_temperature_coefficients_can_be_negative() {
    let mut eeprom = [0u16; EEPROM_SIZE];
    put(&mut eeprom, 0x2432, 0x8200);
    put(&mut eeprom, 0x2431, 0x8000);
    let mut k_v_ptat = dyadic(0, 0);
    let mut k_t_ptat = dyadic(0, 0);
    let mut v_ptat_25 = 0;
    let mut alpha_ptat = dyadic(0, 0);
    restore_T_a(&mut k_v_ptat, &mut k_t_ptat, &mut v_ptat_25, &mut alpha_ptat, eeprom);
    assert_eq!(k_v_ptat, dyadic(-32, 12));
    assert_eq!(k_t_ptat, dyadic(-512, 3));
    assert_eq!(v_ptat_25, -32768);
    assert_eq!(alpha_ptat, dyadic(32, 2));
}

#[test]
fn gain_and_ambient_sensitivity() {
    let eeprom = block();
    assert_eq!(restore_gain(eeprom), 6383);
    // -16 / 8192 = -0.001953125
    assert_eq!(restore_Ks_Ta(eeprom), dyadic(-16, 13));
}

#[test]
fn corner_temperatures() {
    let eeprom = block();
    let step = restore_Step(eeprom);
    assert_eq!(step, 20);
    let ct3 = restore_CT3(step, eeprom);
    assert_eq!(ct3, 160);
    assert_eq!(restore_CT4(step, ct3, eeprom), 320);
}

#[test]
fn range_sensitivities() {
    let eeprom = block();
    let ks_to = restore_Ks_To(eeprom);
    assert_eq!(ks_to.0, dyadic(-105, 17));
    assert_eq!(ks_to.1, dyadic(-105, 17));
    assert_eq!(ks_to.2, dyadic(-128, 17));
    assert_eq!(ks_to.3, dyadic(46, 17));
}

#[test]
fn compensation_pixel_coefficients() {
    let eeprom = block();
    let a_cp = restore_a_CP(eeprom);
    assert_eq!(a_cp.0, dyadic(70, 34));
    // 70 / 2^34 * (1 - 7 / 128) = 70 * 121 / 2^41
    assert_eq!(a_cp.1, dyadic(8470, 41));
    assert_eq!(restore_Off_CP(eeprom), (-75, -77));
    assert_eq!(restore_K_V_CP(eeprom), dyadic(4, 3));
    assert_eq!(restore_K_Ta_CP(eeprom), dyadic(75, 14));
    assert_eq!(restore_TGC(eeprom), dyadic(32, 5));
    assert_eq!(restore_Resolution(eeprom), 2);
}

#[test]
fn offsets_of_the_block() {
    let offsets = restore_offset(block());
    assert_eq!(&offsets[..6], &[-55, -36, -68, -44, -75, -53]);
    assert_eq!(offsets[33], -52);
    assert_eq!(offsets[367], -77);
    assert_eq!(offsets[767], -77);
    assert_eq!(offsets.iter().map(|value| *value as i64).sum::<i64>(), -55183);
}

#[test]
fn offset_of_one_pixel_is_the_sum_of_its_parts() {
    let mut eeprom = [0u16; EEPROM_SIZE];
    // scales: row 3, column 2, remnant 1
    put(&mut eeprom, 0x2410, 0x0321);
    put(&mut eeprom, 0x2411, 100);
    // row 5 is entry 1 of word 0x2413: -3
    put(&mut eeprom, 0x2413, 0x00D0);
    // column 10 is entry 2 of word 0x241A: 7
    put(&mut eeprom, 0x241A, 0x0700);
    // pixel (5, 10): offset -32
    put(&mut eeprom, 0x2440 + 5 * 32 + 10, 0x8000);
    let offsets = restore_offset(eeprom);
    assert_eq!(offsets[5 * 32 + 10], 100 - 3 * 8 + 7 * 4 - 32 * 2);
    assert_eq!(offsets[5 * 32 + 11], 100 - 3 * 8);
    assert_eq!(offsets[6 * 32 + 10], 100 + 7 * 4);
    assert_eq!(offsets[0], 100);
}

#[test]
fn sensitivities_of_the_block() {
    let a = restore_a(block());
    assert_eq!(a.exponent, 37);
    assert_eq!(&a.numerators[..6], &[12035, 9859, 15939, 13763, 11587, 9539]);
    assert_eq!(a.numerators[32], 7683);
    assert_eq!(a.numerators[33], 13699);
    assert_eq!(a.numerators[367], 11395);
    assert_eq!(a.numerators[767], 7619);
    assert_eq!(a.numerators.iter().map(|value| *value as i64).sum::<i64>(), 7488512);
}

#[test]
fn supply_voltage_coefficients_of_the_pixels() {
    let k_v = restore_K_V(block());
    assert_eq!(k_v.exponent, 3);
    // word 0x2434 = 0x5493: even row and even column 5, odd row and even column 4,
    // even row and odd column 9 - 16, odd row and odd column 3
    assert_eq!(k_v.numerators[0], 5);
    assert_eq!(k_v.numerators[1], -7);
    assert_eq!(k_v.numerators[32], 4);
    assert_eq!(k_v.numerators[33], 3);
    assert_eq!(k_v.numerators[367], 3);
    assert_eq!(k_v.numerators[766], 4);
    assert_eq!(k_v.numerators.iter().map(|value| *value as i64).sum::<i64>(), 960);
}

#[test]
fn ambient_coefficients_of_the_pixels() {
    let k_ta = restore_K_Ta(block());
    assert_eq!(k_ta.exponent, 14);
    assert_eq!(&k_ta.numerators[..6], &[76, 135, 100, 103, 60, 127]);
    assert_eq!(k_ta.numerators[32], -96);
    assert_eq!(k_ta.numerators[33], -7);
    assert_eq!(k_ta.numerators[367], 1);
    assert_eq!(k_ta.numerators[767], 9);
    assert_eq!(k_ta.numerators.iter().map(|value| *value as i64).sum::<i64>(), 20768);
}

#[test]
fn pattern_is_the_parity_of_row_and_column() {
    let pattern = restore_pattern();
    for i in 0..768usize {
        assert_eq!(pattern[i] as usize, ((i / 32) ^ i) & 1, "pixel {}", i);
    }
    assert_eq!(&pattern[..4], &[0, 1, 0, 1]);
    assert_eq!(&pattern[32..36], &[1, 0, 1, 0]);
}

#[test]
fn bad_pixels_are_listed_in_rising_order() {
    assert_eq!(restore_bad_pixels(block()), Ok([5, 700, usize::MAX, usize::MAX]));
}

#[test]
fn no_bad_pixels_gives_an_empty_list() {
    assert_eq!(restore_bad_pixels([0u16; EEPROM_SIZE]), Ok([usize::MAX; 4]));
}

#[test]
fn four_bad_pixels_are_accepted() {
    let mut eeprom = [0u16; EEPROM_SIZE];
    for pixel in [0u16, 31, 736, 767] {
        put(&mut eeprom, 0x2440 + pixel, 1);
    }
    assert_eq!(restore_bad_pixels(eeprom), Ok([0, 31, 736, 767]));
}

#[test]
fn five_bad_pixels_are_refused() {
    let mut eeprom = block();
    for pixel in [1u16, 2, 3] {
        put(&mut eeprom, 0x2440 + pixel, 1);
    }
    assert_eq!(restore_bad_pixels(eeprom), Err(CalibrationError::TooManyBadPixels));
    assert_eq!(restore(eeprom), Err(CalibrationError::TooManyBadPixels));
}

#[test]
fn restore_gives_every_coefficient() {
    let eeprom = block();
    let vars = restore(eeprom).unwrap();
    assert_eq!(vars.K_Vdd, -3168);
    assert_eq!(vars.VDD_25, -13056);
    assert_eq!(vars.K_V_PTAT, dyadic(22, 12));
    assert_eq!(vars.K_T_PTAT, dyadic(338, 3));
    assert_eq!(vars.V_PTAT_25, 12273);
    assert_eq!(vars.Alpha_PTAT, dyadic(36, 2));
    assert_eq!(vars.pix_os_ref, restore_offset(eeprom));
    assert_eq!(vars.a, restore_a(eeprom));
    assert_eq!(vars.K_V, restore_K_V(eeprom));
    assert_eq!(vars.K_Ta, restore_K_Ta(eeprom));
    assert_eq!(vars.GAIN, 6383);
    assert_eq!(vars.Ks_Ta, dyadic(-16, 13));
    assert_eq!(vars.CT3, 160);
    assert_eq!(vars.CT4, 320);
    assert_eq!(vars.Ks_To.1, dyadic(-105, 17));
    assert_eq!(vars.Ks_To.3, dyadic(46, 17));
    assert_eq!(vars.a_CP, (dyadic(70, 34), dyadic(8470, 41)));
    assert_eq!(vars.Off_CP, (-75, -77));
    assert_eq!(vars.K_V_CP, dyadic(4, 3));
    assert_eq!(vars.K_Ta_CP, dyadic(75, 14));
    assert_eq!(vars.TGC, dyadic(32, 5));
    assert_eq!(vars.Resolution, 2);
    assert_eq!(vars.pattern, restore_pattern());
    assert_eq!(vars.bad_pixels, [5, 700, usize::MAX, usize::MAX]);
}

#[test]
fn known_coefficients_come_back_from_the_block_that_holds_them() {
    // the coefficients to write
    let k_vdd_ee = -99;
    let k_v_ptat_ee = -17;
    let k_t_ptat_ee = -300;
    let off_cp_0 = -512;
    let off_cp_delta = 31;
    let tgc_ee = -128;
    let ks_ta_ee = 127;
    let row_7 = -8;
    let column_31 = 7;
    let offset = -1;
    let a_pixel = 31;
    let k_ta_ee = -4;

    let mut eeprom = [0u16; EEPROM_SIZE];
    put(&mut eeprom, 0x2433, pack(0, k_vdd_ee, 8, 8));
    put(&mut eeprom, 0x2432, pack(pack(0, k_v_ptat_ee, 10, 6), k_t_ptat_ee, 0, 10));
    put(&mut eeprom, 0x243A, pack(pack(0, off_cp_delta, 10, 6), off_cp_0, 0, 10));
    put(&mut eeprom, 0x243C, pack(pack(0, ks_ta_ee, 8, 8), tgc_ee, 0, 8));
    put(&mut eeprom, 0x2413, pack(0, row_7, 12, 4));
    put(&mut eeprom, 0x241F, pack(0, column_31, 12, 4));
    put(&mut eeprom, 0x2423, pack(0, row_7, 12, 4));
    put(&mut eeprom, 0x242F, pack(0, column_31, 12, 4));
    let pixel = 7 * 32 + 31;
    put(
        &mut eeprom,
        0x2440 + pixel as u16,
        pack(pack(pack(0, offset, 10, 6), a_pixel, 4, 6), k_ta_ee, 1, 3),
    );

    let vars = restore(eeprom).unwrap();
    assert_eq!(vars.K_Vdd, k_vdd_ee * 32);
    assert_eq!(vars.K_V_PTAT.numerator, k_v_ptat_ee);
    assert_eq!(vars.K_T_PTAT.numerator, k_t_ptat_ee);
    assert_eq!(vars.Off_CP, (off_cp_0, off_cp_0 + off_cp_delta));
    assert_eq!(vars.TGC.numerator, tgc_ee);
    assert_eq!(vars.Ks_Ta.numerator, ks_ta_ee);
    // all scales are 0 in this block
    assert_eq!(vars.pix_os_ref[pixel], row_7 + column_31 + offset);
    assert_eq!(vars.a.numerators[pixel], row_7 + column_31 + a_pixel);
    assert_eq!(vars.a.exponent, 30);
    assert_eq!(vars.K_Ta.numerators[pixel], k_ta_ee);
    assert_eq!(vars.K_Ta.exponent, 8);
    assert_eq!(vars.bad_pixels, [usize::MAX; 4]);
}

#[test]
fn largest_scales_do_not_overflow() {
    let mut eeprom = [0xFFFFu16; EEPROM_SIZE];
    for pixel in 0..768u16 {
        put(&mut eeprom, 0x2440 + pixel, 0xFFFE);
    }
    let vars = restore(eeprom).unwrap();
    // every field is all ones: -1 where signed, scales 15
    assert_eq!(vars.pix_os_ref[0], -1 - 3 * 32768);
    assert_eq!(vars.a.numerators[0], 65535 - 3 * 32768);
    assert_eq!(vars.a.exponent, 45);
    assert_eq!(vars.K_Ta.numerators[0], -1 - 32768);
    assert_eq!(vars.K_Ta.exponent, 23);
    assert_eq!(vars.K_V.numerators[0], -1);
    assert_eq!(vars.K_V.exponent, 15);
    assert_eq!(vars.CT3, 450);
    assert_eq!(vars.CT4, 900);
    assert_eq!(vars.Resolution, 3);
    assert_eq!(vars.a_CP, (dyadic(1023, 42), dyadic(1023 * 127, 49)));
}

#[test]
fn initialize_hands_a_failed_read_on() {
    let error = BusError { failure: BusFailure::Read, detail: "remote I/O error".to_string() };
    assert_eq!(initialize(Err(error.clone())), Err(CalibrationError::Bus(error)));
}

#[test]
fn initialize_decodes_the_bytes_of_the_block() {
    let eeprom = block();
    let mut bytes = [0u8; EEPROM_BYTES];
    for (i, word) in eeprom.iter().enumerate() {
        bytes[2 * i] = (word >> 8) as u8;
        bytes[2 * i + 1] = (word & 0xFF) as u8;
    }
    assert_eq!(initialize(Ok(bytes)), restore(eeprom));
    assert_eq!(initialize(Ok(bytes)).unwrap().GAIN, 6383);
}
