use thermal_camera::bits::{bit_field, sign_extend, signed_bit_field, two_pow};

#[test]
fn bit_field_reads_the_named_bits() {
    assert_eq!(bit_field(0x5952, 10, 6), 22);
    assert_eq!(bit_field(0x5952, 0, 10), 338);
    assert_eq!(bit_field(0xFFFF, 0, 16), 0xFFFF);
    assert_eq!(bit_field(0x8000, 15, 1), 1);
    assert_eq!(bit_field(0x1234, 4, 4), 3);
}

#[test]
fn sign_extend_switches_at_half_the_range() {
    assert_eq!(sign_extend(7, 4), 7);
    assert_eq!(sign_extend(8, 4), -8);
    assert_eq!(sign_extend(15, 4), -1);
    assert_eq!(sign_extend(15, 5), 15);
    assert_eq!(sign_extend(16, 5), -16);
    assert_eq!(sign_extend(31, 6), 31);
    assert_eq!(sign_extend(32, 6), -32);
    assert_eq!(sign_extend(63, 6), -1);
    assert_eq!(sign_extend(511, 10), 511);
    assert_eq!(sign_extend(512, 10), -512);
    assert_eq!(sign_extend(1023, 10), -1);
    assert_eq!(sign_extend(32767, 16), 32767);
    assert_eq!(sign_extend(32768, 16), -32768);
    assert_eq!(sign_extend(0, 1), 0);
    assert_eq!(sign_extend(1, 1), -1);
}

#[test]
fn signed_bit_field_reads_a_signed_byte() {
    assert_eq!(signed_bit_field(0x9D68, 8, 8), -99);
    assert_eq!(signed_bit_field(0x9D68, 0, 8), 104);
}

#[test]
fn two_pow_doubles() {
    assert_eq!(two_pow(0), 1);
    assert_eq!(two_pow(15), 32768);
    assert_eq!(two_pow(31), 0x8000_0000);
}
