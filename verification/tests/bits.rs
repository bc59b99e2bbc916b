use rpl_constraints::internval_analysis::{signed_bits_to_i128, unsigned_bits_to_i128};

#[test]
fn unsigned_reads_the_lowest_bits() {
    assert_eq!(unsigned_bits_to_i128(0xff, 8), 255);
    assert_eq!(unsigned_bits_to_i128(0x1ff, 8), 255);
    assert_eq!(unsigned_bits_to_i128(0x100, 8), 0);
    assert_eq!(unsigned_bits_to_i128(7, 1), 1);
    assert_eq!(unsigned_bits_to_i128(6, 1), 0);
    assert_eq!(unsigned_bits_to_i128(u128::MAX, 64), u64::MAX as i128);
}

#[test]
fn unsigned_of_no_bits_is_zero() {
    assert_eq!(unsigned_bits_to_i128(u128::MAX, 0), 0);
}

#[test]
fn unsigned_of_all_but_one_bit_is_the_largest_number() {
    assert_eq!(unsigned_bits_to_i128(u128::MAX, 127), i128::MAX);
}

#[test]
fn unsigned_of_all_bits_saturates() {
    assert_eq!(unsigned_bits_to_i128(5, 128), 5);
    assert_eq!(unsigned_bits_to_i128(i128::MAX as u128, 128), i128::MAX);
    assert_eq!(unsigned_bits_to_i128(i128::MAX as u128 + 1, 128), i128::MAX);
    assert_eq!(unsigned_bits_to_i128(u128::MAX, 128), i128::MAX);
}

#[test]
fn signed_reads_twos_complement() {
    assert_eq!(signed_bits_to_i128(0xff, 8), -1);
    assert_eq!(signed_bits_to_i128(0x80, 8), -128);
    assert_eq!(signed_bits_to_i128(0x7f, 8), 127);
    assert_eq!(signed_bits_to_i128(0x17f, 8), 127);
    assert_eq!(signed_bits_to_i128(1, 1), -1);
    assert_eq!(signed_bits_to_i128(0, 1), 0);
    assert_eq!(signed_bits_to_i128(u64::MAX as u128, 64), -1);
    assert_eq!(signed_bits_to_i128(1 << 63, 64), i64::MIN as i128);
}

#[test]
fn signed_of_all_but_one_bit() {
    assert_eq!(signed_bits_to_i128((1 << 126) - 1, 126), -1);
    assert_eq!(signed_bits_to_i128(1 << 125, 126), -(1i128 << 125));
    assert_eq!(signed_bits_to_i128((1 << 126) - 1, 127), (1i128 << 126) - 1);
}

#[test]
fn signed_of_all_bits_is_a_cast() {
    assert_eq!(signed_bits_to_i128(u128::MAX, 128), -1);
    assert_eq!(signed_bits_to_i128(1 << 127, 128), i128::MIN);
    assert_eq!(signed_bits_to_i128(i128::MAX as u128, 128), i128::MAX);
}

#[test]
fn signed_gives_an_encoded_number_back() {
    for value in -128i128..128 {
        let bits = (value as u128) % 256;
        assert_eq!(signed_bits_to_i128(bits, 8), value);
    }
}

#[test]
fn readings_agree_without_a_sign_bit() {
    for bits in 0u128..128 {
        assert_eq!(signed_bits_to_i128(bits, 8), unsigned_bits_to_i128(bits, 8));
    }
    assert_ne!(signed_bits_to_i128(128, 8), unsigned_bits_to_i128(128, 8));
}
