use chip8::utils::{convert_to_bcd, convert_to_bits};

#[test]
fn convert_tobits_tests() {
    assert_eq!([1, 0, 0, 0, 0, 0, 0, 0], convert_to_bits(0x80));
    assert_eq!([1, 1, 0, 0, 0, 0, 0, 0], convert_to_bits(0xC0));
    assert_eq!([1, 1, 1, 0, 0, 0, 0, 0], convert_to_bits(0xE0));
    assert_eq!([1, 1, 1, 1, 0, 0, 0, 0], convert_to_bits(0xF0));
    assert_eq!([1, 1, 1, 1, 1, 0, 0, 0], convert_to_bits(0xF8));
    assert_eq!([1, 1, 1, 1, 1, 1, 0, 0], convert_to_bits(0xFC));
    assert_eq!([1, 1, 1, 1, 1, 1, 1, 0], convert_to_bits(0xFE));
    assert_eq!([1, 1, 1, 1, 1, 1, 1, 1], convert_to_bits(0xFF));

    assert_eq!([1, 0, 1, 0, 1, 0, 1, 0], convert_to_bits(0xAA));
    assert_eq!([1, 1, 0, 0, 1, 0, 0, 1], convert_to_bits(0xC9));
}

#[test]
fn conver_tobcd_tests() {
    assert_eq!([0, 0, 0], convert_to_bcd(0));
    assert_eq!([0, 0, 7], convert_to_bcd(7));
    assert_eq!([0, 2, 7], convert_to_bcd(27));
    assert_eq!([1, 2, 7], convert_to_bcd(127));
    assert_eq!([2, 5, 5], convert_to_bcd(255));
}

#[test]
fn bits_of_zero_and_low_bit() {
    assert_eq!([0, 0, 0, 0, 0, 0, 0, 0], convert_to_bits(0x00));
    assert_eq!([0, 0, 0, 0, 0, 0, 0, 1], convert_to_bits(0x01));
}

#[test]
fn bcd_keeps_last_three_digits() {
    assert_eq!([2, 3, 4], convert_to_bcd(1234));
    assert_eq!([5, 3, 5], convert_to_bcd(65535));
}
