use macrokit::bits::{get_bits, set_bits};
use macrokit::checks::{Array, TotalSizeIsMultipleOfEightBits, ZeroMod8};
use macrokit::specifier::{Specifier, B1, B24, B3, B4, B64, B8, B9};

#[test]
fn writes_most_significant_bit_first() {
    let mut bits = [0u8, 0, 0, 0];
    set_bits(&mut bits, 4, 8, 85);
    assert_eq!(bits, [0x05, 0x50, 0, 0]);
    assert_eq!(get_bits(&bits, 4, 8), 85);
    assert_eq!(get_bits(&bits, 4, 7), 42);
}

#[test]
fn reads_a_run_of_bits() {
    let bits = [0b1010_0000u8];
    assert_eq!(get_bits(&bits, 0, 3), 5);
    assert_eq!(get_bits(&bits, 1, 2), 1);
    assert_eq!(get_bits(&bits, 0, 0), 0);
}

#[test]
fn write_keeps_only_the_low_bits() {
    let mut bits = [0u8; 2];
    set_bits(&mut bits, 0, 8, 0x1ff);
    assert_eq!(get_bits(&bits, 0, 8), 0xff);
    assert_eq!(bits, [0xff, 0x00]);
}

#[test]
fn write_leaves_neighbours_alone() {
    let mut bits = [0xffu8, 0xff];
    set_bits(&mut bits, 3, 2, 0);
    assert_eq!(bits, [0b1110_0111, 0xff]);
    set_bits(&mut bits, 7, 2, 0b01);
    assert_eq!(bits, [0b1110_0110, 0b1111_1111]);
}

#[test]
fn sixty_four_bit_field_across_bytes() {
    let mut bits = [0u8; 9];
    set_bits(&mut bits, 3, 64, u64::MAX - 1);
    assert_eq!(get_bits(&bits, 3, 64), u64::MAX - 1);
    assert_eq!(get_bits(&bits, 0, 3), 0);
    assert_eq!(get_bits(&bits, 67, 5), 0);
}

#[test]
fn zero_width_write_changes_nothing() {
    let mut bits = [0x5au8];
    set_bits(&mut bits, 3, 0, u64::MAX);
    assert_eq!(bits, [0x5a]);
}

#[test]
fn writing_back_what_was_read_changes_nothing() {
    let mut bits = [0x12u8, 0x34, 0x56];
    let v = get_bits(&bits, 5, 13);
    set_bits(&mut bits, 5, 13, v);
    assert_eq!(bits, [0x12, 0x34, 0x56]);
}

#[test]
fn last_write_wins() {
    let mut bits = [0u8; 2];
    set_bits(&mut bits, 2, 9, 300);
    set_bits(&mut bits, 2, 9, 17);
    assert_eq!(get_bits(&bits, 2, 9), 17);
}

#[test]
fn disjoint_writes_commute() {
    let mut a = [0x3cu8; 3];
    let mut b = [0x3cu8; 3];
    set_bits(&mut a, 1, 6, 0x2a);
    set_bits(&mut a, 7, 11, 0x5f5);
    set_bits(&mut b, 7, 11, 0x5f5);
    set_bits(&mut b, 1, 6, 0x2a);
    assert_eq!(a, b);
}

/// The layout of a struct `{ a: B1, b: B3, c: B4, d: B24 }` in four bytes.
#[test]
fn packed_struct_fields_round_trip() {
    let mut data = [0u8; 4];
    set_bits(&mut data, 0, B1::BITS, B1::convert_to_u64(1));
    set_bits(&mut data, 1, B3::BITS, B3::convert_to_u64(5));
    set_bits(&mut data, 4, B4::BITS, B4::convert_to_u64(12));
    set_bits(&mut data, 8, B24::BITS, B24::convert_to_u64(0xabcdef));
    assert_eq!(B1::convert_from_u64(get_bits(&data, 0, B1::BITS)), 1);
    assert_eq!(B3::convert_from_u64(get_bits(&data, 1, B3::BITS)), 5);
    assert_eq!(B4::convert_from_u64(get_bits(&data, 4, B4::BITS)), 12);
    assert_eq!(B24::convert_from_u64(get_bits(&data, 8, B24::BITS)), 0xabcdef);
    assert_eq!(data, [0b1101_1100, 0xab, 0xcd, 0xef]);
}

#[test]
fn bool_fields() {
    let mut data = [0u8; 1];
    set_bits(&mut data, 5, bool::BITS, bool::convert_to_u64(true));
    assert!(bool::convert_from_u64(get_bits(&data, 5, 1)));
    assert!(!bool::convert_from_u64(get_bits(&data, 4, 1)));
    assert!(bool::convert_from_u64(7));
    assert_eq!(bool::convert_to_u64(false), 0);
}

#[test]
fn widths_and_types_of_specifiers() {
    assert_eq!(B1::BITS, 1);
    assert_eq!(B8::BITS, 8);
    assert_eq!(B9::BITS, 9);
    assert_eq!(B24::BITS, 24);
    assert_eq!(B64::BITS, 64);
    let x: <B9 as Specifier>::T = 511u16;
    assert_eq!(B9::convert_to_u64(x), 511);
    let y: <B24 as Specifier>::T = B24::convert_from_u64(0xffffff);
    assert_eq!(y, 0xffffffu32);
    assert_eq!(B64::convert_from_u64(u64::MAX), u64::MAX);
    assert_eq!(B3::convert_from_u64(200), 200u8);
}

const _: () = <<[(); 16 % 8] as Array>::Marker as TotalSizeIsMultipleOfEightBits>::CHECK;

#[test]
fn multiple_of_eight_marker() {
    let check: () = <ZeroMod8 as TotalSizeIsMultipleOfEightBits>::CHECK;
    assert_eq!(check, ());
}

#[test]
fn reading_more_than_sixty_four_bits_keeps_the_low_ones() {
    let bits = [0xffu8; 10];
    assert_eq!(get_bits(&bits, 0, 80), u64::MAX);
    let mut bits = [0u8; 10];
    bits[0] = 0x80;
    bits[9] = 0x01;
    assert_eq!(get_bits(&bits, 0, 80), 1);
    assert_eq!(get_bits(&bits, 0, 65), 0);
    assert_eq!(get_bits(&bits, 0, 64), 1u64 << 63);
}

#[test]
fn every_specifier_round_trips() {
    assert!(bool::convert_from_u64(bool::convert_to_u64(true)));
    assert!(!bool::convert_from_u64(bool::convert_to_u64(false)));
    assert_eq!(B3::convert_from_u64(B3::convert_to_u64(255)), 255);
    assert_eq!(B24::convert_from_u64(B24::convert_to_u64(u32::MAX)), u32::MAX);
    assert_eq!(B64::convert_from_u64(B64::convert_to_u64(12345)), 12345);
}

/// Fields `{ a: B1, b: B3, c: B4, d: B24 }` start at bits 0, 1, 4 and 8.
#[test]
fn setting_one_field_keeps_the_others() {
    let mut data = [0u8; 4];
    set_bits(&mut data, 0, 1, 1);
    set_bits(&mut data, 1, 3, 6);
    set_bits(&mut data, 8, 24, 0x123456);
    let before = data;
    set_bits(&mut data, 4, 4, 0xf);
    assert_eq!(get_bits(&data, 0, 1), get_bits(&before, 0, 1));
    assert_eq!(get_bits(&data, 1, 3), get_bits(&before, 1, 3));
    assert_eq!(get_bits(&data, 8, 24), get_bits(&before, 8, 24));
    assert_eq!(get_bits(&data, 4, 4), 0xf);
}
