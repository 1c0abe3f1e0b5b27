use macrokit::enum_specifier::{bits_for_variant_count, variant_index, EnumSpecifierError};

#[test]
fn widths_of_power_of_two_variant_counts() {
    assert_eq!(bits_for_variant_count(1), Ok(0));
    assert_eq!(bits_for_variant_count(2), Ok(1));
    assert_eq!(bits_for_variant_count(4), Ok(2));
    assert_eq!(bits_for_variant_count(8), Ok(3));
    assert_eq!(bits_for_variant_count(1 << 20), Ok(20));
    assert_eq!(bits_for_variant_count(1usize << (usize::BITS - 1)), Ok(usize::BITS as usize - 1));
}

#[test]
fn other_variant_counts_are_refused() {
    for n in [0usize, 3, 5, 6, 7, 12, usize::MAX] {
        assert_eq!(bits_for_variant_count(n), Err(EnumSpecifierError::VariantCountNotPowerOfTwo));
    }
    assert_eq!(
        EnumSpecifierError::VariantCountNotPowerOfTwo.message(),
        "BitfieldSpecifier expected a number of variants which is a power of 2"
    );
}

#[test]
fn raw_value_reads_as_first_matching_variant() {
    let discriminants = [0u64, 1, 2, 9];
    assert_eq!(variant_index(&discriminants, 9), Some(3));
    assert_eq!(variant_index(&discriminants, 0), Some(0));
    assert_eq!(variant_index(&discriminants, 3), None);
    assert_eq!(variant_index(&[4, 4], 4), Some(0));
    assert_eq!(variant_index(&[], 0), None);
}

#[test]
fn each_discriminant_reads_back_as_its_variant() {
    let discriminants = [7u64, 0, 12, 3, 5];
    for (i, d) in discriminants.iter().enumerate() {
        assert_eq!(variant_index(&discriminants, *d), Some(i));
    }
}

#[test]
fn fitting_discriminants_fill_the_range() {
    let discriminants = [2u64, 0, 3, 1];
    let bits = bits_for_variant_count(discriminants.len()).unwrap();
    assert_eq!(bits, 2);
    for x in 0..(1u64 << bits) {
        let i = variant_index(&discriminants, x).expect("a variant");
        assert_eq!(discriminants[i], x);
    }
    assert_eq!(variant_index(&discriminants, 1 << bits), None);
    assert_eq!(variant_index(&discriminants, u64::MAX), None);
}
