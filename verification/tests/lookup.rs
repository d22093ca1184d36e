use tfhe_experiments::lookup::{
    all_nand_cases_match, all_outputs_match, cleartext_nand, combine_bits, double_value, nand_lut, square_mod_16,
    table_lookup, LutFunction,
};

#[test]
fn square_mod_16_values() {
    let expected = [0u64, 1, 4, 9, 0, 9, 4, 1, 0, 1, 4, 9, 0, 9, 4, 1];
    for x in 0..16u64 {
        assert_eq!(square_mod_16(x), expected[x as usize]);
    }
    assert_eq!(square_mod_16(4_000_000_000), 0);
}

#[test]
fn table_lookup_values() {
    let table = [3u64, 1, 4, 1, 5, 9, 2, 6, 5, 3, 5, 8, 9, 7, 9, 3];
    for x in 0..16u64 {
        assert_eq!(table_lookup(x), table[x as usize]);
        assert_eq!(table_lookup(x + 16), table[x as usize]);
    }
    assert_eq!(table_lookup(u64::MAX), 3);
}

#[test]
fn double_value_doubles() {
    assert_eq!(double_value(3), 6);
    assert_eq!(double_value(0), 0);
}

#[test]
fn nand_through_combined_lookup() {
    for x1 in 0..2u64 {
        for x2 in 0..2u64 {
            let v = combine_bits(x1, x2);
            assert_eq!(v, x1 + 2 * x2);
            assert_eq!(nand_lut(v), cleartext_nand(x1, x2));
        }
    }
    assert_eq!(nand_lut(3), 0);
    assert_eq!(nand_lut(7), 1);
    assert_eq!(cleartext_nand(1, 1), 0);
    assert_eq!(cleartext_nand(2, 1), 1);
}

#[test]
fn outputs_checked_against_lookup_functions() {
    let squares: Vec<u64> = (0..16u64).map(|x| (x * x) % 16).collect();
    assert!(all_outputs_match(LutFunction::SquareMod16, &squares));
    assert!(!all_outputs_match(LutFunction::Table, &squares));
    let table = vec![3u64, 1, 4, 1, 5, 9, 2, 6, 5, 3, 5, 8, 9, 7, 9, 3];
    assert!(all_outputs_match(LutFunction::Table, &table));
    let mut wrong = table.clone();
    wrong[15] = 4;
    assert!(!all_outputs_match(LutFunction::Table, &wrong));
    assert!(all_outputs_match(LutFunction::Table, &vec![]));
    assert_eq!(LutFunction::SquareMod16.apply(7), 1);
    assert_eq!(LutFunction::Table.apply(5), 9);
}

#[test]
fn nand_cases_checked_in_order() {
    assert!(all_nand_cases_match(&vec![1, 1, 1, 0]));
    assert!(!all_nand_cases_match(&vec![1, 1, 0, 1]));
    assert!(!all_nand_cases_match(&vec![0]));
    assert!(all_nand_cases_match(&vec![1, 1]));
    assert!(all_nand_cases_match(&vec![]));
}
