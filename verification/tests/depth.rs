use tfhe_experiments::depth::expected_value;


#[test]
fn expected_value_flips_on_odd_depth() {
    assert!(expected_value(true, 0));
    assert!(!expected_value(true, 1));
    assert!(expected_value(true, 10));
    assert!(expected_value(true, 10_000));
    assert!(!expected_value(true, 1_001));
    assert!(expected_value(false, 1));
    assert!(!expected_value(false, 100));
}

#[test]
fn expected_value_matches_repeated_nand() {
    for start in [false, true] {
        let mut x = start;
        for d in 0..50u32 {
            assert_eq!(expected_value(start, d), x);
            x = !(x && x);
        }
    }
}
