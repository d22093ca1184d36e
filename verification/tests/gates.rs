use tfhe_experiments::gates::{Gate, CASES, GATES};


#[test]
fn truth_tables() {
    let cases = [(false, false), (false, true), (true, false), (true, true)];
    let nand = [true, true, true, false];
    let and = [false, false, false, true];
    let or = [false, true, true, true];
    let xor = [false, true, true, false];
    for (i, (a, b)) in cases.iter().enumerate() {
        assert_eq!(Gate::Nand.eval(*a, *b), nand[i]);
        assert_eq!(Gate::And.eval(*a, *b), and[i]);
        assert_eq!(Gate::Or.eval(*a, *b), or[i]);
        assert_eq!(Gate::Xor.eval(*a, *b), xor[i]);
    }
}

#[test]
fn nand_with_itself_is_not() {
    assert!(Gate::Nand.eval(false, false));
    assert!(!Gate::Nand.eval(true, true));
}

#[test]
fn gate_labels() {
    assert_eq!(Gate::Nand.label(), "NAND");
    assert_eq!(Gate::And.label(), "AND");
    assert_eq!(Gate::Or.label(), "OR");
    assert_eq!(Gate::Xor.label(), "XOR");
}

#[test]
fn sixteen_cases() {
    assert_eq!(CASES * GATES, 16);
}
