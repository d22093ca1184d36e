use tfhe_experiments::bench::{
    add_bound, count_correct_runs, is_recorded, isqrt, mul_bound, mul_seed, plan_operands,
    wrapped_result, BenchOp, RUNS, WARMUP,
};

#[test]
fn isqrt_small_values() {
    let expected = [0u128, 1, 1, 1, 2, 2, 2, 2, 2, 3, 3, 3, 3, 3, 3, 3, 4];
    for (v, r) in expected.iter().enumerate() {
        assert_eq!(isqrt(v as u128), *r, "isqrt({v})");
    }
}

#[test]
fn isqrt_large_values() {
    assert_eq!(isqrt(255), 15);
    assert_eq!(isqrt(65535), 255);
    assert_eq!(isqrt(u32::MAX as u128), 65535);
    assert_eq!(isqrt(u64::MAX as u128), 4294967295);
    assert_eq!(isqrt(1u128 << 126), 1u128 << 63);
    assert_eq!(isqrt((1u128 << 126) - 1), (1u128 << 63) - 1);
    assert_eq!(isqrt(1u128 << 100), 1u128 << 50);
    assert_eq!(isqrt((1u128 << 100) - 1), (1u128 << 50) - 1);
}

#[test]
fn operand_bounds_per_width() {
    assert_eq!(add_bound(8), 128);
    assert_eq!(add_bound(16), 32768);
    assert_eq!(add_bound(32), 1 << 31);
    assert_eq!(add_bound(64), 1 << 63);
    assert_eq!(mul_bound(8), 16);
    assert_eq!(mul_bound(16), 256);
    assert_eq!(mul_bound(32), 65536);
    assert_eq!(mul_bound(64), 1 << 32);
}

#[test]
fn bounded_operands_do_not_overflow() {
    let b = add_bound(8) - 1;
    assert!(b + b <= 255);
    let m = mul_bound(8) - 1;
    assert!(m * m <= 255);
    assert!(mul_bound(8) * mul_bound(8) > 255);
    assert_eq!(wrapped_result(BenchOp::Add, 8, b, b), b + b);
    assert_eq!(wrapped_result(BenchOp::Mul, 8, m, m), m * m);
}

#[test]
fn wrapped_results_of_fixed_operands() {
    assert_eq!(wrapped_result(BenchOp::Add, 8, 37, 85), 37u8.wrapping_add(85) as u64);
    assert_eq!(wrapped_result(BenchOp::Mul, 8, 37, 85), 73);
    assert_eq!(wrapped_result(BenchOp::Add, 16, 1000, 2345), 3345);
    assert_eq!(wrapped_result(BenchOp::Mul, 16, 1000, 2345), 51240);
    assert_eq!(wrapped_result(BenchOp::Add, 32, 123456, 789012), 912468);
    assert_eq!(wrapped_result(BenchOp::Mul, 32, 123456, 789012), 2918984960);
    assert_eq!(wrapped_result(BenchOp::Add, 64, 1234567890, 9876543210), 11111111100);
    assert_eq!(
        wrapped_result(BenchOp::Mul, 64, 1234567890, 9876543210),
        1234567890u64.wrapping_mul(9876543210)
    );
    assert_eq!(wrapped_result(BenchOp::Mul, 64, 1234567890, 9876543210), 12193263111263526900);
    assert_eq!(wrapped_result(BenchOp::Add, 64, u64::MAX, 1), 0);
}

#[test]
fn plan_draws_pairs_from_seed() {
    let plan = plan_operands(0x1111_1111, 128, 4);
    assert_eq!(plan, vec![(115, 29), (71, 85), (121, 87), (91, 30)]);
    let plan = plan_operands(mul_seed(0x1111_1111), 16, 4);
    assert_eq!(plan, vec![(1, 3), (6, 9), (15, 15), (11, 0)]);
    assert_eq!(plan_operands(7, 1, 3), vec![(0, 0), (0, 0), (0, 0)]);
    assert_eq!(plan_operands(7, 5, 0), vec![]);
    assert_eq!(plan_operands(9, 100, WARMUP + RUNS).len(), 33);
}

#[test]
fn mul_seed_mixes_constant() {
    assert_eq!(mul_seed(0x1111_1111), 0x1111_1111 ^ 0xDEAD_BEEF);
}

#[test]
fn warmup_runs_are_not_recorded() {
    assert!(!is_recorded(0));
    assert!(!is_recorded(2));
    assert!(is_recorded(3));
    assert!(is_recorded(32));
}

#[test]
fn correct_runs_skip_warmup_and_wrong_results() {
    let plan = vec![(1u64, 2u64), (3, 4), (5, 6), (7, 8), (9, 10), (200, 100)];
    let got = vec![0u64, 0, 0, 15, 18, 44];
    assert_eq!(count_correct_runs(BenchOp::Add, 8, &plan, &got), 2);
    let got = vec![3u64, 7, 11, 16, 19, 44];
    assert_eq!(count_correct_runs(BenchOp::Add, 8, &plan, &got), 2);
    let got = vec![2u64, 12, 30, 56, 90, 32];
    assert_eq!(count_correct_runs(BenchOp::Mul, 8, &plan, &got), 3);
}

#[test]
fn op_labels() {
    assert_eq!(BenchOp::Add.label(), "add");
    assert_eq!(BenchOp::Mul.label(), "mul");
}
