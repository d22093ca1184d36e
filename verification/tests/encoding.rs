use tfhe_experiments::encoding::{
    decode, delta_for, encode, DECODE_BASE_LOG, DECODE_LEVEL_COUNT, NAND_MESSAGE_MODULUS,
    PBS_MESSAGE_MODULUS,
};

#[test]
fn delta_leaves_a_padding_bit() {
    assert_eq!(delta_for(PBS_MESSAGE_MODULUS), 1 << 59);
    assert_eq!(delta_for(NAND_MESSAGE_MODULUS), 1 << 61);
    assert_eq!(delta_for(1), 1 << 63);
    assert_eq!(delta_for(3), (1u64 << 63) / 3);
}

#[test]
fn encode_scales_by_delta() {
    assert_eq!(encode(3, 1 << 59), 3 << 59);
    assert_eq!(encode(0, 1 << 59), 0);
}

#[test]
fn decode_inverts_encode() {
    for modulus in [PBS_MESSAGE_MODULUS, NAND_MESSAGE_MODULUS] {
        let delta = delta_for(modulus);
        for m in 0..modulus {
            let pt = encode(m, delta);
            assert_eq!(decode(DECODE_BASE_LOG, DECODE_LEVEL_COUNT, delta, pt), m);
        }
    }
}

#[test]
fn decode_tolerates_half_a_step_of_noise() {
    let delta = delta_for(PBS_MESSAGE_MODULUS);
    let half = 1u64 << 58;
    for m in 0..16u64 {
        let pt = encode(m, delta);
        assert_eq!(decode(5, 1, delta, pt.wrapping_add(half - 1)), m);
        assert_eq!(decode(5, 1, delta, pt.wrapping_sub(half)), m);
        assert_eq!(decode(5, 1, delta, pt.wrapping_add(12345)), m);
    }
}

#[test]
fn decode_rounds_half_up() {
    let delta = delta_for(PBS_MESSAGE_MODULUS);
    let half = 1u64 << 58;
    assert_eq!(decode(5, 1, delta, encode(6, delta) + half), 7);
    assert_eq!(decode(5, 1, delta, encode(6, delta) - half - 1), 5);
}

#[test]
fn decode_rounds_to_the_decomposer_step() {
    let delta = delta_for(PBS_MESSAGE_MODULUS);
    assert_eq!(decode(5, 1, 1 << 59, 2 * delta + 5), 2);
    assert_eq!(decode(4, 1, 1 << 60, 3 << 59), 2);
    assert_eq!(decode(5, 1, delta, u64::MAX), 0);
    assert_eq!(decode(1, 1, 1, 1 << 62), 1 << 63);
}

#[test]
fn sanity_example_values() {
    let delta = delta_for(16);
    let pt = encode(6, delta);
    assert_eq!(decode(5, 1, delta, pt), 6);
}
