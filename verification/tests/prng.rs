use tfhe_experiments::prng::{Rng, XorShift};

#[test]
fn next_bool_follows_xorshift_low_bits() {
    let mut rng = XorShift(0x243F6A8885A308D3);
    let expected = [false, false, true, true, true, true, false, false];
    for (i, e) in expected.iter().enumerate() {
        assert_eq!(rng.next_bool(), *e, "draw {i}");
    }
}

#[test]
fn next_bool_updates_state() {
    let mut rng = XorShift(0x243F6A8885A308D3);
    rng.next_bool();
    assert_eq!(rng.0, 0x856d9c28a9741a02);
}

#[test]
fn next_returns_new_state() {
    let mut rng = Rng(1);
    assert_eq!(rng.next(), 1082269761);
    assert_eq!(rng.0, 1082269761);
    assert_eq!(rng.next(), 1152992998833853505);
    assert_eq!(rng.next(), 11177516664432764457);
}

#[test]
fn zero_state_is_fixed() {
    let mut rng = Rng(0);
    assert_eq!(rng.next(), 0);
    let mut b = XorShift(0);
    assert!(!b.next_bool());
    assert_eq!(b.0, 0);
}

#[test]
fn below_small_bounds_give_zero_without_advancing() {
    let mut rng = Rng(12345);
    assert_eq!(rng.below(0), 0);
    assert_eq!(rng.0, 12345);
    assert_eq!(rng.below(1), 0);
    assert_eq!(rng.0, 12345);
}

#[test]
fn below_reduces_next_state() {
    let mut rng = Rng(1);
    assert_eq!(rng.below(1000), 1082269761 % 1000);
    assert_eq!(rng.0, 1082269761);
    for _ in 0..100 {
        assert!(rng.below(7) < 7);
    }
}
