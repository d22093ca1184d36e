use tfhe_experiments::prng::XorShift;
use tfhe_experiments::trials::{seed_for_trials, TRIAL_SEED};


#[test]
fn seeds() {
    assert_eq!(TRIAL_SEED, 0x243F6A8885A308D3);
    assert_eq!(seed_for_trials(2000), 2611923443488329475);
    assert_eq!(seed_for_trials(0), TRIAL_SEED);
}

#[test]
fn first_trial_inputs_from_seed() {
    let mut rng = XorShift(TRIAL_SEED);
    assert_eq!((rng.next_bool(), rng.next_bool()), (false, false));
    assert_eq!((rng.next_bool(), rng.next_bool()), (true, true));
    let mut rng = XorShift(seed_for_trials(2));
    let a = rng.next_bool();
    let b = rng.next_bool();
    assert_eq!((a, b), (false, true));
}
