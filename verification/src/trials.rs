//! Repeated NAND trials on pseudo-random inputs, to estimate how often a
//! bootstrapped gate decrypts to the wrong value.
use vstd::prelude::*;
use tfhe::boolean::ciphertext::Ciphertext;
use crate::fhe::{BooleanKeys, Decryption, decrypted_bit, encryption_of, nand_of};
use crate::prng::{XorShift, xorshift_bit, xorshift_state};
use crate::gates::{Gate, gate_value};

verus! {

/// The fixed seed of the input generator.
pub const TRIAL_SEED: u64 = 0x243F6A8885A308D3u64;

/// The seed used for a run of `trials` trials under one parameter set: the fixed
/// seed combined with the trial count.
pub fn seed_for_trials(trials: u32) -> (seed: u64)
    ensures
        seed == TRIAL_SEED ^ (trials as u64),
{
    TRIAL_SEED ^ (trials as u64)
}

/// One trial: the two cleartext inputs and the decryption of the NAND's output.
#[derive(Clone, Copy)]
pub struct TrialOutcome {
    pub index: u32,
    pub a: bool,
    pub b: bool,
    pub got: Decryption,
}

impl TrialOutcome {
    /// The output NAND should have produced.
    pub open spec fn expected_spec(self) -> bool {
        !(self.a && self.b)
    }

    pub open spec fn is_failure(self) -> bool {
        self.got.decrypted() != self.expected_spec()
    }

    /// The output NAND should have produced on this trial's inputs.
    pub fn expected(&self) -> (r: bool)
        ensures
            r == self.expected_spec(),
            r == gate_value(Gate::Nand, self.a, self.b),
    {
        !(self.a && self.b)
    }

    /// Whether the decrypted output differs from the NAND of the inputs.
    pub fn failed(&self) -> (r: bool)
        ensures
            r == self.is_failure(),
            r == (self.got.decrypted() != gate_value(Gate::Nand, self.a, self.b)),
    {
        self.got.value() != !(self.a && self.b)
    }
}

/// The number of failed trials in `s`.
pub open spec fn failure_count(s: Seq<TrialOutcome>) -> nat
    decreases s.len(),
{
    if s.len() == 0 {
        0
    } else {
        failure_count(s.drop_last()) + if s.last().is_failure() {
            1nat
        } else {
            0nat
        }
    }
}

/// A trial's expected value is the NAND truth table of its inputs, and it fails
/// exactly when its decryption differs from that value.
pub proof fn lemma_trial_expected_is_nand(o: TrialOutcome)
    ensures
        o.expected_spec() == gate_value(Gate::Nand, o.a, o.b),
        o.is_failure() <==> o.got.decrypted() != !(o.a && o.b),
{
}

/// Every decryption equals the NAND of its trial's inputs.
pub open spec fn all_trials_correct(s: Seq<TrialOutcome>) -> bool {
    forall|i: int| 0 <= i < s.len() ==> (#[trigger] s[i]).got.decrypted() == !(s[i].a && s[i].b)
}

/// No decryption equals the NAND of its trial's inputs.
pub open spec fn no_trial_correct(s: Seq<TrialOutcome>) -> bool {
    forall|i: int| 0 <= i < s.len() ==> (#[trigger] s[i]).got.decrypted() != !(s[i].a && s[i].b)
}

/// The failure count counts the failed trials: none when every decryption equals
/// the NAND of the inputs, all of them when none does.
pub proof fn lemma_failure_count_extremes(s: Seq<TrialOutcome>)
    ensures
        all_trials_correct(s) ==> failure_count(s) == 0,
        no_trial_correct(s) ==> failure_count(s) == s.len(),
    decreases s.len(),
{
    if s.len() > 0 {
        let t = s.drop_last();
        lemma_failure_count_extremes(t);
        assert(all_trials_correct(s) ==> all_trials_correct(t)) by {
            if all_trials_correct(s) {
                assert forall|i: int| 0 <= i < t.len() implies (#[trigger] t[i]).got.decrypted() == !(
                t[i].a && t[i].b) by {
                    assert(t[i] == s[i]);
                }
            }
        }
        assert(no_trial_correct(s) ==> no_trial_correct(t)) by {
            if no_trial_correct(s) {
                assert forall|i: int| 0 <= i < t.len() implies (#[trigger] t[i]).got.decrypted() != !(
                t[i].a && t[i].b) by {
                    assert(t[i] == s[i]);
                }
            }
        }
        assert(s.last() == s[s.len() - 1]);
    }
}

/// Adding one trial adds one to the failure count exactly when its decryption
/// differs from the NAND of its inputs.
pub proof fn lemma_failure_count_push(s: Seq<TrialOutcome>, o: TrialOutcome)
    ensures
        failure_count(s.push(o)) == failure_count(s) + if o.got.decrypted() != !(o.a && o.b) {
            1int
        } else {
            0int
        },
{
    assert(s.push(o).drop_last() =~= s);
}

/// The failures never outnumber the trials.
pub proof fn lemma_failures_bounded(s: Seq<TrialOutcome>)
    ensures
        failure_count(s) <= s.len(),
    decreases s.len(),
{
    if s.len() > 0 {
        lemma_failures_bounded(s.drop_last());
    }
}

/// What trial `i` of a run with `keys` seeded with `seed` is made of: its inputs
/// are the generator's booleans number `2i + 1` and `2i + 2`, and its result is a
/// decryption under the client key of the output of the NAND gate on encryptions of
/// the two inputs.
pub open spec fn trial_planned(keys: BooleanKeys, o: TrialOutcome, seed: u64, i: int) -> bool {
    &&& o.index == i
    &&& o.a == xorshift_bit(seed, (2 * i + 1) as nat)
    &&& o.b == xorshift_bit(seed, (2 * i + 2) as nat)
    &&& o.got.decrypted() == decrypted_bit(keys.client(), o.got.source())
    &&& exists|ca: Ciphertext, cb: Ciphertext|
        #![trigger nand_of(keys.server(), ca, cb, o.got.source())]
        encryption_of(keys.client(), o.a, ca) && encryption_of(keys.client(), o.b, cb)
            && nand_of(keys.server(), ca, cb, o.got.source())
}

/// Runs `trials` NAND trials: each draws two booleans from a generator seeded with
/// `seed`, encrypts them, evaluates one homomorphic NAND, and decrypts the result.
pub fn run_nand_trials(keys: &BooleanKeys, seed: u64, trials: u32) -> (res: Vec<TrialOutcome>)
    ensures
        res.len() == trials,
        forall|i: int| 0 <= i < res.len() ==> trial_planned(*keys, #[trigger] res[i], seed, i),
{
    let mut rng = XorShift(seed);
    let mut res: Vec<TrialOutcome> = Vec::new();
    let mut i: u32 = 0;
    while i < trials
        invariant
            i <= trials,
            res.len() == i,
            rng.0 == xorshift_state(seed, (2 * i) as nat),
            forall|k: int| 0 <= k < res.len() ==> trial_planned(*keys, #[trigger] res[k], seed, k),
        decreases trials - i,
    {
        let a = rng.next_bool();
        let b = rng.next_bool();
        let ca = keys.encrypt(a);
        let cb = keys.encrypt(b);
        let ct = keys.nand(&ca, &cb);
        let got = keys.decrypt(&ct);
        assert(nand_of(keys.server(), ca.ciphertext(), cb.ciphertext(), got.source()));
        assert(xorshift_state(seed, (2 * i + 1) as nat) == crate::prng::xorshift64(
            xorshift_state(seed, (2 * i) as nat),
        ));
        assert(xorshift_state(seed, (2 * i + 2) as nat) == crate::prng::xorshift64(
            xorshift_state(seed, (2 * i + 1) as nat),
        ));
        let outcome = TrialOutcome { index: i, a, b, got };
        assert(encryption_of(keys.client(), outcome.a, ca.ciphertext()) && encryption_of(
            keys.client(),
            outcome.b,
            cb.ciphertext(),
        ) && nand_of(keys.server(), ca.ciphertext(), cb.ciphertext(), outcome.got.source()));
        assert(trial_planned(*keys, outcome, seed, i as int));
        res.push(outcome);
        i = i + 1;
    }
    res
}

/// The number of failed trials.
pub fn count_failures(outcomes: &Vec<TrialOutcome>) -> (n: u32)
    requires
        outcomes.len() <= u32::MAX,
    ensures
        n == failure_count(outcomes@),
        n <= outcomes.len(),
        all_trials_correct(outcomes@) ==> n == 0,
        no_trial_correct(outcomes@) ==> n == outcomes.len(),
{
    proof {
        lemma_failure_count_extremes(outcomes@);
    }
    let mut n: u32 = 0;
    let mut i: usize = 0;
    while i < outcomes.len()
        invariant
            i <= outcomes.len() <= u32::MAX,
            n == failure_count(outcomes@.take(i as int)),
            n <= i,
        decreases outcomes.len() - i,
    {
        assert(outcomes@.take(i as int) =~= outcomes@.take(i + 1).drop_last());
        if outcomes[i].failed() {
            n = n + 1;
        }
        i = i + 1;
    }
    assert(outcomes@.take(outcomes.len() as int) =~= outcomes@);
    n
}

} // verus!
