//! Exhaustive check of the homomorphic NAND, AND, OR and XOR gates on the four
//! boolean input pairs.
use vstd::prelude::*;
use tfhe::boolean::ciphertext::Ciphertext;
use tfhe::boolean::server_key::ServerKey;
use crate::fhe::{BooleanKeys, Decryption, EncryptedBit, and_of, decrypted_bit, encryption_of, nand_of, or_of, xor_of};

verus! {

/// The gates under test.
#[derive(Clone, Copy, Debug, PartialEq, Eq, Structural)]
pub enum Gate {
    Nand,
    And,
    Or,
    Xor,
}

/// The truth table of each gate.
pub open spec fn gate_value(gate: Gate, a: bool, b: bool) -> bool {
    match gate {
        Gate::Nand => !(a && b),
        Gate::And => a && b,
        Gate::Or => a || b,
        Gate::Xor => a != b,
    }
}

/// The label a gate is printed with.
pub open spec fn gate_label(gate: Gate) -> Seq<char> {
    match gate {
        Gate::Nand => seq!['N', 'A', 'N', 'D'],
        Gate::And => seq!['A', 'N', 'D'],
        Gate::Or => seq!['O', 'R'],
        Gate::Xor => seq!['X', 'O', 'R'],
    }
}

/// The gates in the order they are checked for each input pair.
pub open spec fn gate_at(j: int) -> Gate {
    if j == 0 {
        Gate::Nand
    } else if j == 1 {
        Gate::And
    } else if j == 2 {
        Gate::Or
    } else {
        Gate::Xor
    }
}

/// The input pairs in the order they are checked: (F,F), (F,T), (T,F), (T,T).
pub open spec fn case_at(i: int) -> (bool, bool) {
    (i >= 2, i % 2 == 1)
}

/// Number of input pairs.
pub const CASES: usize = 4;

/// Number of gates checked on each pair.
pub const GATES: usize = 4;

impl Gate {
    /// The cleartext value of this gate on `a` and `b`.
    pub fn eval(self, a: bool, b: bool) -> (r: bool)
        ensures
            r == gate_value(self, a, b),
    {
        match self {
            Gate::Nand => !(a && b),
            Gate::And => a && b,
            Gate::Or => a || b,
            Gate::Xor => a != b,
        }
    }

    /// This gate's label: "NAND", "AND", "OR" or "XOR".
    pub fn label(self) -> (s: &'static str)
        ensures
            s@ == gate_label(self),
    {
        match self {
            Gate::Nand => {
                proof {
                    reveal_strlit("NAND");
                }
                "NAND"
            },
            Gate::And => {
                proof {
                    reveal_strlit("AND");
                }
                "AND"
            },
            Gate::Or => {
                proof {
                    reveal_strlit("OR");
                }
                "OR"
            },
            Gate::Xor => {
                proof {
                    reveal_strlit("XOR");
                }
                "XOR"
            },
        }
    }
}

/// NAND of a value with itself is its negation.
pub proof fn lemma_nand_self_is_not(x: bool)
    ensures
        gate_value(Gate::Nand, x, x) == !x,
{
}

/// The outcome of one gate on one input pair.
#[derive(Clone, Copy)]
pub struct GateOutcome {
    pub gate: Gate,
    pub a: bool,
    pub b: bool,
    /// The decryption of the homomorphic gate's output.
    pub got: Decryption,
    /// The truth-table value on `a` and `b`.
    pub expected: bool,
}

impl GateOutcome {
    pub open spec fn is_ok(self) -> bool {
        self.got.decrypted() == self.expected
    }

    /// Whether the decrypted output matched the truth table.
    pub fn ok(&self) -> (r: bool)
        ensures
            r == self.is_ok(),
            r == (self.got.decrypted() == self.expected),
    {
        self.got.value() == self.expected
    }
}

/// The number of outcomes whose decrypted output matched.
pub open spec fn count_ok(s: Seq<GateOutcome>) -> nat
    decreases s.len(),
{
    if s.len() == 0 {
        0
    } else {
        count_ok(s.drop_last()) + if s.last().is_ok() {
            1nat
        } else {
            0nat
        }
    }
}

/// `out` is the output of the bootstrapped `gate` on `left` and `right`.
pub open spec fn gate_output_of(
    server: ServerKey,
    gate: Gate,
    left: Ciphertext,
    right: Ciphertext,
    out: Ciphertext,
) -> bool {
    match gate {
        Gate::Nand => nand_of(server, left, right, out),
        Gate::And => and_of(server, left, right, out),
        Gate::Or => or_of(server, left, right, out),
        Gate::Xor => xor_of(server, left, right, out),
    }
}

/// Of an outcome whose expected value is its gate's truth-table value (as in every
/// planned outcome), `ok` holds exactly when the decryption equals that value.
pub proof fn lemma_ok_is_truth_table_match(o: GateOutcome)
    requires
        o.expected == gate_value(o.gate, o.a, o.b),
    ensures
        o.is_ok() <==> o.got.decrypted() == gate_value(o.gate, o.a, o.b),
{
}

/// Every decryption equals the expected value of its outcome.
pub open spec fn all_outcomes_match(s: Seq<GateOutcome>) -> bool {
    forall|i: int| 0 <= i < s.len() ==> (#[trigger] s[i]).got.decrypted() == s[i].expected
}

/// No decryption equals the expected value of its outcome.
pub open spec fn no_outcome_matches(s: Seq<GateOutcome>) -> bool {
    forall|i: int| 0 <= i < s.len() ==> (#[trigger] s[i]).got.decrypted() != s[i].expected
}

/// The correct count counts the matching outcomes: all of them when every
/// decryption matches, none when no decryption does.
pub proof fn lemma_count_ok_extremes(s: Seq<GateOutcome>)
    ensures
        all_outcomes_match(s) ==> count_ok(s) == s.len(),
        no_outcome_matches(s) ==> count_ok(s) == 0,
    decreases s.len(),
{
    if s.len() > 0 {
        let t = s.drop_last();
        lemma_count_ok_extremes(t);
        assert(all_outcomes_match(s) ==> all_outcomes_match(t)) by {
            if all_outcomes_match(s) {
                assert forall|i: int| 0 <= i < t.len() implies (#[trigger] t[i]).got.decrypted()
                    == t[i].expected by {
                    assert(t[i] == s[i]);
                }
            }
        }
        assert(no_outcome_matches(s) ==> no_outcome_matches(t)) by {
            if no_outcome_matches(s) {
                assert forall|i: int| 0 <= i < t.len() implies (#[trigger] t[i]).got.decrypted()
                    != t[i].expected by {
                    assert(t[i] == s[i]);
                }
            }
        }
        assert(s.last() == s[s.len() - 1]);
    }
}

/// What the outcome at position `k` of a full run with `keys` is made of: its gate
/// and inputs, the truth-table value, and a decryption under the client key of the
/// output of that gate on encryptions of the two inputs.
pub open spec fn outcome_planned(keys: BooleanKeys, o: GateOutcome, k: int) -> bool {
    &&& o.gate == gate_at(k % 4)
    &&& (o.a, o.b) == case_at(k / 4)
    &&& o.expected == gate_value(o.gate, o.a, o.b)
    &&& o.got.decrypted() == decrypted_bit(keys.client(), o.got.source())
    &&& exists|ca: Ciphertext, cb: Ciphertext|
        #![trigger gate_output_of(keys.server(), o.gate, ca, cb, o.got.source())]
        encryption_of(keys.client(), o.a, ca) && encryption_of(keys.client(), o.b, cb)
            && gate_output_of(keys.server(), o.gate, ca, cb, o.got.source())
}

/// Encrypts each of the four input pairs, evaluates the four gates on them
/// homomorphically, decrypts, and records each result next to its truth-table value.
/// The outcomes come pair by pair, and within a pair in the order NAND, AND, OR, XOR.
pub fn run_gate_cases(keys: &BooleanKeys) -> (res: Vec<GateOutcome>)
    ensures
        res.len() == CASES * GATES,
        forall|k: int| 0 <= k < res.len() ==> outcome_planned(*keys, #[trigger] res[k], k),
{
    let mut res: Vec<GateOutcome> = Vec::new();
    let mut i: usize = 0;
    while i < CASES
        invariant
            i <= CASES,
            res.len() == i * GATES,
            forall|k: int| 0 <= k < res.len() ==> outcome_planned(*keys, #[trigger] res[k], k),
        decreases CASES - i,
    {
        let a = i >= 2;
        let b = i % 2 == 1;
        let ca = keys.encrypt(a);
        let cb = keys.encrypt(b);
        let gates = [Gate::Nand, Gate::And, Gate::Or, Gate::Xor];
        let mut j: usize = 0;
        while j < GATES
            invariant
                i < CASES,
                j <= GATES,
                encryption_of(keys.client(), a, ca.ciphertext()),
                encryption_of(keys.client(), b, cb.ciphertext()),
                ca.key() == keys.client(),
                cb.key() == keys.client(),
                a == (i >= 2),
                b == (i % 2 == 1),
                gates@ == seq![Gate::Nand, Gate::And, Gate::Or, Gate::Xor],
                res.len() == i * GATES + j,
                forall|k: int| 0 <= k < res.len() ==> outcome_planned(*keys, #[trigger] res[k], k),
            decreases GATES - j,
        {
            let gate = gates[j];
            let ct: EncryptedBit = match gate {
                Gate::Nand => keys.nand(&ca, &cb),
                Gate::And => keys.and(&ca, &cb),
                Gate::Or => keys.or(&ca, &cb),
                Gate::Xor => keys.xor(&ca, &cb),
            };
            let got = keys.decrypt(&ct);
            assert(gate_output_of(keys.server(), gate, ca.ciphertext(), cb.ciphertext(), got.source()));
            let expected = gate.eval(a, b);
            let ghost k = res.len() as int;
            let outcome = GateOutcome { gate, a, b, got, expected };
            assert(encryption_of(keys.client(), outcome.a, ca.ciphertext()) && encryption_of(
                keys.client(),
                outcome.b,
                cb.ciphertext(),
            ) && gate_output_of(keys.server(), outcome.gate, ca.ciphertext(), cb.ciphertext(), outcome.got.source()));
            res.push(outcome);
            assert(k % 4 == j as int && k / 4 == i as int) by (nonlinear_arith)
                requires
                    k == i * 4 + j,
                    j < 4,
            ;
            assert(outcome_planned(*keys, res[k], k));
            j = j + 1;
        }
        i = i + 1;
    }
    res
}

/// The number of outcomes whose decrypted output matched the truth table.
pub fn count_correct(outcomes: &Vec<GateOutcome>) -> (n: usize)
    ensures
        n == count_ok(outcomes@),
        all_outcomes_match(outcomes@) ==> n == outcomes.len(),
        no_outcome_matches(outcomes@) ==> n == 0,
{
    proof {
        lemma_count_ok_extremes(outcomes@);
    }
    let mut n: usize = 0;
    let mut i: usize = 0;
    while i < outcomes.len()
        invariant
            i <= outcomes.len(),
            n == count_ok(outcomes@.take(i as int)),
            n <= i,
        decreases outcomes.len() - i,
    {
        assert(outcomes@.take(i as int) =~= outcomes@.take(i + 1).drop_last());
        if outcomes[i].ok() {
            n = n + 1;
        }
        i = i + 1;
    }
    assert(outcomes@.take(outcomes.len() as int) =~= outcomes@);
    n
}

} // verus!
