//! Chains of NAND gates whose output feeds both inputs of the next gate.
//!
//! NAND(x, x) is NOT x, so after `d` gates the chain holds the starting value
//! negated `d` times: the start itself for even `d`, its negation for odd `d`.
use vstd::prelude::*;
use tfhe::boolean::ciphertext::Ciphertext;
use tfhe::boolean::server_key::ServerKey;
use crate::fhe::{BooleanKeys, EncryptedBit, nand_of};
use crate::gates::{Gate, gate_value};

verus! {

/// The cleartext value after `depth` gates `x -> NAND(x, x)` starting from `start`.
pub open spec fn nand_chain_value(start: bool, depth: nat) -> bool
    decreases depth,
{
    if depth == 0 {
        start
    } else {
        let x = nand_chain_value(start, (depth - 1) as nat);
        gate_value(Gate::Nand, x, x)
    }
}

/// The closed form of the chain: `start` flipped iff `depth` is odd.
pub open spec fn expected_after_depth(start: bool, depth: nat) -> bool {
    if depth % 2 == 0 {
        start
    } else {
        !start
    }
}

/// After any number of self-NAND gates the chain holds `start` when the depth is
/// even and its negation when the depth is odd.
pub proof fn lemma_nand_chain_closed_form(start: bool, depth: nat)
    ensures
        nand_chain_value(start, depth) == expected_after_depth(start, depth),
    decreases depth,
{
    if depth > 0 {
        lemma_nand_chain_closed_form(start, (depth - 1) as nat);
    }
}

/// The value a chain of `depth` self-NAND gates from `start` must decrypt to.
pub fn expected_value(start: bool, depth: u32) -> (r: bool)
    ensures
        r == expected_after_depth(start, depth as nat),
        r == nand_chain_value(start, depth as nat),
{
    proof {
        lemma_nand_chain_closed_form(start, depth as nat);
    }
    if depth % 2 == 0 {
        start
    } else {
        !start
    }
}

/// `trace` is a chain of self-NAND gates: each ciphertext after the first is the
/// output of the bootstrapped NAND gate with the one before it as both inputs.
pub open spec fn is_nand_chain(server: ServerKey, trace: Seq<Ciphertext>) -> bool
    decreases trace.len(),
{
    if trace.len() <= 1 {
        true
    } else {
        let prev = trace[trace.len() - 2];
        is_nand_chain(server, trace.drop_last()) && nand_of(server, prev, prev, trace.last())
    }
}

/// `out` is what `depth` successive self-NAND gates make of `start`.
pub open spec fn chain_output(server: ServerKey, start: Ciphertext, depth: nat, out: Ciphertext) -> bool {
    exists|trace: Seq<Ciphertext>|
        #![trigger is_nand_chain(server, trace)]
        trace.len() == depth + 1 && trace[0] == start && trace.last() == out && is_nand_chain(
            server,
            trace,
        )
}

/// Applies `depth` homomorphic gates `ct -> NAND(ct, ct)`, each one bootstrapped,
/// starting from `ct`, and returns the last output (`ct` itself for depth 0). The
/// output is the end of a chain of exactly `depth` self-NAND gates from `ct`, and is
/// meant to hold the chain's cleartext value; what it decrypts to is what the
/// experiment observes.
pub fn nand_chain(keys: &BooleanKeys, ct: EncryptedBit, depth: u32) -> (r: EncryptedBit)
    requires
        ct.key() == keys.client(),
    ensures
        r.key() == keys.client(),
        chain_output(keys.server(), ct.ciphertext(), depth as nat, r.ciphertext()),
        r.message() == nand_chain_value(ct.message(), depth as nat),
        depth == 0 ==> r == ct,
{
    let ghost start = ct;
    let ghost mut trace: Seq<Ciphertext> = seq![ct.ciphertext()];
    let mut ct = ct;
    let mut i: u32 = 0;
    while i < depth
        invariant
            i <= depth,
            ct.key() == keys.client(),
            ct.message() == nand_chain_value(start.message(), i as nat),
            i == 0 ==> ct == start,
            trace.len() == i + 1,
            trace[0] == start.ciphertext(),
            trace.last() == ct.ciphertext(),
            is_nand_chain(keys.server(), trace),
        decreases depth - i,
    {
        let next = keys.nand(&ct, &ct);
        proof {
            let old_trace = trace;
            trace = trace.push(next.ciphertext());
            assert(trace.drop_last() =~= old_trace);
        }
        ct = next;
        i = i + 1;
    }
    assert(is_nand_chain(keys.server(), trace));
    ct
}

} // verus!
