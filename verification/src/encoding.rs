//! The plaintext encoding of programmable bootstrapping.
//!
//! A message `m` of a space with `message_modulus` values is encoded as the
//! 64-bit plaintext `m * delta` with `delta = 2^63 / message_modulus`, which
//! leaves the top bit free as padding. After the bootstrap, the decrypted
//! plaintext carries noise; it is decoded by rounding to the closest value that a
//! signed decomposition with `base_log * level_count` bits can represent, then
//! dividing by `delta`.
use vstd::prelude::*;
use vstd::arithmetic::power2::{pow2, lemma_pow2_adds, lemma_pow2_pos, lemma_pow2_unfold, lemma2_to64, lemma2_to64_rest};
use vstd::arithmetic::div_mod::{lemma_fundamental_div_mod, lemma_fundamental_div_mod_converse, lemma_small_mod, lemma_div_by_multiple, lemma_mod_self_0};
use tfhe::core_crypto::commons::math::decomposition::SignedDecomposer;
use tfhe::core_crypto::commons::parameters::{DecompositionBaseLog, DecompositionLevelCount};

verus! {

/// `2^64` as an integer.
pub open spec fn word() -> int {
    pow2(64) as int
}

/// The value closest to `input` among the multiples of `2^(64 - bits)`, ties
/// rounded up, reduced modulo `2^64`.
pub open spec fn closest_representable_value(input: u64, bits: nat) -> int {
    let q = pow2((64 - bits) as nat) as int;
    ((input as int + q / 2) / q * q) % word()
}

/// Calls `SignedDecomposer::<u64>::closest_representable` on a decomposer made with
/// `DecompositionBaseLog(base_log)` and `DecompositionLevelCount(level_count)`.
/// The crate computes it as `((input >> s) + 1) & !1) << s` with
/// `s = 63 - base_log * level_count`, which is the rounding stated here. With more
/// than 62 decomposed bits the `+ 1` can overflow, so those are excluded.
#[verifier::external_body]
pub(crate) fn closest_representable(base_log: usize, level_count: usize, input: u64) -> (r: u64)
    requires
        base_log * level_count <= 62,
    ensures
        r == closest_representable_value(input, (base_log * level_count) as nat),
{
    SignedDecomposer::<u64>::new(
        DecompositionBaseLog(base_log),
        DecompositionLevelCount(level_count),
    ).closest_representable(input)
}

/// Message space of the programmable-bootstrapping experiment: 4 bits.
pub const PBS_MESSAGE_MODULUS: u64 = 16;

/// Message space of the NAND gate built from a bootstrap: the two input bits
/// combined as `x1 + 2 * x2`.
pub const NAND_MESSAGE_MODULUS: u64 = 4;

/// Base logarithm of the decomposer used to decode.
pub const DECODE_BASE_LOG: usize = 5;

/// Level count of the decomposer used to decode.
pub const DECODE_LEVEL_COUNT: usize = 1;

/// The scaling factor `2^63 / message_modulus` (one bit of padding).
pub fn delta_for(message_modulus: u64) -> (delta: u64)
    requires
        message_modulus > 0,
    ensures
        delta == (pow2(63) as int) / (message_modulus as int),
{
    proof {
        lemma2_to64_rest();
    }
    0x8000_0000_0000_0000u64 / message_modulus
}

/// Encodes `message` as the plaintext `message * delta`.
pub fn encode(message: u64, delta: u64) -> (pt: u64)
    requires
        message * delta <= u64::MAX,
    ensures
        pt == message * delta,
{
    message * delta
}

/// Decodes a decrypted plaintext: rounds it to the closest value representable by
/// the decomposer, then divides by `delta`.
pub fn decode(base_log: usize, level_count: usize, delta: u64, pt: u64) -> (m: u64)
    requires
        delta > 0,
        base_log * level_count <= 62,
    ensures
        m == closest_representable_value(pt, (base_log * level_count) as nat) / (delta as int),
{
    let closest = closest_representable(base_log, level_count, pt);
    closest / delta
}

/// The padding bit stays clear: every message of a space of `message_modulus`
/// values, scaled by `2^63 / message_modulus`, lies below `2^63`.
pub proof fn lemma_encoding_keeps_padding_bit(message_modulus: nat, m: nat)
    requires
        message_modulus > 0,
        m < message_modulus,
    ensures
        m * (pow2(63) / message_modulus) < pow2(63),
{
    let n = pow2(63);
    let d = n / message_modulus;
    lemma_pow2_pos(63);
    lemma_fundamental_div_mod(n as int, message_modulus as int);
    assert(m * d < n) by (nonlinear_arith)
        requires
            n == message_modulus * d + n % message_modulus,
            0 <= n % message_modulus,
            m < message_modulus,
            n > 0,
            d >= 0,
    ;
}

/// The plaintext `m * delta + e` as a 64-bit word (negative noise wraps around).
pub open spec fn noisy_plaintext(m: nat, delta: nat, e: int) -> u64 {
    ((m * delta + e) % word()) as u64
}

/// Decoding tolerates noise: when `delta` is a multiple of the rounding step
/// `2^(64 - bits)` and the encoded message fits the word, a plaintext `m * delta + e`
/// with `-step/2 <= e < step/2` decodes to `m`.
pub proof fn lemma_decode_noisy(m: nat, delta: nat, bits: nat, e: int)
    requires
        bits <= 62,
        delta > 0,
        delta % pow2((64 - bits) as nat) == 0,
        m * delta < word(),
        -(pow2((63 - bits) as nat) as int) <= e < pow2((63 - bits) as nat),
    ensures
        closest_representable_value(noisy_plaintext(m, delta, e), bits) / (delta as int) == m,
{
    let q = pow2((64 - bits) as nat) as int;
    let h = pow2((63 - bits) as nat) as int;
    let p = pow2(bits) as int;
    let n = word();
    lemma2_to64();
    assert(n == 0x1_0000_0000_0000_0000);
    lemma_pow2_unfold((64 - bits) as nat);
    assert(q == 2 * h);
    lemma_pow2_adds((64 - bits) as nat, bits);
    assert(n == q * p);
    lemma_pow2_pos((63 - bits) as nat);
    lemma_pow2_pos(bits);
    assert(q / 2 == h);
    lemma_fundamental_div_mod(delta as int, q);
    let d = delta as int / q;
    assert(delta == q * d);
    let c = m * d;
    assert(m * delta == c * q) by (nonlinear_arith)
        requires
            delta == q * d,
            c == m * d,
    ;
    assert(c < p) by (nonlinear_arith)
        requires
            c * q < q * p,
            q > 0,
    ;
    assert(c * q <= n - q) by (nonlinear_arith)
        requires
            c < p,
            n == q * p,
            q > 0,
    ;
    assert(c >= 0) by (nonlinear_arith)
        requires
            c == m * d,
            m >= 0,
            d >= 0,
    ;
    let x = m * delta + e;
    let pt = noisy_plaintext(m, delta, e);
    if x >= 0 {
        assert(x < n);
        lemma_small_mod(x as nat, n as nat);
        assert(x % n == x);
        assert(pt as int == x);
        lemma_fundamental_div_mod_converse(pt as int + h, q, c, e + h);
        assert((pt as int + h) / q == c);
        lemma_small_mod((c * q) as nat, n as nat);
        assert(closest_representable_value(pt, bits) == m * delta);
        lemma_div_by_multiple(m as int, delta as int);
    } else {
        assert(c == 0) by (nonlinear_arith)
            requires
                c * q + e < 0,
                e >= -h,
                q == 2 * h,
                h > 0,
                c >= 0,
        ;
        assert(m == 0) by (nonlinear_arith)
            requires
                m * delta == c * q,
                c == 0,
                delta > 0,
        ;
        lemma_fundamental_div_mod_converse(x, n, -1, n + e);
        assert(x % n == n + e);
        assert(pt as int == n + e);
        lemma_fundamental_div_mod_converse(pt as int + h, q, p, e + h);
        assert((pt as int + h) / q == p);
        assert(p * q == n) by (nonlinear_arith)
            requires
                n == q * p,
        ;
        assert((pt as int + q / 2) / q * q == n);
        lemma_mod_self_0(n);
        assert(closest_representable_value(pt, bits) == 0);
    }
}

/// Decoding an encoded message gives the message back.
pub proof fn lemma_decode_encode(m: nat, delta: nat, bits: nat)
    requires
        bits <= 62,
        delta > 0,
        delta % pow2((64 - bits) as nat) == 0,
        m * delta < word(),
    ensures
        closest_representable_value((m * delta) as u64, bits) / (delta as int) == m,
{
    lemma_pow2_pos((63 - bits) as nat);
    lemma_small_mod((m * delta) as nat, word() as nat);
    assert(noisy_plaintext(m, delta, 0) == (m * delta) as u64);
    lemma_decode_noisy(m, delta, bits, 0);
}

/// The decoding the experiments rely on: with the 5-bit decomposer, every message
/// of the 16-value and of the 4-value space, encoded and disturbed by noise of less
/// than half a rounding step (`2^58`), decodes to itself.
pub proof fn lemma_experiment_decoding(message_modulus: nat, m: nat, e: int)
    requires
        message_modulus == 16 || message_modulus == 4,
        m < message_modulus,
        -0x400_0000_0000_0000 <= e < 0x400_0000_0000_0000,
    ensures
        closest_representable_value(
            noisy_plaintext(m, pow2(63) / message_modulus, e),
            (DECODE_BASE_LOG * DECODE_LEVEL_COUNT) as nat,
        ) / ((pow2(63) / message_modulus) as int) == m,
{
    lemma2_to64();
    lemma2_to64_rest();
    let delta = pow2(63) / message_modulus;
    if message_modulus == 16 {
        assert(delta == 0x800_0000_0000_0000);
    } else {
        assert(delta == 0x2000_0000_0000_0000);
    }
    assert(m * delta < word()) by (nonlinear_arith)
        requires
            m < message_modulus,
            message_modulus * delta == 0x8000_0000_0000_0000,
            word() == 0x1_0000_0000_0000_0000,
    ;
    assert(pow2(59) == 0x800_0000_0000_0000);
    assert(delta % pow2(59) == 0);
    lemma_decode_noisy(m, delta, 5, e);
}

} // verus!
