//! Operand planning and result checking for the multi-bit benchmark of encrypted
//! unsigned integers.
//!
//! For a width of `n` bits, additions draw both operands below
//! `floor((2^n - 1) / 2) + 1` and multiplications below `floor(sqrt(2^n - 1)) + 1`,
//! so that the plaintext result never overflows the `n`-bit type.
use vstd::prelude::*;
use vstd::arithmetic::power2::{pow2, lemma_pow2_unfold, lemma_pow2_pos, lemma2_to64, lemma_pow2_strictly_increases};
use crate::prng::{Rng, xorshift_state, xorshift64};

verus! {

/// Warm-up runs per condition, performed and not recorded.
pub const WARMUP: usize = 3;

/// Recorded runs per condition.
pub const RUNS: usize = 30;

/// Widths an operand of type `u64` can have.
pub open spec fn is_width(bits: u32) -> bool {
    bits <= 64
}

/// `(1 << b) == 2^b` for a 128-bit one.
proof fn lemma_u128_one_shl(b: u32)
    requires
        b < 128,
    ensures
        (1u128 << b) == pow2(b as nat),
    decreases b,
{
    if b == 0 {
        assert((1u128 << 0u32) == 1u128) by (bit_vector);
        lemma2_to64();
    } else {
        lemma_u128_one_shl((b - 1) as u32);
        assert((1u128 << b) == 2 * (1u128 << ((b - 1) as u32))) by (bit_vector)
            requires
                0 < b < 128,
        ;
        lemma_pow2_unfold(b as nat);
    }
}

/// The floor of the square root of `v`, for `v` up to `2^126`.
///
/// Above that bound a floating-point first guess followed by corrections can
/// overflow 128 bits: once `v` is within `2^74` of `2^128`, the guess rounds up to
/// `2^64` and squaring it overflows, which already happens below `(2^64 - 1)^2`.
/// Where exactly it does depends on floating-point rounding, which this library
/// does not model, so the inputs are bounded where such a guess is always safe.
pub fn isqrt(v: u128) -> (r: u128)
    requires
        v <= 0x4000_0000_0000_0000_0000_0000_0000_0000u128,
    ensures
        r * r <= v,
        v < (r + 1) * (r + 1),
{
    let mut r: u128 = 0;
    let mut s: u128 = 0x1_0000_0000_0000_0000u128;
    let ghost mut k: nat = 64;
    proof {
        lemma2_to64();
    }
    assert(v < s * s) by (nonlinear_arith)
        requires
            s == 0x1_0000_0000_0000_0000u128,
    ;
    while s > 1
        invariant
            s == pow2(k),
            k <= 64,
            r * r <= v,
            v < (r + s) * (r + s),
            r + s <= 0x1_0000_0000_0000_0000int,
        decreases s,
    {
        proof {
            if k == 0 {
                lemma2_to64();
            }
            lemma_pow2_unfold(k);
        }
        let h = s / 2;
        let c = r + h;
        assert(c <= 0xFFFF_FFFF_FFFF_FFFFu128);
        assert(c * c <= 0xFFFF_FFFF_FFFF_FFFE_0000_0000_0000_0001u128) by (nonlinear_arith)
            requires
                c <= 0xFFFF_FFFF_FFFF_FFFFu128,
        ;
        if c * c <= v {
            r = c;
        }
        s = h;
        proof {
            k = (k - 1) as nat;
        }
    }
    proof {
        lemma_pow2_pos(k);
    }
    r
}

/// The largest operand magnitude: `2^bits - 1`.
pub open spec fn max_value(bits: u32) -> int {
    pow2(bits as nat) - 1
}

/// Exclusive bound of addition operands: `floor((2^bits - 1) / 2) + 1`.
pub open spec fn add_bound_value(bits: u32) -> int {
    max_value(bits) / 2 + 1
}

/// `2^bits` as a 128-bit value.
fn pow2_u128(bits: u32) -> (p: u128)
    requires
        is_width(bits),
    ensures
        p == pow2(bits as nat),
        p <= 0x1_0000_0000_0000_0000int,
{
    proof {
        lemma_u128_one_shl(bits);
        lemma2_to64();
        if bits < 64 {
            lemma_pow2_strictly_increases(bits as nat, 64);
        }
    }
    1u128 << bits
}

/// Exclusive bound of the operands of an addition at width `bits`.
pub fn add_bound(bits: u32) -> (b: u64)
    requires
        is_width(bits),
    ensures
        b == add_bound_value(bits),
{
    let p = pow2_u128(bits);
    proof {
        lemma_pow2_pos(bits as nat);
    }
    (((p - 1) / 2) + 1) as u64
}

/// Exclusive bound of the operands of a multiplication at width `bits`:
/// `floor(sqrt(2^bits - 1)) + 1`.
pub fn mul_bound(bits: u32) -> (b: u64)
    requires
        is_width(bits),
    ensures
        (b - 1) * (b - 1) <= max_value(bits),
        max_value(bits) < b * b,
        b >= 1,
{
    let p = pow2_u128(bits);
    proof {
        lemma_pow2_pos(bits as nat);
    }
    let r = isqrt(p - 1);
    assert(r < 0x1_0000_0000) by (nonlinear_arith)
        requires
            r * r <= p - 1,
            p <= 0x1_0000_0000_0000_0000int,
    ;
    (r + 1) as u64
}

/// Operands below the addition bound never overflow the width.
pub proof fn lemma_add_bound_no_overflow(bits: u32, a: int, b: int)
    requires
        is_width(bits),
        0 <= a < add_bound_value(bits),
        0 <= b < add_bound_value(bits),
    ensures
        a + b <= max_value(bits),
{
}

/// The addition bound is the largest that works: two operands equal to it overflow.
pub proof fn lemma_add_bound_tight(bits: u32)
    requires
        is_width(bits),
    ensures
        add_bound_value(bits) + add_bound_value(bits) > max_value(bits),
{
}

/// Operands below a multiplication bound never overflow the width.
pub proof fn lemma_mul_bound_no_overflow(bits: u32, bound: int, a: int, b: int)
    requires
        is_width(bits),
        bound >= 1,
        (bound - 1) * (bound - 1) <= max_value(bits),
        0 <= a < bound,
        0 <= b < bound,
    ensures
        a * b <= max_value(bits),
{
    assert(a * b <= (bound - 1) * (bound - 1)) by (nonlinear_arith)
        requires
            0 <= a <= bound - 1,
            0 <= b <= bound - 1,
    ;
}

/// The operation benchmarked.
#[derive(Clone, Copy, Debug, PartialEq, Eq, Structural)]
pub enum BenchOp {
    Add,
    Mul,
}

/// The exact result of an operation on two operands.
pub open spec fn op_value(op: BenchOp, a: int, b: int) -> int {
    match op {
        BenchOp::Add => a + b,
        BenchOp::Mul => a * b,
    }
}

/// The result an `n`-bit unsigned type gives: the exact result modulo `2^n`.
pub open spec fn wrapped_value(op: BenchOp, bits: u32, a: int, b: int) -> int {
    op_value(op, a, b) % (pow2(bits as nat) as int)
}

impl BenchOp {
    /// The label of the operation in the report: "add" or "mul".
    pub fn label(self) -> (s: &'static str)
        ensures
            s@ == (match self {
                BenchOp::Add => seq!['a', 'd', 'd'],
                BenchOp::Mul => seq!['m', 'u', 'l'],
            }),
    {
        match self {
            BenchOp::Add => {
                proof {
                    reveal_strlit("add");
                }
                "add"
            },
            BenchOp::Mul => {
                proof {
                    reveal_strlit("mul");
                }
                "mul"
            },
        }
    }
}

/// The result the `bits`-wide wrapping operation gives on `a` and `b`, the value a
/// decrypted result is compared with.
pub fn wrapped_result(op: BenchOp, bits: u32, a: u64, b: u64) -> (r: u64)
    requires
        is_width(bits),
        a < pow2(bits as nat),
        b < pow2(bits as nat),
    ensures
        r == wrapped_value(op, bits, a as int, b as int),
{
    let p = pow2_u128(bits);
    proof {
        lemma_pow2_pos(bits as nat);
    }
    let x: u128 = match op {
        BenchOp::Add => a as u128 + b as u128,
        BenchOp::Mul => {
            assert(a * b <= 0xFFFF_FFFF_FFFF_FFFFu128 * 0xFFFF_FFFF_FFFF_FFFFu128) by (nonlinear_arith)
                requires
                    a <= 0xFFFF_FFFF_FFFF_FFFFu64,
                    b <= 0xFFFF_FFFF_FFFF_FFFFu64,
            ;
            a as u128 * b as u128
        },
    };
    (x % p) as u64
}

/// Within the planned operand bounds, the wrapping result is the exact result.
pub proof fn lemma_planned_results_exact(op: BenchOp, bits: u32, bound: int, a: int, b: int)
    requires
        is_width(bits),
        0 <= a < bound,
        0 <= b < bound,
        op == BenchOp::Add ==> bound == add_bound_value(bits),
        op == BenchOp::Mul ==> bound >= 1 && (bound - 1) * (bound - 1) <= max_value(bits),
    ensures
        wrapped_value(op, bits, a, b) == op_value(op, a, b),
{
    if op == BenchOp::Add {
        lemma_add_bound_no_overflow(bits, a, b);
    } else {
        lemma_mul_bound_no_overflow(bits, bound, a, b);
        assert(a * b >= 0) by (nonlinear_arith)
            requires
                a >= 0,
                b >= 0,
        ;
    }
    vstd::arithmetic::div_mod::lemma_small_mod(op_value(op, a, b) as nat, pow2(bits as nat));
}

/// The value drawn by call number `j` (from 0) of `Rng::below(bound)` on a
/// generator seeded with `seed`: a bound of 0 or 1 always gives 0 and leaves the
/// generator alone, any other bound reduces the state after `j + 1` steps.
pub open spec fn drawn_operand(seed: u64, bound: u64, j: nat) -> u64 {
    if bound <= 1 {
        0
    } else {
        (xorshift_state(seed, j + 1) % bound) as u64
    }
}

/// Each planned operand is what `Rng::below(bound)` gives: for a bound above 1, the
/// unique value below `bound` that is congruent to the generator state after
/// `j + 1` steps modulo `bound`; for a bound of 0 or 1, zero.
pub proof fn lemma_drawn_operand_is_reduced_state(seed: u64, bound: u64, j: nat)
    ensures
        bound > 1 ==> 0 <= drawn_operand(seed, bound, j) < bound,
        bound > 1 ==> (xorshift_state(seed, j + 1) - drawn_operand(seed, bound, j)) % (bound as int)
            == 0,
        bound <= 1 ==> drawn_operand(seed, bound, j) == 0,
{
    if bound > 1 {
        let x = xorshift_state(seed, j + 1) as int;
        let b = bound as int;
        vstd::arithmetic::div_mod::lemma_fundamental_div_mod(x, b);
        vstd::arithmetic::div_mod::lemma_mod_bound(x, b);
        assert(x - x % b == b * (x / b));
        vstd::arithmetic::div_mod::lemma_mod_multiples_basic(x / b, b);
        assert((x / b) * b == b * (x / b)) by (nonlinear_arith);
    }
}

/// Operand `x` drawn at step `n` of a generator seeded with `seed` is the state
/// after `n` steps reduced modulo `bound`: below `bound` and congruent to it.
pub open spec fn reduces_state(seed: u64, bound: u64, n: nat, x: u64) -> bool {
    x < bound && (xorshift_state(seed, n) - x) % (bound as int) == 0
}

/// Draws the operand pairs of `count` runs, `a` then `b` for each run, from a
/// generator seeded with `seed`.
pub fn plan_operands(seed: u64, bound: u64, count: usize) -> (res: Vec<(u64, u64)>)
    ensures
        res.len() == count,
        forall|k: int|
            0 <= k < count ==> #[trigger] res[k] == (
                drawn_operand(seed, bound, (2 * k) as nat),
                drawn_operand(seed, bound, (2 * k + 1) as nat),
            ),
        bound > 1 ==> forall|k: int|
            0 <= k < count ==> reduces_state(seed, bound, (2 * k + 1) as nat, #[trigger] res[k].0)
                && reduces_state(seed, bound, (2 * k + 2) as nat, res[k].1),
{
    let mut rng = Rng(seed);
    let mut res: Vec<(u64, u64)> = Vec::new();
    let mut k: usize = 0;
    while k < count
        invariant
            k <= count,
            res.len() == k,
            bound > 1 ==> rng.0 == xorshift_state(seed, (2 * k) as nat),
            bound <= 1 ==> rng.0 == seed,
            forall|i: int|
                0 <= i < k ==> #[trigger] res[i] == (
                    drawn_operand(seed, bound, (2 * i) as nat),
                    drawn_operand(seed, bound, (2 * i + 1) as nat),
                ),
        decreases count - k,
    {
        let a = rng.below(bound);
        let b = rng.below(bound);
        proof {
            assert(xorshift_state(seed, (2 * k + 1) as nat) == xorshift64(
                xorshift_state(seed, (2 * k) as nat),
            ));
            assert(xorshift_state(seed, (2 * k + 2) as nat) == xorshift64(
                xorshift_state(seed, (2 * k + 1) as nat),
            ));
        }
        res.push((a, b));
        k = k + 1;
    }
    assert(bound > 1 ==> forall|k: int|
        0 <= k < count ==> reduces_state(seed, bound, (2 * k + 1) as nat, #[trigger] res[k].0)
            && reduces_state(seed, bound, (2 * k + 2) as nat, res[k].1)) by {
        if bound > 1 {
            assert forall|k: int| 0 <= k < count implies reduces_state(
                seed,
                bound,
                (2 * k + 1) as nat,
                #[trigger] res[k].0,
            ) && reduces_state(seed, bound, (2 * k + 2) as nat, res[k].1) by {
                lemma_drawn_operand_is_reduced_state(seed, bound, (2 * k) as nat);
                lemma_drawn_operand_is_reduced_state(seed, bound, (2 * k + 1) as nat);
            }
        }
    }
    res
}

/// The seed of the multiplication runs, derived from the width's seed.
pub fn mul_seed(seed: u64) -> (s: u64)
    ensures
        s == seed ^ 0xDEAD_BEEFu64,
{
    seed ^ 0xDEAD_BEEFu64
}

/// Whether run number `run` is recorded (the first `WARMUP` runs are not).
pub fn is_recorded(run: usize) -> (r: bool)
    ensures
        r == (run >= WARMUP),
{
    run >= WARMUP
}

/// The number of recorded runs among the first `n` whose decrypted result equals
/// the wrapping result of the operation on the planned operands.
pub open spec fn correct_recorded(
    op: BenchOp,
    bits: u32,
    plan: Seq<(u64, u64)>,
    got: Seq<u64>,
    n: nat,
) -> nat
    decreases n,
{
    if n == 0 {
        0
    } else {
        let i = (n - 1) as int;
        correct_recorded(op, bits, plan, got, (n - 1) as nat) + if i >= WARMUP && got[i]
            == wrapped_value(op, bits, plan[i].0 as int, plan[i].1 as int) {
            1nat
        } else {
            0nat
        }
    }
}

/// Every decrypted result equals the wrapping result of the operation on its operands.
pub open spec fn all_results_match(op: BenchOp, bits: u32, plan: Seq<(u64, u64)>, got: Seq<u64>) -> bool {
    forall|i: int|
        0 <= i < plan.len() ==> #[trigger] got[i] == wrapped_value(
            op,
            bits,
            plan[i].0 as int,
            plan[i].1 as int,
        )
}

/// The count of correct recorded runs among the first `n`: every run from index
/// `WARMUP` on is recorded, so when all results match the count is `n - WARMUP`
/// (zero while `n <= WARMUP`), and it never exceeds that.
pub proof fn lemma_correct_recorded_all_match(
    op: BenchOp,
    bits: u32,
    plan: Seq<(u64, u64)>,
    got: Seq<u64>,
    n: nat,
)
    requires
        n <= plan.len(),
        plan.len() == got.len(),
    ensures
        correct_recorded(op, bits, plan, got, n) <= if n >= WARMUP {
            n - WARMUP
        } else {
            0
        },
        all_results_match(op, bits, plan, got) ==> correct_recorded(op, bits, plan, got, n) == if n
            >= WARMUP {
            n - WARMUP
        } else {
            0
        },
    decreases n,
{
    if n > 0 {
        lemma_correct_recorded_all_match(op, bits, plan, got, (n - 1) as nat);
        let i = (n - 1) as int;
        assert(all_results_match(op, bits, plan, got) ==> got[i] == wrapped_value(
            op,
            bits,
            plan[i].0 as int,
            plan[i].1 as int,
        ));
    }
}

/// Results of warm-up runs do not count: two result sequences that agree on every
/// run from index `WARMUP` on give the same count.
pub proof fn lemma_correct_recorded_ignores_warmup(
    op: BenchOp,
    bits: u32,
    plan: Seq<(u64, u64)>,
    got1: Seq<u64>,
    got2: Seq<u64>,
    n: nat,
)
    requires
        n <= got1.len(),
        n <= got2.len(),
        forall|i: int| WARMUP <= i < n ==> got1[i] == got2[i],
    ensures
        correct_recorded(op, bits, plan, got1, n) == correct_recorded(op, bits, plan, got2, n),
    decreases n,
{
    if n > 0 {
        lemma_correct_recorded_ignores_warmup(op, bits, plan, got1, got2, (n - 1) as nat);
    }
}

/// Counts the recorded runs whose decrypted result `got[i]` equals the wrapping
/// result of the operation on the operands `plan[i]`.
pub fn count_correct_runs(op: BenchOp, bits: u32, plan: &Vec<(u64, u64)>, got: &Vec<u64>) -> (n:
    usize)
    requires
        is_width(bits),
        plan.len() == got.len(),
        forall|i: int|
            0 <= i < plan.len() ==> #[trigger] plan[i].0 < pow2(bits as nat) && plan[i].1 < pow2(
                bits as nat,
            ),
    ensures
        n == correct_recorded(op, bits, plan@, got@, plan.len() as nat),
        n <= plan.len(),
        all_results_match(op, bits, plan@, got@) && plan.len() >= WARMUP ==> n == plan.len()
            - WARMUP,
{
    proof {
        lemma_correct_recorded_all_match(op, bits, plan@, got@, plan.len() as nat);
    }
    let mut n: usize = 0;
    let mut i: usize = 0;
    while i < plan.len()
        invariant
            is_width(bits),
            i <= plan.len() == got.len(),
            forall|j: int|
                0 <= j < plan.len() ==> #[trigger] plan[j].0 < pow2(bits as nat) && plan[j].1
                    < pow2(bits as nat),
            n == correct_recorded(op, bits, plan@, got@, i as nat),
            n <= i,
        decreases plan.len() - i,
    {
        let (a, b) = plan[i];
        let expected = wrapped_result(op, bits, a, b);
        if i >= WARMUP && got[i] == expected {
            n = n + 1;
        }
        i = i + 1;
    }
    n
}

} // verus!
