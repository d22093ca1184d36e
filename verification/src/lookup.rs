//! The functions that programmable bootstrapping applies through lookup tables,
//! and the NAND gate built from one bootstrap over the combined value
//! `v = x1 + 2 * x2` of two encrypted bits.
use vstd::prelude::*;

verus! {

/// An irregular table with one output per 4-bit input.
pub open spec fn table_value(i: int) -> u64 {
    seq![3u64, 1, 4, 1, 5, 9, 2, 6, 5, 3, 5, 8, 9, 7, 9, 3][i]
}

/// `x^2 mod 16`, a non-linear function of a 4-bit message.
pub fn square_mod_16(x: u64) -> (r: u64)
    requires
        x * x <= u64::MAX,
    ensures
        r == (x * x) % 16,
        r < 16,
{
    (x * x) % 16
}

/// The table entry of `x mod 16`.
pub fn table_lookup(x: u64) -> (r: u64)
    ensures
        r == table_value((x % 16) as int),
        r < 16,
{
    let table: [u64; 16] = [3, 1, 4, 1, 5, 9, 2, 6, 5, 3, 5, 8, 9, 7, 9, 3];
    let i = (x % 16) as usize;
    assert(table@ =~= seq![3u64, 1, 4, 1, 5, 9, 2, 6, 5, 3, 5, 8, 9, 7, 9, 3]);
    table[i]
}

/// `2 x`, the linear function of the first bootstrapping test.
pub fn double_value(x: u64) -> (r: u64)
    requires
        2 * x <= u64::MAX,
    ensures
        r == 2 * x,
{
    2 * x
}

/// Packs two bits into the value `x1 + 2 * x2` that one ciphertext carries.
pub fn combine_bits(x1: u64, x2: u64) -> (v: u64)
    requires
        x1 + 2 * x2 <= u64::MAX,
    ensures
        v == x1 + 2 * x2,
{
    x1 + 2 * x2
}

/// The table that turns a combined value into the NAND of its bits: only `3`
/// (both bits set) maps to `0`.
pub fn nand_lut(v: u64) -> (r: u64)
    ensures
        r == (if v == 3 {
            0u64
        } else {
            1u64
        }),
{
    if v == 3 {
        0
    } else {
        1
    }
}

/// The cleartext NAND of two bits, `1 - (x1 & x2)`.
pub fn cleartext_nand(x1: u64, x2: u64) -> (r: u64)
    requires
        x1 & x2 <= 1,
    ensures
        r == 1 - (x1 & x2),
{
    1 - (x1 & x2)
}

/// On bits, looking the combined value up in the NAND table gives the NAND of the bits.
pub proof fn lemma_nand_lut_is_nand(x1: u64, x2: u64)
    requires
        x1 <= 1,
        x2 <= 1,
    ensures
        (if x1 + 2 * x2 == 3 { 0int } else { 1int }) == 1 - (x1 & x2),
{
    assert(x1 <= 1 && x2 <= 1 ==> (x1 & x2) == (if x1 == 1 && x2 == 1 { 1u64 } else { 0u64 }))
        by (bit_vector);
}

/// Encoding is linear: the combination of two encoded bits is the encoding of the
/// combined value, which is why it can be formed on ciphertexts without a bootstrap.
pub proof fn lemma_combine_encodings(x1: int, x2: int, delta: int)
    ensures
        x1 * delta + 2 * (x2 * delta) == (x1 + 2 * x2) * delta,
{
    assert(x1 * delta + 2 * (x2 * delta) == (x1 + 2 * x2) * delta) by (nonlinear_arith);
}

/// The functions applied through a bootstrap over the 4-bit message space.
#[derive(Clone, Copy, Debug, PartialEq, Eq, Structural)]
pub enum LutFunction {
    SquareMod16,
    Table,
}

/// The value of a lookup function on a message.
pub open spec fn lut_value(f: LutFunction, x: u64) -> u64 {
    match f {
        LutFunction::SquareMod16 => ((x * x) % 16) as u64,
        LutFunction::Table => table_value((x % 16) as int),
    }
}

impl LutFunction {
    /// The function's value on `x` (squaring needs `x * x` to fit in 64 bits).
    pub fn apply(self, x: u64) -> (r: u64)
        requires
            self == LutFunction::SquareMod16 ==> x * x <= u64::MAX,
        ensures
            r == lut_value(self, x),
    {
        match self {
            LutFunction::SquareMod16 => square_mod_16(x),
            LutFunction::Table => table_lookup(x),
        }
    }
}

/// Whether the decoded outputs of bootstrapping the messages `0, 1, ...` in order
/// all equal the function's values on them.
pub fn all_outputs_match(f: LutFunction, got: &Vec<u64>) -> (r: bool)
    requires
        f == LutFunction::SquareMod16 ==> got.len() <= 0x1_0000_0000,
    ensures
        r == (forall|i: int| 0 <= i < got.len() ==> #[trigger] got[i] == lut_value(f, i as u64)),
{
    let mut i: usize = 0;
    while i < got.len()
        invariant
            i <= got.len(),
            f == LutFunction::SquareMod16 ==> got.len() <= 0x1_0000_0000,
            forall|j: int| 0 <= j < i ==> #[trigger] got[j] == lut_value(f, j as u64),
        decreases got.len() - i,
    {
        let x = i as u64;
        if f == LutFunction::SquareMod16 {
            assert(x * x <= 0xFFFF_FFFE_0000_0001u64) by (nonlinear_arith)
                requires
                    x < 0x1_0000_0000,
            ;
        }
        if got[i] != f.apply(x) {
            return false;
        }
        i = i + 1;
    }
    true
}

/// The input bits of NAND case `i` in the order (0, 0), (0, 1), (1, 0), (1, 1).
pub open spec fn nand_case_bits(i: int) -> (u64, u64) {
    ((i / 2) as u64, (i % 2) as u64)
}

/// Whether the decoded outputs of the four NAND cases, in that order, all equal
/// `1 - (x1 & x2)`.
pub fn all_nand_cases_match(got: &Vec<u64>) -> (r: bool)
    requires
        got.len() <= 4,
    ensures
        r == (forall|i: int|
            0 <= i < got.len() ==> #[trigger] got[i] == 1 - (nand_case_bits(i).0 & nand_case_bits(i).1)),
{
    let mut i: usize = 0;
    while i < got.len()
        invariant
            i <= got.len() <= 4,
            forall|j: int|
                0 <= j < i ==> #[trigger] got[j] == 1 - (nand_case_bits(j).0 & nand_case_bits(j).1),
        decreases got.len() - i,
    {
        let x1 = (i / 2) as u64;
        let x2 = (i % 2) as u64;
        assert(x1 <= 1 && x2 <= 1 ==> (x1 & x2) <= 1) by (bit_vector);
        if got[i] != cleartext_nand(x1, x2) {
            return false;
        }
        i = i + 1;
    }
    true
}

} // verus!
