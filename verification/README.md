# tfhe_experiments

Experiments that reproduce core behaviours of TFHE with `tfhe`: homomorphic
Boolean gates, repeated NAND trials, deep NAND chains, programmable
bootstrapping over a 4-bit message space, and a benchmark of encrypted integer
addition and multiplication.

- `src/` is the Verus-verified library: the xorshift input generators
  (`prng`), gate truth tables and the 16-case gate check (`gates`), NAND chains
  (`depth`), NAND trials (`trials`), the plaintext encoding and decoding of
  bootstrapping (`encoding`), the functions applied through lookup tables
  (`lookup`), and the operand bounds and result checks of the benchmark
  (`bench`). The calls into `tfhe::boolean` go through the wrappers of `fhe`.
- `app/` is the command-line driver: key generation, the `core_crypto`
  pipeline, timing and printing. Run it with the experiment's name as argument.
- `tests/` exercises the plaintext side of the library. Generating keys for a
  published parameter set takes too long for a unit test, so the functions that
  run homomorphic gates are exercised by the experiments in `app/`.
