# coral

Zero-knowledge proofs that a public document is consistent with a committed
context-free grammar.

- `src/` is the verified library (Verus): the BN254 scalar field elements
  and their encoding (`field`), the SHA-256 grammar commitment over the
  canonical serialization of the normalized grammar tables (`prover`), the
  running evaluation that binds a proof to the public document
  (`document`), the folding round arithmetic and the proving schedule
  (`folding`), the metrics rows (`metrics`), the command line plan
  (`config`) and the default file names (`util`).
- `app/` is the command line tool around it: argument parsing, files, and
  the calls into the folding scheme and circuit crates.
- `tests/` exercises the library on concrete values.
