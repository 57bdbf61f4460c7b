# truent

The verified core of Truent, a multi-chain smart contract invariant
analyzer, written in Verus.

- `src/` is the library. Every function carries a contract that Verus
  proves: the invariant definition language (`dsl_parser`, `model`), its
  type checker and evaluator, the binding of invariants to contract getters
  (`dsl_binding`) and the invariants recognised from a contract's functions
  (`evm_detect`), the reading of Soroban contract sources, the Soroban detectors and the chain-agnostic rule over the
  semantic model (`soroban`, `ir`), the sandbox and tamper checks
  (`threat_model`, `solana_macro`), source mutation for fuzzing (`mutation`),
  findings, reports (`report`, `html`, `summary`) and configuration, and
  the text and map helpers they share (`text`, `words`, `strmap`).
- `tests/` runs the library on concrete values.
- `app/` is the command line around it: argument parsing, files, TOML and
  JSON, terminal output, and the few computations on floating point.

Calls into outside crates (`colored`, `sha3`, `hex`, `syn` with `quote`, `toml`) and into parts of `std`
that have no specification stand behind small trusted functions whose
contracts say what the outside code does.
