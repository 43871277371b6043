# bitcoin_scriptexec

A Bitcoin Script interpreter with 64-bit script numbers ("Val64": unsigned little-endian bytes
without zero bytes at the end, read as 64-bit two's complement), written in Rust and verified with
Verus.

- `src/` is the library. `Exec` executes a script one instruction at a time under legacy, segwit
  or Tapscript rules; the functions in `execute` execute a whole Tapscript; `convert_to_witness`
  turns a script of pushes into a witness.
- `src/effects.rs` and `src/machine.rs` say what each opcode, each step and each run does.
  `src/laws.rs` proves what follows from that.
- Hashes, keys, signatures, signature hashes and the decoding of scripts come from the `bitcoin`
  crate. The functions that call it are marked `#[verifier::external_body]`, and say what is
  relied on.
- `app/` takes and gives the types of the `bitcoin` crate.

An instruction that the machine does not implement (`OP_CHECKMULTISIG`), or not on its operands,
has no outcome. The functions whose names start with `try_` return nothing there; the others must
not be called.
