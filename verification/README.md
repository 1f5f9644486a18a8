# cargo-optic

Captures the concrete function instances that Rust compiles for one Cargo target, together with
their source text, their optimized LLVM and their optimization remarks. The library is written in
Verus: every decision, parser and format in `src/` has a contract that is proved.

## Layout

- `src/llvm_index`: finds the definitions and aliases in disassembled LLVM modules.
- `src/compiler`: resolves a Cargo request, provisions the compiler driver, probes whether a capture
  is still fresh, decodes the driver's manifest and materializes the optimized modules.
- `src/session`: what the driver decides inside one compiler session.
- `src/ir`: the streaming evidence pipeline: toolchain inspection, Cargo output, identity manifests,
  LLVM symbol records and optimization remarks.
- `src/capture.rs`: decides between reuse and a new capture.
- The other modules hold texts, bytes, paths, records and orders that these share.
- `app/`: runs Cargo, the compiler and the file system, and hands the library what came of it.
  `app/driver.rs` is a program of its own that the inspected compiler builds.
- `tests/`: the library from outside.

Work that needs the outside world is written as a state and a step. A step takes the state and the
reply to its outside request, and its contract says which state follows.
The `*_laws.rs` files, and the public proof functions elsewhere, state what holds of several
functions together.
