# aether

The Aether capability microkernel model, temporal sync engine and client
SDK surface, written in Verus with their behaviour stated as contracts.

- `src/kernel/`: capabilities with per-target epoch revocation
  (`capability.rs`), FIFO IPC mailboxes (`ipc.rs`), memory-region policy
  (`memory.rs`), the process table (`process.rs`) and the EDF scheduler with
  admission control (`scheduler.rs`).
- `src/sync/`: hybrid logical clocks (`hlc.rs`), the LWW register and OR-set
  CRDTs (`crdt.rs`), the wire protocol (`protocol.rs`), spatial cells
  (`sharding.rs`) and the in-memory transport (`network.rs`).
- `src/sdk.rs`: the client connection.
- `app/`: what the library cannot hold: floating-point utilization and
  transforms, `Display`/`Error` impls of the error types, serde encodings of
  the wire types, and a `bitflags` form of rights.
