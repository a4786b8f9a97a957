# rusty

The verified core of a Luau script runner for a host process.

- `src/bytecode.rs` — the model of the walk over a compiled Luau chunk that
  re-encodes every instruction's opcode byte (times 227 modulo 256), and the
  proof that the walk changes only opcode bytes, reversibly.
- `src/execution.rs` — the walk itself (`encode_bytecode`), varint reading,
  compiling through `mlua`, the script queue (last queued runs first) and the
  decision taken on each step of the scheduler hook (`CycleAction`).
- `src/lua_opcodes.rs` — Luau opcodes and which of them carry an auxiliary word.
- `src/scheduler.rs` — finding the waiting-scripts job among the scheduler's
  jobs, the addresses of the job entries, and the table entry swap of the hook.
- `src/api.rs`, `src/addresses.rs` — absolute addresses of host routines from
  the module base, and Lua stack arithmetic.
- `src/text.rs` — UTF-8 validation through `std`.

Reading and writing the host's memory, calling its routines and loading the
library into it are not part of this crate.
