//! Verified core of the Rusty script runner: the walk over Luau bytecode that
//! re-encodes opcodes, the script queue and the decisions of the scheduler hook,
//! and the address arithmetic of the host process model.

pub mod lua_opcodes;
pub mod bytecode;
pub mod scheduler;
pub mod execution;
pub mod addresses;
pub mod api;
pub mod console;
pub mod text;
