//! Offsets, from the base of the host module, of the routines and data that
//! the program uses, and offsets of fields inside the host's structures.

use vstd::prelude::*;

verus! {

pub const RBX_GETSCHEDULER_ADDY: usize = 0xDE05E0;
pub const RBX_OUTPUT_ADDY: usize = 0x2eff60;
pub const RBX_GETSTATE_ADDY: usize = 0x46B0B0;
pub const RBX_PUSHVFSTRING_ADDY: usize = 0x1421b40;

pub const SPAWN_FUNC_ADDY: usize = 0x4773A0;
pub const DESERIALIZER_FUNC_ADDY: usize = 0x14A8C70;

pub const PUSHCCLOSURE_ADDY: usize = 0x12B3750;
pub const PUSHCCLOSURE_EXIT_ADDY: usize = 0x12B39A9;

pub const SETGLOBAL_ADDY: usize = 0x12B3E30;
pub const SETGLOBAL_EXIT_ADDY: usize = 0x12B3FA2;
pub const SETGLOBAL_PATH_1_ADDY: usize = 0x014A0C78;
pub const SETGLOBAL_PATCH_2_ADDY: usize = 0x014A1010;

pub const PSEUDO2ADR_ADDY: usize = 0x1421D03;
pub const FAKE_RET_ADDY: usize = 0x1365AD1;

pub const CALLCHECK_ADDY_DATA: usize = 0x3996ED4;
pub const CALLCHECK_ADDY_CODE: usize = 0x2D42A7;
pub const CALLCHECK_ADDY_VM: usize = 0x014F4AE0;

pub const XOR_CONST: usize = 0x3718790;

pub const PATCH_SPOT: usize = 0x0045AF72;

/// The largest of the offsets above.
pub const MAX_ADDY: usize = 0x3996ED4;

/// Task scheduler: start and end of the job array, frame rate.
pub const SCHEDULER_JOBS_START: usize = 0x134;
pub const SCHEDULER_JOBS_END: usize = 0x138;
pub const SCHEDULER_FPS: usize = 0x118;

/// Job: its name.
pub const JOB_NAME: usize = 0x10;

/// Waiting-scripts job: the data model and the script context.
pub const WAITING_SCRIPTS_JOB_DATAMODEL: usize = 0x28;
pub const WAITING_SCRIPTS_JOB_SCRIPT_CONTEXT: usize = 0x130;

/// Lua state: top and base of the stack.
pub const LUASTATE_TOP: usize = 0xC;
pub const LUASTATE_BASE: usize = 0x10;

} // verus!
