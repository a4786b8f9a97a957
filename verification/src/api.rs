//! The host process, modelled by the absolute addresses of the routines and
//! data that the program uses.

use vstd::prelude::*;
use crate::addresses::{CALLCHECK_ADDY_CODE, CALLCHECK_ADDY_DATA, CALLCHECK_ADDY_VM, DESERIALIZER_FUNC_ADDY, FAKE_RET_ADDY, PATCH_SPOT, PSEUDO2ADR_ADDY, PUSHCCLOSURE_ADDY, PUSHCCLOSURE_EXIT_ADDY, RBX_GETSCHEDULER_ADDY, RBX_GETSTATE_ADDY, RBX_OUTPUT_ADDY, RBX_PUSHVFSTRING_ADDY, SETGLOBAL_ADDY, SETGLOBAL_EXIT_ADDY, SETGLOBAL_PATCH_2_ADDY, SETGLOBAL_PATH_1_ADDY, SPAWN_FUNC_ADDY, XOR_CONST, MAX_ADDY};

verus! {

/// Absolute addresses in the host process, and the scratch words kept for the
/// call proxy.
pub struct Roblox {
    pub handle: usize,
    pub get_scheduler_addy: usize,
    pub get_output_addy: usize,
    pub get_state_addy: usize,
    pub pushvfstring_addy: usize,
    pub spawn_func_addy: usize,
    pub deserializer_func_addy: usize,
    pub pushcclosure_addy: usize,
    pub pushcclosure_exit_addy: usize,
    pub setglobal_addy: usize,
    pub setglobal_exit_addy: usize,
    pub setglobal_path_1_addy: usize,
    pub setglobal_path_2_addy: usize,
    pub pseudo2adr_addy: usize,
    pub fake_ret_addy: usize,
    pub callcheck_addy_data: usize,
    pub callcheck_addy_code: usize,
    pub callcheck_addy_vm: usize,
    pub xor_const: usize,
    pub patch_spot: usize,
    pub backup: i32,
    pub sec_backup: i32,
    pub old_val: i32,
}

impl Roblox {
    /// The addresses in a host module loaded at `base`.
    pub fn new(base: usize) -> (r: Roblox)
        requires
            base + MAX_ADDY <= usize::MAX,
        ensures
            r.handle == base,
            r.get_scheduler_addy == base + RBX_GETSCHEDULER_ADDY,
            r.get_output_addy == base + RBX_OUTPUT_ADDY,
            r.get_state_addy == base + RBX_GETSTATE_ADDY,
            r.pushvfstring_addy == base + RBX_PUSHVFSTRING_ADDY,
            r.spawn_func_addy == base + SPAWN_FUNC_ADDY,
            r.deserializer_func_addy == base + DESERIALIZER_FUNC_ADDY,
            r.pushcclosure_addy == base + PUSHCCLOSURE_ADDY,
            r.pushcclosure_exit_addy == base + PUSHCCLOSURE_EXIT_ADDY,
            r.setglobal_addy == base + SETGLOBAL_ADDY,
            r.setglobal_exit_addy == base + SETGLOBAL_EXIT_ADDY,
            r.setglobal_path_1_addy == base + SETGLOBAL_PATH_1_ADDY,
            r.setglobal_path_2_addy == base + SETGLOBAL_PATCH_2_ADDY,
            r.pseudo2adr_addy == base + PSEUDO2ADR_ADDY,
            r.fake_ret_addy == base + FAKE_RET_ADDY,
            r.callcheck_addy_data == base + CALLCHECK_ADDY_DATA,
            r.callcheck_addy_code == base + CALLCHECK_ADDY_CODE,
            r.callcheck_addy_vm == base + CALLCHECK_ADDY_VM,
            r.xor_const == base + XOR_CONST,
            r.patch_spot == base + PATCH_SPOT,
            r.backup == 0,
            r.sec_backup == 0,
            r.old_val == 0,
    {
        Roblox {
            handle: base,
            get_scheduler_addy: base + RBX_GETSCHEDULER_ADDY,
            get_output_addy: base + RBX_OUTPUT_ADDY,
            get_state_addy: base + RBX_GETSTATE_ADDY,
            pushvfstring_addy: base + RBX_PUSHVFSTRING_ADDY,
            spawn_func_addy: base + SPAWN_FUNC_ADDY,
            deserializer_func_addy: base + DESERIALIZER_FUNC_ADDY,
            pushcclosure_addy: base + PUSHCCLOSURE_ADDY,
            pushcclosure_exit_addy: base + PUSHCCLOSURE_EXIT_ADDY,
            setglobal_addy: base + SETGLOBAL_ADDY,
            setglobal_exit_addy: base + SETGLOBAL_EXIT_ADDY,
            setglobal_path_1_addy: base + SETGLOBAL_PATH_1_ADDY,
            setglobal_path_2_addy: base + SETGLOBAL_PATCH_2_ADDY,
            pseudo2adr_addy: base + PSEUDO2ADR_ADDY,
            fake_ret_addy: base + FAKE_RET_ADDY,
            callcheck_addy_data: base + CALLCHECK_ADDY_DATA,
            callcheck_addy_code: base + CALLCHECK_ADDY_CODE,
            callcheck_addy_vm: base + CALLCHECK_ADDY_VM,
            xor_const: base + XOR_CONST,
            patch_spot: base + PATCH_SPOT,
            backup: 0,
            sec_backup: 0,
            old_val: 0,
        }
    }

    /// The stack top of a Lua state whose top word holds `top`, after `amount`
    /// slots of 16 bytes are popped.
    pub fn decrement_top(top: usize, amount: i32) -> (r: usize)
        requires
            i32::MIN <= 16 * amount <= i32::MAX,
            (16 * amount) as usize <= top,
        ensures
            r == top - (16 * amount) as usize,
    {
        top - (16 * amount) as usize
    }

    /// The number of 16-byte slots between the base and the top of a Lua stack.
    pub fn get_top(top: u32, base: u32) -> (r: u32)
        requires
            base <= top,
        ensures
            r == (top - base) / 16,
    {
        let d: u32 = top - base;
        assert(d >> 4 == d / 16) by (bit_vector);
        d >> 4
    }
}

/// The host routines that the program calls, by address.
pub struct Api {
    pub get_scheduler: usize,
    pub get_state: usize,
    pub output: usize,
    pub pushvfstring: usize,
    pub pseudo2: usize,
}

impl Api {
    /// The routines of the host described by `roblox`.
    pub fn new(roblox: &Roblox) -> (r: Api)
        ensures
            r.get_scheduler == roblox.get_scheduler_addy,
            r.get_state == roblox.get_state_addy,
            r.output == roblox.get_output_addy,
            r.pushvfstring == roblox.pushvfstring_addy,
            r.pseudo2 == roblox.pseudo2adr_addy,
    {
        Api {
            get_scheduler: roblox.get_scheduler_addy,
            get_state: roblox.get_state_addy,
            output: roblox.get_output_addy,
            pushvfstring: roblox.pushvfstring_addy,
            pseudo2: roblox.pseudo2adr_addy,
        }
    }
}

/// A patch site: its address and, once bytes are replaced there, the bytes
/// that stood there.
pub struct ReplacerT {
    pub addy: usize,
    pub stolen_len: Option<usize>,
    pub stolen: Option<Vec<u8>>,
}

impl ReplacerT {
    /// A patch site at `addy` with nothing replaced yet.
    pub fn new(addy: usize) -> (r: ReplacerT)
        ensures
            r.addy == addy,
            r.stolen_len is None,
            r.stolen is None,
    {
        ReplacerT { addy, stolen_len: None, stolen: None }
    }
}

} // verus!
