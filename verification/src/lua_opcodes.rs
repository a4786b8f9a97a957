//! Opcodes of the Luau virtual machine, numbered as the Luau bytecode compiler
//! numbers them in the bytecode format that this crate walks.

use vstd::prelude::*;

verus! {

/// Number of opcodes: every byte below this value names an opcode.
pub const OPCODE_COUNT: u8 = 77;

/// A Luau opcode.
#[derive(Clone, Copy, Debug, PartialEq, Eq)]
pub enum LuauOpcode {
    LopNop,
    LopBreak,
    LopLoadnil,
    LopLoadb,
    LopLoadn,
    LopLoadk,
    LopMove,
    LopGetglobal,
    LopSetglobal,
    LopGetupval,
    LopSetupval,
    LopCloseupvals,
    LopGetimport,
    LopGettable,
    LopSettable,
    LopGettableks,
    LopSettableks,
    LopGettablen,
    LopSettablen,
    LopNewclosure,
    LopNamecall,
    LopCall,
    LopReturn,
    LopJump,
    LopJumpback,
    LopJumpif,
    LopJumpifnot,
    LopJumpifeq,
    LopJumpifle,
    LopJumpiflt,
    LopJumpifnoteq,
    LopJumpifnotle,
    LopJumpifnotlt,
    LopAdd,
    LopSub,
    LopMul,
    LopDiv,
    LopMod,
    LopPow,
    LopAddk,
    LopSubk,
    LopMulk,
    LopDivk,
    LopModk,
    LopPowk,
    LopAnd,
    LopOr,
    LopAndk,
    LopOrk,
    LopConcat,
    LopNot,
    LopMinus,
    LopLength,
    LopNewtable,
    LopDuptable,
    LopSetlist,
    LopFornprep,
    LopFornloop,
    LopForgloop,
    LopForgprepInext,
    LopForgloopInext,
    LopForgprepNext,
    LopForgloopNext,
    LopGetvarargs,
    LopDupclosure,
    LopPrepvarargs,
    LopLoadkx,
    LopJumpx,
    LopFastcall,
    LopCoverage,
    LopCapture,
    LopJumpifeqk,
    LopJumpifnoteqk,
    LopFastcall1,
    LopFastcall2,
    LopFastcall2k,
    LopForgprep,
}

/// The byte that stands for `op` in a bytecode stream.
pub open spec fn opcode_byte(op: LuauOpcode) -> u8 {
    match op {
        LuauOpcode::LopNop => 0,
        LuauOpcode::LopBreak => 1,
        LuauOpcode::LopLoadnil => 2,
        LuauOpcode::LopLoadb => 3,
        LuauOpcode::LopLoadn => 4,
        LuauOpcode::LopLoadk => 5,
        LuauOpcode::LopMove => 6,
        LuauOpcode::LopGetglobal => 7,
        LuauOpcode::LopSetglobal => 8,
        LuauOpcode::LopGetupval => 9,
        LuauOpcode::LopSetupval => 10,
        LuauOpcode::LopCloseupvals => 11,
        LuauOpcode::LopGetimport => 12,
        LuauOpcode::LopGettable => 13,
        LuauOpcode::LopSettable => 14,
        LuauOpcode::LopGettableks => 15,
        LuauOpcode::LopSettableks => 16,
        LuauOpcode::LopGettablen => 17,
        LuauOpcode::LopSettablen => 18,
        LuauOpcode::LopNewclosure => 19,
        LuauOpcode::LopNamecall => 20,
        LuauOpcode::LopCall => 21,
        LuauOpcode::LopReturn => 22,
        LuauOpcode::LopJump => 23,
        LuauOpcode::LopJumpback => 24,
        LuauOpcode::LopJumpif => 25,
        LuauOpcode::LopJumpifnot => 26,
        LuauOpcode::LopJumpifeq => 27,
        LuauOpcode::LopJumpifle => 28,
        LuauOpcode::LopJumpiflt => 29,
        LuauOpcode::LopJumpifnoteq => 30,
        LuauOpcode::LopJumpifnotle => 31,
        LuauOpcode::LopJumpifnotlt => 32,
        LuauOpcode::LopAdd => 33,
        LuauOpcode::LopSub => 34,
        LuauOpcode::LopMul => 35,
        LuauOpcode::LopDiv => 36,
        LuauOpcode::LopMod => 37,
        LuauOpcode::LopPow => 38,
        LuauOpcode::LopAddk => 39,
        LuauOpcode::LopSubk => 40,
        LuauOpcode::LopMulk => 41,
        LuauOpcode::LopDivk => 42,
        LuauOpcode::LopModk => 43,
        LuauOpcode::LopPowk => 44,
        LuauOpcode::LopAnd => 45,
        LuauOpcode::LopOr => 46,
        LuauOpcode::LopAndk => 47,
        LuauOpcode::LopOrk => 48,
        LuauOpcode::LopConcat => 49,
        LuauOpcode::LopNot => 50,
        LuauOpcode::LopMinus => 51,
        LuauOpcode::LopLength => 52,
        LuauOpcode::LopNewtable => 53,
        LuauOpcode::LopDuptable => 54,
        LuauOpcode::LopSetlist => 55,
        LuauOpcode::LopFornprep => 56,
        LuauOpcode::LopFornloop => 57,
        LuauOpcode::LopForgloop => 58,
        LuauOpcode::LopForgprepInext => 59,
        LuauOpcode::LopForgloopInext => 60,
        LuauOpcode::LopForgprepNext => 61,
        LuauOpcode::LopForgloopNext => 62,
        LuauOpcode::LopGetvarargs => 63,
        LuauOpcode::LopDupclosure => 64,
        LuauOpcode::LopPrepvarargs => 65,
        LuauOpcode::LopLoadkx => 66,
        LuauOpcode::LopJumpx => 67,
        LuauOpcode::LopFastcall => 68,
        LuauOpcode::LopCoverage => 69,
        LuauOpcode::LopCapture => 70,
        LuauOpcode::LopJumpifeqk => 71,
        LuauOpcode::LopJumpifnoteqk => 72,
        LuauOpcode::LopFastcall1 => 73,
        LuauOpcode::LopFastcall2 => 74,
        LuauOpcode::LopFastcall2k => 75,
        LuauOpcode::LopForgprep => 76,
    }
}

/// Whether the instruction that starts with opcode byte `b` is followed by an
/// auxiliary 32-bit word: GETGLOBAL, SETGLOBAL, GETIMPORT, GETTABLEKS, SETTABLEKS,
/// NAMECALL, the six JUMPIF comparisons, NEWTABLE, SETLIST, FORGLOOP, LOADKX,
/// JUMPIFEQK, JUMPIFNOTEQK, FASTCALL2 and FASTCALL2K.
pub open spec fn has_aux_word(b: u8) -> bool {
    b == 7 || b == 8 || b == 12 || b == 15 || b == 16
        || b == 20 || b == 27 || b == 28 || b == 29 || b == 30
        || b == 31 || b == 32 || b == 53 || b == 55 || b == 58
        || b == 66 || b == 71 || b == 72 || b == 74 || b == 75
}

/// The opcodes followed by an auxiliary word, named: GETGLOBAL, SETGLOBAL,
/// GETIMPORT, GETTABLEKS, SETTABLEKS, NAMECALL, the six JUMPIF comparisons,
/// NEWTABLE, SETLIST, FORGLOOP, LOADKX, JUMPIFEQK, JUMPIFNOTEQK, FASTCALL2 and
/// FASTCALL2K, and no other.
pub proof fn lemma_aux_opcodes(op: LuauOpcode)
    ensures
        has_aux_word(opcode_byte(op)) <==> (op == LuauOpcode::LopGetglobal
            || op == LuauOpcode::LopSetglobal
            || op == LuauOpcode::LopGetimport
            || op == LuauOpcode::LopGettableks
            || op == LuauOpcode::LopSettableks
            || op == LuauOpcode::LopNamecall
            || op == LuauOpcode::LopJumpifeq
            || op == LuauOpcode::LopJumpifle
            || op == LuauOpcode::LopJumpiflt
            || op == LuauOpcode::LopJumpifnoteq
            || op == LuauOpcode::LopJumpifnotle
            || op == LuauOpcode::LopJumpifnotlt
            || op == LuauOpcode::LopNewtable
            || op == LuauOpcode::LopSetlist
            || op == LuauOpcode::LopForgloop
            || op == LuauOpcode::LopLoadkx
            || op == LuauOpcode::LopJumpifeqk
            || op == LuauOpcode::LopJumpifnoteqk
            || op == LuauOpcode::LopFastcall2
            || op == LuauOpcode::LopFastcall2k),
{
}

/// Distinct opcodes have distinct bytes, all below the opcode count.
pub proof fn lemma_opcode_bytes(op1: LuauOpcode, op2: LuauOpcode)
    ensures
        opcode_byte(op1) < OPCODE_COUNT,
        opcode_byte(op1) == opcode_byte(op2) ==> op1 == op2,
{
}

/// The opcode named by byte `b`, if `b` names one.
pub fn get_opcode_from_byte(b: u8) -> (r: Option<LuauOpcode>)
    ensures
        r is Some <==> b < OPCODE_COUNT,
        r matches Some(op) ==> opcode_byte(op) == b,
{
    match b {
        0 => Some(LuauOpcode::LopNop),
        1 => Some(LuauOpcode::LopBreak),
        2 => Some(LuauOpcode::LopLoadnil),
        3 => Some(LuauOpcode::LopLoadb),
        4 => Some(LuauOpcode::LopLoadn),
        5 => Some(LuauOpcode::LopLoadk),
        6 => Some(LuauOpcode::LopMove),
        7 => Some(LuauOpcode::LopGetglobal),
        8 => Some(LuauOpcode::LopSetglobal),
        9 => Some(LuauOpcode::LopGetupval),
        10 => Some(LuauOpcode::LopSetupval),
        11 => Some(LuauOpcode::LopCloseupvals),
        12 => Some(LuauOpcode::LopGetimport),
        13 => Some(LuauOpcode::LopGettable),
        14 => Some(LuauOpcode::LopSettable),
        15 => Some(LuauOpcode::LopGettableks),
        16 => Some(LuauOpcode::LopSettableks),
        17 => Some(LuauOpcode::LopGettablen),
        18 => Some(LuauOpcode::LopSettablen),
        19 => Some(LuauOpcode::LopNewclosure),
        20 => Some(LuauOpcode::LopNamecall),
        21 => Some(LuauOpcode::LopCall),
        22 => Some(LuauOpcode::LopReturn),
        23 => Some(LuauOpcode::LopJump),
        24 => Some(LuauOpcode::LopJumpback),
        25 => Some(LuauOpcode::LopJumpif),
        26 => Some(LuauOpcode::LopJumpifnot),
        27 => Some(LuauOpcode::LopJumpifeq),
        28 => Some(LuauOpcode::LopJumpifle),
        29 => Some(LuauOpcode::LopJumpiflt),
        30 => Some(LuauOpcode::LopJumpifnoteq),
        31 => Some(LuauOpcode::LopJumpifnotle),
        32 => Some(LuauOpcode::LopJumpifnotlt),
        33 => Some(LuauOpcode::LopAdd),
        34 => Some(LuauOpcode::LopSub),
        35 => Some(LuauOpcode::LopMul),
        36 => Some(LuauOpcode::LopDiv),
        37 => Some(LuauOpcode::LopMod),
        38 => Some(LuauOpcode::LopPow),
        39 => Some(LuauOpcode::LopAddk),
        40 => Some(LuauOpcode::LopSubk),
        41 => Some(LuauOpcode::LopMulk),
        42 => Some(LuauOpcode::LopDivk),
        43 => Some(LuauOpcode::LopModk),
        44 => Some(LuauOpcode::LopPowk),
        45 => Some(LuauOpcode::LopAnd),
        46 => Some(LuauOpcode::LopOr),
        47 => Some(LuauOpcode::LopAndk),
        48 => Some(LuauOpcode::LopOrk),
        49 => Some(LuauOpcode::LopConcat),
        50 => Some(LuauOpcode::LopNot),
        51 => Some(LuauOpcode::LopMinus),
        52 => Some(LuauOpcode::LopLength),
        53 => Some(LuauOpcode::LopNewtable),
        54 => Some(LuauOpcode::LopDuptable),
        55 => Some(LuauOpcode::LopSetlist),
        56 => Some(LuauOpcode::LopFornprep),
        57 => Some(LuauOpcode::LopFornloop),
        58 => Some(LuauOpcode::LopForgloop),
        59 => Some(LuauOpcode::LopForgprepInext),
        60 => Some(LuauOpcode::LopForgloopInext),
        61 => Some(LuauOpcode::LopForgprepNext),
        62 => Some(LuauOpcode::LopForgloopNext),
        63 => Some(LuauOpcode::LopGetvarargs),
        64 => Some(LuauOpcode::LopDupclosure),
        65 => Some(LuauOpcode::LopPrepvarargs),
        66 => Some(LuauOpcode::LopLoadkx),
        67 => Some(LuauOpcode::LopJumpx),
        68 => Some(LuauOpcode::LopFastcall),
        69 => Some(LuauOpcode::LopCoverage),
        70 => Some(LuauOpcode::LopCapture),
        71 => Some(LuauOpcode::LopJumpifeqk),
        72 => Some(LuauOpcode::LopJumpifnoteqk),
        73 => Some(LuauOpcode::LopFastcall1),
        74 => Some(LuauOpcode::LopFastcall2),
        75 => Some(LuauOpcode::LopFastcall2k),
        76 => Some(LuauOpcode::LopForgprep),
        _ => None,
    }
}

} // verus!
