use rusty::execution::{encode_bytecode, Execution};
use rusty::lua_opcodes::{get_opcode_from_byte, LuauOpcode};

fn enc(b: u8) -> u8 {
    ((b as u16 * 227) % 256) as u8
}

/// A chunk with one string, one prototype of three instruction slots
/// (LOADNIL, then GETGLOBAL with its auxiliary word), two constants and no
/// line or debug information.
fn sample_chunk() -> Vec<u8> {
    vec![
        3, // version
        1, 2, b'h', b'i', // one string "hi"
        1, // one prototype
        0, 0, 0, 0, // header
        3, // three instruction slots
        2, 0, 0, 0, // LOADNIL
        7, 0, 0, 0, // GETGLOBAL
        0, 0, 0, 0, // its auxiliary word
        2, // two constants
        3, 0, // string constant
        2, 1, 2, 3, 4, 5, 6, 7, 8, // number constant
        0, // no child prototypes
        0, 0, // line defined, debug name
        0, // no line information
        0, // no debug information
    ]
}

#[test]
fn encodes_each_opcode_and_skips_aux_words() {
    let chunk = sample_chunk();
    let mut expected = chunk.clone();
    expected[11] = enc(2);
    expected[15] = enc(7);
    assert_eq!(expected[11], 198);
    assert_eq!(expected[15], 53);
    assert_eq!(encode_bytecode(chunk), Some(expected));
}

#[test]
fn encoded_opcodes_decode_back() {
    let chunk = sample_chunk();
    let out = encode_bytecode(chunk.clone()).unwrap();
    assert_eq!(out.len(), chunk.len());
    assert_eq!(out[0], chunk[0]);
    for i in 0..chunk.len() {
        if out[i] != chunk[i] {
            assert_eq!(((out[i] as u16 * 203) % 256) as u8, chunk[i]);
        }
    }
}

#[test]
fn truncated_chunk_is_refused() {
    let mut chunk = sample_chunk();
    chunk.pop();
    assert_eq!(encode_bytecode(chunk), None);
}

#[test]
fn empty_chunk_is_refused() {
    assert_eq!(encode_bytecode(vec![]), None);
    assert_eq!(encode_bytecode(vec![3]), None);
}

#[test]
fn unknown_opcode_is_refused() {
    let mut chunk = sample_chunk();
    chunk[11] = 77;
    assert_eq!(encode_bytecode(chunk), None);
}

#[test]
fn no_prototypes_leaves_chunk_unchanged() {
    let chunk = vec![3, 0, 0];
    assert_eq!(encode_bytecode(chunk.clone()), Some(chunk));
}

#[test]
fn empty_code_skips_three_bytes() {
    // zero instruction slots: the walk still steps three bytes on
    let chunk = vec![3, 0, 1, 0, 0, 0, 0, 0, 9, 9, 9, 0, 0, 0, 0, 0, 0, 0];
    assert_eq!(encode_bytecode(chunk.clone()), Some(chunk));
}

#[test]
fn aux_opcode_in_last_slot() {
    // one slot holding an opcode with an auxiliary word: the walk goes on
    // three bytes after the opcode
    let chunk = vec![3, 0, 1, 0, 0, 0, 0, 1, 7, 0, 0, 0, 0, 0, 0, 0, 0, 0];
    let mut expected = chunk.clone();
    expected[8] = enc(7);
    assert_eq!(encode_bytecode(chunk), Some(expected));
}

#[test]
fn line_and_debug_information_are_skipped() {
    let chunk = vec![
        3, 0, 1, // no strings, one prototype
        0, 0, 0, 0, 2, // header, two slots
        2, 0, 0, 0, 22, 0, 0, 0, // LOADNIL, RETURN
        1, 0, // one constant: nil
        0, 0, 0, // no children, line defined, debug name
        1, 1, 0, 0, 9, 9, 9, 9, // line info: gap 1, two line bytes, one interval
        1, 1, 5, 0, 1, 2, 1, 7, // debug info: one local (4 varints), one upvalue
    ];
    let mut expected = chunk.clone();
    expected[8] = enc(2);
    expected[12] = enc(22);
    assert_eq!(encode_bytecode(chunk), Some(expected));
}

#[test]
fn line_info_with_zero_slots_is_refused() {
    let chunk = vec![3, 0, 1, 0, 0, 0, 0, 0, 9, 9, 9, 0, 0, 0, 0, 1, 0, 0, 0];
    assert_eq!(encode_bytecode(chunk), None);
}

#[test]
fn read_var_int_single_byte() {
    let data = vec![0x05, 0x80];
    let mut off = 0usize;
    assert_eq!(Execution::read_var_int(&data, &mut off), 5);
    assert_eq!(off, 1);
}

#[test]
fn read_var_int_two_bytes() {
    let data = vec![0x00, 0x81, 0x01];
    let mut off = 1usize;
    assert_eq!(Execution::read_var_int(&data, &mut off), 129);
    assert_eq!(off, 3);
}

#[test]
fn read_var_int_five_bytes_truncate() {
    let data = vec![0xff, 0xff, 0xff, 0xff, 0x7f];
    assert_eq!(Execution::try_read_var_int(&data, 0), Some((0xffff_ffff, 5)));
    let data = vec![0x80, 0x80, 0x80, 0x80, 0x10];
    assert_eq!(Execution::try_read_var_int(&data, 0), Some((0, 5)));
}

#[test]
fn read_var_int_refuses_long_or_cut_varints() {
    let data = vec![0x80, 0x80, 0x80, 0x80, 0x80, 0x01];
    assert_eq!(Execution::try_read_var_int(&data, 0), None);
    let data = vec![0x80, 0x80];
    assert_eq!(Execution::try_read_var_int(&data, 0), None);
    assert_eq!(Execution::try_read_var_int(&data, 7), None);
}

#[test]
fn opcodes_from_bytes() {
    assert_eq!(get_opcode_from_byte(0), Some(LuauOpcode::LopNop));
    assert_eq!(get_opcode_from_byte(7), Some(LuauOpcode::LopGetglobal));
    assert_eq!(get_opcode_from_byte(76), Some(LuauOpcode::LopForgprep));
    assert_eq!(get_opcode_from_byte(77), None);
    assert_eq!(get_opcode_from_byte(255), None);
}

#[test]
fn op_lengths() {
    assert_eq!(Execution::get_op_length(LuauOpcode::LopGetglobal), 2);
    assert_eq!(Execution::get_op_length(LuauOpcode::LopFastcall2k), 2);
    assert_eq!(Execution::get_op_length(LuauOpcode::LopJumpifnoteqk), 2);
    assert_eq!(Execution::get_op_length(LuauOpcode::LopLoadnil), 1);
    assert_eq!(Execution::get_op_length(LuauOpcode::LopFastcall1), 1);
}
