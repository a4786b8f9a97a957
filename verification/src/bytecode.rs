//! The model of the walk over a compiled Luau chunk.
//!
//! The chunk is read as: a version byte; a varint count of strings, each a
//! varint length and that many bytes; a varint count of function prototypes.
//! Each prototype holds four header bytes, a varint count of instruction words
//! and the words (4 bytes each, the opcode in the first byte), then its
//! constants, child prototypes, line-defined and debug-name varints, optional
//! line information and optional debug information.
//!
//! The walk re-encodes the opcode byte of every instruction (multiplying it by
//! 227 modulo 256) and skips the auxiliary word that follows some opcodes.
//! Offsets are machine words: an offset that would pass `usize::MAX` stops the
//! walk, as does a read past the end of the chunk or a byte that names no
//! opcode.

use vstd::prelude::*;
use crate::lua_opcodes::{has_aux_word, OPCODE_COUNT};

verus! {

/// The offset `n` bytes after `off`, if it is still a machine word.
pub open spec fn advance(off: int, n: int) -> Option<int> {
    if off + n <= usize::MAX {
        Some(off + n)
    } else {
        None
    }
}

/// The encoding applied to an opcode byte.
pub open spec fn encode_op(b: u8) -> u8 {
    ((b as int * 227) % 256) as u8
}

/// The inverse of [`encode_op`]: 203 is the inverse of 227 modulo 256.
pub open spec fn decode_op(b: u8) -> u8 {
    ((b as int * 203) % 256) as u8
}

// ----------------------------------------------------------------------
// Varints
// ----------------------------------------------------------------------

/// `128` to the power `i`.
pub open spec fn pow128(i: nat) -> nat
    decreases i,
{
    if i == 0 {
        1
    } else {
        128 * pow128((i - 1) as nat)
    }
}

/// The sum of the low seven bits of the first `n` bytes from `off`, the
/// `k`-th byte weighted by `128^k`.
pub open spec fn varint_sum(s: Seq<u8>, off: int, n: nat) -> nat
    decreases n,
{
    if n == 0 {
        0
    } else {
        varint_sum(s, off, (n - 1) as nat) + (s[off + n - 1] % 128) as nat * pow128((n - 1) as nat)
    }
}

/// The index, counted from `off`, of the byte that ends a varint, looking at
/// the byte `i` and later ones; at most five bytes are accepted.
pub open spec fn varint_end(s: Seq<u8>, off: int, i: nat) -> Option<nat>
    decreases 5 - i,
{
    if i >= 5 || off + i < 0 || off + i >= s.len() {
        None
    } else if s[off + i] < 128 {
        Some(i)
    } else {
        varint_end(s, off, i + 1)
    }
}

/// The varint at `off`: its value modulo `2^32` and the offset just after it.
pub open spec fn read_varint(s: Seq<u8>, off: int) -> Option<(u32, int)> {
    match varint_end(s, off, 0) {
        Some(j) => Some(((varint_sum(s, off, j + 1) % 0x1_0000_0000) as u32, off + j + 1)),
        None => None,
    }
}

/// Where a varint ends, it ends inside the chunk, at most five bytes on.
pub proof fn lemma_varint_end_bounds(s: Seq<u8>, off: int, i: nat)
    ensures
        varint_end(s, off, i) matches Some(j) ==> i <= j < 5 && 0 <= off + j < s.len(),
    decreases 5 - i,
{
    if !(i >= 5 || off + i < 0 || off + i >= s.len()) && s[off + i] >= 128 {
        lemma_varint_end_bounds(s, off, i + 1);
    }
}

/// A varint that can be read lies inside the chunk, after its start.
pub proof fn lemma_read_varint_bounds(s: Seq<u8>, off: int)
    ensures
        read_varint(s, off) matches Some((_, o)) ==> 0 <= off < o <= s.len() && o <= off + 5,
{
    lemma_varint_end_bounds(s, off, 0);
}

/// The offset after `count` consecutive varints from `off`.
pub open spec fn skip_varints(s: Seq<u8>, off: int, count: nat) -> Option<int>
    decreases count,
{
    if count == 0 {
        Some(off)
    } else {
        match read_varint(s, off) {
            Some((_, o)) => skip_varints(s, o, (count - 1) as nat),
            None => None,
        }
    }
}

// ----------------------------------------------------------------------
// The string table
// ----------------------------------------------------------------------

/// The offset after `count` strings from `off`, each a varint length and
/// that many bytes.
pub open spec fn skip_strings(s: Seq<u8>, off: int, count: nat) -> Option<int>
    decreases count,
{
    if count == 0 {
        Some(off)
    } else {
        match read_varint(s, off) {
            Some((len, o)) => match advance(o, len as int) {
                Some(o2) => skip_strings(s, o2, (count - 1) as nat),
                None => None,
            },
            None => None,
        }
    }
}

// ----------------------------------------------------------------------
// Instructions
// ----------------------------------------------------------------------

/// Re-encodes the opcodes of `k` instruction slots from `p`: an opcode with an
/// auxiliary word takes two slots. Gives the bytes and the offset three bytes
/// past the point where the slot count runs out.
pub open spec fn encode_code(s: Seq<u8>, p: int, k: nat) -> Option<(Seq<u8>, int)>
    decreases k,
{
    if k == 0 {
        match advance(p, 3) {
            Some(q) => Some((s, q)),
            None => None,
        }
    } else if p < 0 || p >= s.len() || s[p] >= OPCODE_COUNT {
        None
    } else {
        let s1 = s.update(p, encode_op(s[p]));
        if !has_aux_word(s[p]) {
            match advance(p, 4) {
                Some(q) => if k == 1 {
                    Some((s1, q))
                } else {
                    encode_code(s1, q, (k - 1) as nat)
                },
                None => None,
            }
        } else if k == 1 {
            match advance(p, 3) {
                Some(q) => Some((s1, q)),
                None => None,
            }
        } else {
            match advance(p, 8) {
                Some(q) => if k == 2 {
                    Some((s1, q))
                } else {
                    encode_code(s1, q, (k - 2) as nat)
                },
                None => None,
            }
        }
    }
}

// ----------------------------------------------------------------------
// The rest of a prototype
// ----------------------------------------------------------------------

/// The offset after one constant at `off`: a tag byte, then nothing (nil or an
/// unknown tag), one byte (boolean), eight bytes (number), a varint (string,
/// closure), four bytes (import) or a varint count of varint keys (table).
pub open spec fn skip_constant(s: Seq<u8>, off: int) -> Option<int> {
    if off < 0 || off >= s.len() {
        None
    } else {
        let tag = s[off];
        let o = off + 1;
        if tag == 1 {
            advance(o, 1)
        } else if tag == 2 {
            advance(o, 8)
        } else if tag == 3 || tag == 6 {
            match read_varint(s, o) {
                Some((_, o2)) => Some(o2),
                None => None,
            }
        } else if tag == 4 {
            advance(o, 4)
        } else if tag == 5 {
            match read_varint(s, o) {
                Some((keys, o2)) => skip_varints(s, o2, keys as nat),
                None => None,
            }
        } else {
            Some(o)
        }
    }
}

/// The offset after `count` constants from `off`.
pub open spec fn skip_constants(s: Seq<u8>, off: int, count: nat) -> Option<int>
    decreases count,
{
    if count == 0 {
        Some(off)
    } else {
        match skip_constant(s, off) {
            Some(o) => skip_constants(s, o, (count - 1) as nat),
            None => None,
        }
    }
}

/// The offset after the line information of a prototype with `n` instruction
/// slots, from `off`: a gap exponent byte, one byte per slot, and four bytes
/// per interval of `2^gap` slots.
pub open spec fn skip_line_info(s: Seq<u8>, off: int, n: u32) -> Option<int> {
    if off < 0 || off >= s.len() {
        None
    } else {
        let gap = s[off];
        match advance(off + 1, n as int) {
            Some(o) => if n == 0 || gap >= 32 {
                None
            } else {
                advance(o, 4 * ((((n - 1) as u32) >> (gap as u32)) as int + 1))
            },
            None => None,
        }
    }
}

/// The offset after `count` local-variable records (four varints each) from `off`.
pub open spec fn skip_locals(s: Seq<u8>, off: int, count: nat) -> Option<int>
    decreases count,
{
    if count == 0 {
        Some(off)
    } else {
        match skip_varints(s, off, 4) {
            Some(o) => skip_locals(s, o, (count - 1) as nat),
            None => None,
        }
    }
}

/// The offset after the debug information from `off`: a varint count of
/// locals and the locals, a varint count of upvalue names and the names.
pub open spec fn skip_debug_info(s: Seq<u8>, off: int) -> Option<int> {
    match read_varint(s, off) {
        Some((locals, o)) => match skip_locals(s, o, locals as nat) {
            Some(o2) => match read_varint(s, o2) {
                Some((upvalues, o3)) => skip_varints(s, o3, upvalues as nat),
                None => None,
            },
            None => None,
        },
        None => None,
    }
}

/// The offset after a byte flag at `off` and, where the flag is 1, the
/// line information of a prototype with `n` instruction slots.
pub open spec fn skip_flagged_line_info(s: Seq<u8>, off: int, n: u32) -> Option<int> {
    if off < 0 || off >= s.len() {
        None
    } else if s[off] == 1 {
        skip_line_info(s, off + 1, n)
    } else {
        Some(off + 1)
    }
}

/// The offset after a byte flag at `off` and, where the flag is 1, the debug
/// information.
pub open spec fn skip_flagged_debug_info(s: Seq<u8>, off: int) -> Option<int> {
    if off < 0 || off >= s.len() {
        None
    } else if s[off] == 1 {
        skip_debug_info(s, off + 1)
    } else {
        Some(off + 1)
    }
}

/// The offset after what follows the instructions of a prototype with `n`
/// instruction slots: constants, child prototypes, line defined, debug name,
/// line information, debug information.
pub open spec fn skip_proto_tail(s: Seq<u8>, off: int, n: u32) -> Option<int> {
    match read_varint(s, off) {
        Some((size_k, o1)) => match skip_constants(s, o1, size_k as nat) {
            Some(o2) => match read_varint(s, o2) {
                Some((size_p, o3)) => match skip_varints(s, o3, size_p as nat) {
                    Some(o4) => match skip_varints(s, o4, 2) {
                        Some(o5) => match skip_flagged_line_info(s, o5, n) {
                            Some(o6) => skip_flagged_debug_info(s, o6),
                            None => None,
                        },
                        None => None,
                    },
                    None => None,
                },
                None => None,
            },
            None => None,
        },
        None => None,
    }
}

/// One prototype from `off`: the bytes with its opcodes re-encoded, and the
/// offset after it.
pub open spec fn encode_proto(s: Seq<u8>, off: int) -> Option<(Seq<u8>, int)> {
    match advance(off, 4) {
        Some(o1) => match read_varint(s, o1) {
            Some((n, o2)) => if o2 + n > usize::MAX {
                None
            } else {
                match encode_code(s, o2, n as nat) {
                    Some((s2, o3)) => match skip_proto_tail(s2, o3, n) {
                        Some(o4) => Some((s2, o4)),
                        None => None,
                    },
                    None => None,
                }
            },
            None => None,
        },
        None => None,
    }
}

/// `count` prototypes from `off`.
pub open spec fn encode_protos(s: Seq<u8>, off: int, count: nat) -> Option<(Seq<u8>, int)>
    decreases count,
{
    if count == 0 {
        Some((s, off))
    } else {
        match encode_proto(s, off) {
            Some((s2, o)) => encode_protos(s2, o, (count - 1) as nat),
            None => None,
        }
    }
}

/// The chunk `s` with the opcode of every instruction of every prototype
/// re-encoded, or `None` where the walk over it stops.
pub open spec fn encoded_bytecode(s: Seq<u8>) -> Option<Seq<u8>> {
    match read_varint(s, 1) {
        Some((strings, o1)) => match skip_strings(s, o1, strings as nat) {
            Some(o2) => match read_varint(s, o2) {
                Some((protos, o3)) => match encode_protos(s, o3, protos as nat) {
                    Some((t, _)) => Some(t),
                    None => None,
                },
                None => None,
            },
            None => None,
        },
        None => None,
    }
}

} // verus!

verus! {

// ----------------------------------------------------------------------
// What the walk changes
// ----------------------------------------------------------------------

/// `t` is `s` with some opcode bytes in `[lo, hi)` re-encoded, and nothing
/// else changed.
pub open spec fn only_opcodes_encoded(s: Seq<u8>, t: Seq<u8>, lo: int, hi: int) -> bool {
    &&& t.len() == s.len()
    &&& forall|i: int|
        0 <= i < s.len() ==> #[trigger] t[i] == s[i] || (lo <= i < hi && s[i] < OPCODE_COUNT
            && t[i] == encode_op(s[i]))
}

/// Re-encoding an opcode byte can be undone.
pub proof fn lemma_encode_op_invertible(b: u8)
    ensures
        decode_op(encode_op(b)) == b,
{
    let x: int = (b as int * 227) % 256;
    assert(0 <= x < 256);
    assert(((b as int * 227) % 256 * 203) % 256 == b as int) by (nonlinear_arith)
        requires
            0 <= b < 256,
    {
        assert(b as int * 227 == 256 * ((b as int * 227) / 256) + (b as int * 227) % 256);
        assert(((b as int * 227) % 256 * 203) % 256 == (b as int * 227 * 203) % 256) by {
            vstd::arithmetic::div_mod::lemma_mul_mod_noop_left(b as int * 227, 203, 256);
        }
        assert(b as int * 227 * 203 == b as int + 256 * (180 * b as int));
        vstd::arithmetic::div_mod::lemma_mod_multiples_vanish(180 * b as int, b as int, 256);
        vstd::arithmetic::div_mod::lemma_small_mod(b as nat, 256);
    }
}

/// Two walks one after another change only what each changes, provided the
/// second starts where the first ends.
proof fn lemma_only_opcodes_encoded_trans(
    s: Seq<u8>,
    t1: Seq<u8>,
    t2: Seq<u8>,
    a: int,
    b: int,
    c: int,
)
    requires
        a <= b <= c,
        only_opcodes_encoded(s, t1, a, b),
        only_opcodes_encoded(t1, t2, b, c),
    ensures
        only_opcodes_encoded(s, t2, a, c),
{
    assert forall|i: int| 0 <= i < s.len() implies #[trigger] t2[i] == s[i] || (a <= i < c && s[i]
        < OPCODE_COUNT && t2[i] == encode_op(s[i])) by {
        assert(t1[i] == s[i] || (a <= i < b && s[i] < OPCODE_COUNT && t1[i] == encode_op(s[i])));
        assert(t2[i] == t1[i] || (b <= i < c && t1[i] < OPCODE_COUNT && t2[i] == encode_op(t1[i])));
    }
}

proof fn lemma_skip_varints_forward(s: Seq<u8>, off: int, count: nat)
    ensures
        skip_varints(s, off, count) matches Some(o) ==> off <= o,
    decreases count,
{
    if count > 0 {
        lemma_read_varint_bounds(s, off);
        if let Some((_, o)) = read_varint(s, off) {
            lemma_skip_varints_forward(s, o, (count - 1) as nat);
        }
    }
}

proof fn lemma_skip_constants_forward(s: Seq<u8>, off: int, count: nat)
    ensures
        skip_constants(s, off, count) matches Some(o) ==> off <= o,
    decreases count,
{
    if count > 0 {
        if 0 <= off < s.len() {
            lemma_read_varint_bounds(s, off + 1);
            if let Some((keys, o2)) = read_varint(s, off + 1) {
                lemma_skip_varints_forward(s, o2, keys as nat);
            }
        }
        if let Some(o) = skip_constant(s, off) {
            lemma_skip_constants_forward(s, o, (count - 1) as nat);
        }
    }
}

proof fn lemma_skip_locals_forward(s: Seq<u8>, off: int, count: nat)
    ensures
        skip_locals(s, off, count) matches Some(o) ==> off <= o,
    decreases count,
{
    if count > 0 {
        lemma_skip_varints_forward(s, off, 4);
        if let Some(o) = skip_varints(s, off, 4) {
            lemma_skip_locals_forward(s, o, (count - 1) as nat);
        }
    }
}

proof fn lemma_skip_proto_tail_forward(s: Seq<u8>, off: int, n: u32)
    ensures
        skip_proto_tail(s, off, n) matches Some(o) ==> off <= o,
{
    lemma_read_varint_bounds(s, off);
    if let Some((size_k, o1)) = read_varint(s, off) {
        lemma_skip_constants_forward(s, o1, size_k as nat);
        if let Some(o2) = skip_constants(s, o1, size_k as nat) {
            lemma_read_varint_bounds(s, o2);
            if let Some((size_p, o3)) = read_varint(s, o2) {
                lemma_skip_varints_forward(s, o3, size_p as nat);
                if let Some(o4) = skip_varints(s, o3, size_p as nat) {
                    lemma_skip_varints_forward(s, o4, 2);
                    if let Some(o5) = skip_varints(s, o4, 2) {
                        if let Some(o6) = skip_flagged_line_info(s, o5, n) {
                            if 0 <= o6 < s.len() && s[o6] == 1 {
                                lemma_read_varint_bounds(s, o6 + 1);
                                if let Some((locals, p1)) = read_varint(s, o6 + 1) {
                                    lemma_skip_locals_forward(s, p1, locals as nat);
                                    if let Some(p2) = skip_locals(s, p1, locals as nat) {
                                        lemma_read_varint_bounds(s, p2);
                                        if let Some((ups, p3)) = read_varint(s, p2) {
                                            lemma_skip_varints_forward(s, p3, ups as nat);
                                        }
                                    }
                                }
                            }
                        }
                    }
                }
            }
        }
    }
}

proof fn lemma_encode_code_shape(s: Seq<u8>, p: int, k: nat)
    ensures
        encode_code(s, p, k) matches Some((t, q)) ==> p <= q && only_opcodes_encoded(s, t, p, q),
    decreases k,
{
    if k > 0 && 0 <= p < s.len() && s[p] < OPCODE_COUNT {
        let s1 = s.update(p, encode_op(s[p]));
        let q1 = if has_aux_word(s[p]) { p + 8 } else { p + 4 };
        let k1: nat = if has_aux_word(s[p]) { (k - 2) as nat } else { (k - 1) as nat };
        if (has_aux_word(s[p]) && k > 2) || (!has_aux_word(s[p]) && k > 1) {
            lemma_encode_code_shape(s1, q1, k1);
            if let Some((t, q)) = encode_code(s1, q1, k1) {
                assert(only_opcodes_encoded(s, s1, p, q1));
                lemma_only_opcodes_encoded_trans(s, s1, t, p, q1, q);
            }
        }
    }
}

proof fn lemma_encode_protos_shape(s: Seq<u8>, off: int, count: nat)
    ensures
        encode_protos(s, off, count) matches Some((t, q)) ==> off <= q && only_opcodes_encoded(
            s,
            t,
            off,
            q,
        ),
    decreases count,
{
    if count > 0 {
        if let Some((s2, o)) = encode_proto(s, off) {
            let o1 = off + 4;
            lemma_read_varint_bounds(s, o1);
            let (n, o2) = read_varint(s, o1).unwrap();
            lemma_encode_code_shape(s, o2, n as nat);
            let (_, o3) = encode_code(s, o2, n as nat).unwrap();
            lemma_skip_proto_tail_forward(s2, o3, n);
            assert(only_opcodes_encoded(s, s2, off, o));
            lemma_encode_protos_shape(s2, o, (count - 1) as nat);
            if let Some((t, q)) = encode_protos(s2, o, (count - 1) as nat) {
                lemma_only_opcodes_encoded_trans(s, s2, t, off, o, q);
            }
        } else {
        }
    } else {
        assert(only_opcodes_encoded(s, s, off, off));
    }
}

/// Re-encoding changes nothing but opcode bytes: the chunk keeps its length and
/// its version byte, and every other byte either stays or is the re-encoding of
/// the opcode byte that stood there, which decoding gives back.
pub proof fn lemma_encoding_changes_only_opcodes(s: Seq<u8>)
    ensures
        encoded_bytecode(s) matches Some(t) ==> {
            &&& t.len() == s.len()
            &&& t[0] == s[0]
            &&& forall|i: int|
                0 <= i < s.len() ==> #[trigger] t[i] == s[i] || (s[i] < OPCODE_COUNT && t[i]
                    == encode_op(s[i]) && decode_op(t[i]) == s[i])
        },
{
    if let Some(t) = encoded_bytecode(s) {
        lemma_read_varint_bounds(s, 1);
        let (strings, o1) = read_varint(s, 1).unwrap();
        let o2 = skip_strings(s, o1, strings as nat).unwrap();
        lemma_skip_strings_forward(s, o1, strings as nat);
        lemma_read_varint_bounds(s, o2);
        let (protos, o3) = read_varint(s, o2).unwrap();
        lemma_encode_protos_shape(s, o3, protos as nat);
        assert forall|i: int| 0 <= i < s.len() implies #[trigger] t[i] == s[i] || (s[i]
            < OPCODE_COUNT && t[i] == encode_op(s[i]) && decode_op(t[i]) == s[i]) by {
            lemma_encode_op_invertible(s[i]);
        }
        assert(t[0] == s[0]);
    }
}

proof fn lemma_skip_strings_forward(s: Seq<u8>, off: int, count: nat)
    ensures
        skip_strings(s, off, count) matches Some(o) ==> off <= o,
    decreases count,
{
    if count > 0 {
        lemma_read_varint_bounds(s, off);
        if let Some((len, o)) = read_varint(s, off) {
            if let Some(o2) = advance(o, len as int) {
                lemma_skip_strings_forward(s, o2, (count - 1) as nat);
            }
        }
    }
}

} // verus!

verus! {

// ----------------------------------------------------------------------
// Laws on the byte layout, stated on the bytes themselves
// ----------------------------------------------------------------------

/// The value of a varint: the low seven bits of its bytes, the `k`-th byte
/// weighted by `128^k`, for each length from one to five bytes (the fifth
/// byte's bits wrap modulo `2^32`); a varint whose first five bytes all have
/// the high bit set, or that runs past the chunk, cannot be read.
#[verifier::rlimit(40)]
pub proof fn lemma_varint_values(s: Seq<u8>, off: int)
    requires
        0 <= off,
    ensures
        off < s.len() && s[off] < 128 ==> read_varint(s, off) == Some((s[off] as u32, off + 1)),
        off + 1 < s.len() && s[off] >= 128 && s[off + 1] < 128 ==> read_varint(s, off) == Some((
            ((s[off] - 128) + 128 * s[off + 1]) as u32,
            off + 2,
        )),
        off + 2 < s.len() && s[off] >= 128 && s[off + 1] >= 128 && s[off + 2] < 128 ==> read_varint(
            s,
            off,
        ) == Some((
            ((s[off] - 128) + 128 * (s[off + 1] - 128) + 16384 * s[off + 2]) as u32,
            off + 3,
        )),
        off + 3 < s.len() && s[off] >= 128 && s[off + 1] >= 128 && s[off + 2] >= 128 && s[off + 3]
            < 128 ==> read_varint(s, off) == Some((
            ((s[off] - 128) + 128 * (s[off + 1] - 128) + 16384 * (s[off + 2] - 128) + 2097152
                * s[off + 3]) as u32,
            off + 4,
        )),
        off + 4 < s.len() && s[off] >= 128 && s[off + 1] >= 128 && s[off + 2] >= 128 && s[off + 3]
            >= 128 && s[off + 4] < 128 ==> read_varint(s, off) == Some((
            (((s[off] - 128) + 128 * (s[off + 1] - 128) + 16384 * (s[off + 2] - 128) + 2097152 * (
            s[off + 3] - 128) + 268435456 * s[off + 4]) % 0x1_0000_0000) as u32,
            off + 5,
        )),
        off + 4 < s.len() && s[off] >= 128 && s[off + 1] >= 128 && s[off + 2] >= 128 && s[off + 3]
            >= 128 && s[off + 4] >= 128 ==> read_varint(s, off) is None,
        (forall|i: int| off <= i < s.len() ==> #[trigger] s[i] >= 128) && s.len() - off < 5 ==> read_varint(
            s,
            off,
        ) is None,
{
    if off < s.len() {
        if s[off] < 128 {
            lemma_varint_len(s, off, 0);
        } else if off + 1 < s.len() && s[off + 1] < 128 {
            lemma_varint_len(s, off, 1);
        } else if off + 2 < s.len() && s[off + 1] >= 128 && s[off + 2] < 128 {
            lemma_varint_len(s, off, 2);
        } else if off + 3 < s.len() && s[off + 1] >= 128 && s[off + 2] >= 128 && s[off + 3] < 128 {
            lemma_varint_len(s, off, 3);
        } else if off + 4 < s.len() && s[off + 1] >= 128 && s[off + 2] >= 128 && s[off + 3] >= 128
            && s[off + 4] < 128 {
            lemma_varint_len(s, off, 4);
        } else {
            lemma_varint_end_at(s, off);
        }
    }
}

/// A varint from `off` whose first `j` bytes have the high bit set and whose
/// byte `j` does not is `j + 1` bytes long, with the value of its low bits.
#[verifier::rlimit(40)]
proof fn lemma_varint_len(s: Seq<u8>, off: int, j: nat)
    requires
        0 <= off,
        j <= 4,
        off + j < s.len(),
        forall|k: int| 0 <= k < j ==> #[trigger] s[off + k] >= 128,
        s[off + j] < 128,
    ensures
        read_varint(s, off) == Some(((varint_sum(s, off, j + 1) % 0x1_0000_0000) as u32, off + j + 1)),
        j == 0 ==> varint_sum(s, off, 1) == s[off],
        j == 1 ==> varint_sum(s, off, 2) == (s[off] - 128) + 128 * s[off + 1],
        j == 2 ==> varint_sum(s, off, 3) == (s[off] - 128) + 128 * (s[off + 1] - 128) + 16384
            * s[off + 2],
        j == 3 ==> varint_sum(s, off, 4) == (s[off] - 128) + 128 * (s[off + 1] - 128) + 16384 * (
        s[off + 2] - 128) + 2097152 * s[off + 3],
        j == 4 ==> varint_sum(s, off, 5) == (s[off] - 128) + 128 * (s[off + 1] - 128) + 16384 * (
        s[off + 2] - 128) + 2097152 * (s[off + 3] - 128) + 268435456 * s[off + 4],
        j <= 3 ==> varint_sum(s, off, j + 1) < 0x1_0000_0000,
{
    lemma_varint_sums(s, off);
    lemma_varint_end_at(s, off);
    if j >= 1 {
        assert(s[off + 0] >= 128);
        assert(s[off] % 128 == s[off] - 128);
    }
    if j >= 2 {
        assert(s[off + 1] >= 128);
        assert(s[off + 1] % 128 == s[off + 1] - 128);
    }
    if j >= 3 {
        assert(s[off + 2] >= 128);
        assert(s[off + 2] % 128 == s[off + 2] - 128);
    }
    if j >= 4 {
        assert(s[off + 3] >= 128);
        assert(s[off + 3] % 128 == s[off + 3] - 128);
    }
    assert(s[off + j] % 128 == s[off + j]);
    assert(varint_end(s, off, 0) == Some(j));
}

/// The sums of the low seven bits of the first one to five bytes from `off`.
#[verifier::rlimit(40)]
proof fn lemma_varint_sums(s: Seq<u8>, off: int)
    ensures
        varint_sum(s, off, 1) == s[off] % 128,
        varint_sum(s, off, 2) == s[off] % 128 + 128 * (s[off + 1] % 128),
        varint_sum(s, off, 3) == s[off] % 128 + 128 * (s[off + 1] % 128) + 16384 * (s[off + 2]
            % 128),
        varint_sum(s, off, 4) == s[off] % 128 + 128 * (s[off + 1] % 128) + 16384 * (s[off + 2]
            % 128) + 2097152 * (s[off + 3] % 128),
        varint_sum(s, off, 5) == s[off] % 128 + 128 * (s[off + 1] % 128) + 16384 * (s[off + 2]
            % 128) + 2097152 * (s[off + 3] % 128) + 268435456 * (s[off + 4] % 128),
{
    reveal_with_fuel(pow128, 5);
    assert(pow128(0) == 1);
    assert(pow128(1) == 128);
    assert(pow128(2) == 16384);
    assert(pow128(3) == 2097152);
    assert(pow128(4) == 268435456);
    assert(varint_sum(s, off, 0) == 0);
    assert(varint_sum(s, off, 1) == varint_sum(s, off, 0) + (s[off] % 128) as nat * pow128(0));
    assert(varint_sum(s, off, 2) == varint_sum(s, off, 1) + (s[off + 1] % 128) as nat * pow128(1));
    assert(varint_sum(s, off, 3) == varint_sum(s, off, 2) + (s[off + 2] % 128) as nat * pow128(2));
    assert(varint_sum(s, off, 4) == varint_sum(s, off, 3) + (s[off + 3] % 128) as nat * pow128(3));
    assert(varint_sum(s, off, 5) == varint_sum(s, off, 4) + (s[off + 4] % 128) as nat * pow128(4));
}

/// Where a varint from `off` ends, by the high bits of its first bytes.
proof fn lemma_varint_end_at(s: Seq<u8>, off: int)
    requires
        0 <= off < s.len(),
    ensures
        s[off] < 128 ==> varint_end(s, off, 0) == Some(0nat),
        s[off] >= 128 ==> varint_end(s, off, 0) == varint_end(s, off, 1),
        off + 1 < s.len() && s[off + 1] < 128 ==> varint_end(s, off, 1) == Some(1nat),
        off + 1 < s.len() && s[off + 1] >= 128 ==> varint_end(s, off, 1) == varint_end(s, off, 2),
        off + 1 >= s.len() ==> varint_end(s, off, 1) is None,
        off + 2 < s.len() && s[off + 2] < 128 ==> varint_end(s, off, 2) == Some(2nat),
        off + 2 < s.len() && s[off + 2] >= 128 ==> varint_end(s, off, 2) == varint_end(s, off, 3),
        off + 2 >= s.len() ==> varint_end(s, off, 2) is None,
        off + 3 < s.len() && s[off + 3] < 128 ==> varint_end(s, off, 3) == Some(3nat),
        off + 3 < s.len() && s[off + 3] >= 128 ==> varint_end(s, off, 3) == varint_end(s, off, 4),
        off + 3 >= s.len() ==> varint_end(s, off, 3) is None,
        off + 4 < s.len() && s[off + 4] < 128 ==> varint_end(s, off, 4) == Some(4nat),
        off + 4 < s.len() && s[off + 4] >= 128 ==> varint_end(s, off, 4) is None,
        off + 4 >= s.len() ==> varint_end(s, off, 4) is None,
{
    assert(varint_end(s, off, 5) is None);
}

/// The layout of one constant: after the tag byte, a boolean takes one byte,
/// a number eight, an import four, a nil (or an unknown tag) none, and a
/// string or closure index one varint.
pub proof fn lemma_constant_layout(s: Seq<u8>, off: int)
    requires
        0 <= off < s.len(),
        off + 10 <= usize::MAX,
    ensures
        s[off] == 1 ==> skip_constant(s, off) == Some(off + 2),
        s[off] == 2 ==> skip_constant(s, off) == Some(off + 9),
        s[off] == 4 ==> skip_constant(s, off) == Some(off + 5),
        (s[off] == 0 || s[off] > 6) ==> skip_constant(s, off) == Some(off + 1),
        (s[off] == 3 || s[off] == 6) && off + 1 < s.len() && s[off + 1] < 128 ==> skip_constant(
            s,
            off,
        ) == Some(off + 2),
        s[off] == 5 && off + 1 < s.len() && s[off + 1] == 0 ==> skip_constant(s, off) == Some(
            off + 2,
        ),
{
    if off + 1 < s.len() && s[off + 1] < 128 {
        lemma_varint_values(s, off + 1);
    }
}

/// One instruction word: its opcode byte must name an opcode and is
/// re-encoded; the other three bytes of the word stay, and so do the four
/// bytes of the auxiliary word that follows an opcode that has one.
pub proof fn lemma_instruction_word(s: Seq<u8>, p: int, k: nat)
    requires
        k >= 1,
        encode_code(s, p, k) is Some,
    ensures
        ({
            let (t, q) = encode_code(s, p, k).unwrap();
            &&& 0 <= p < s.len()
            &&& s[p] < OPCODE_COUNT
            &&& t[p] == encode_op(s[p])
            &&& forall|i: int| p < i < p + 4 && i < s.len() ==> #[trigger] t[i] == s[i]
            &&& has_aux_word(s[p]) && k >= 2 ==> forall|i: int|
                p < i < p + 8 && i < s.len() ==> #[trigger] t[i] == s[i]
            &&& has_aux_word(s[p]) && k >= 2 ==> q >= p + 8
            &&& !has_aux_word(s[p]) ==> q >= p + 4
        }),
{
    let s1 = s.update(p, encode_op(s[p]));
    let q1 = if has_aux_word(s[p]) { p + 8 } else { p + 4 };
    let k1: nat = if has_aux_word(s[p]) { (k - 2) as nat } else { (k - 1) as nat };
    if (has_aux_word(s[p]) && k > 2) || (!has_aux_word(s[p]) && k > 1) {
        lemma_encode_code_shape(s1, q1, k1);
    }
}

} // verus!
