//! Preparing scripts for the host: compiling, re-encoding opcodes, queueing,
//! and what the scheduler hook does with the queue on each step.

use vstd::prelude::*;
use crate::bytecode::{
    advance, encode_code, encode_op, encode_proto, encode_protos, encoded_bytecode, pow128,
    read_varint, skip_constant, skip_constants, skip_debug_info,
    skip_flagged_line_info, skip_line_info, skip_locals, skip_proto_tail, skip_strings,
    skip_varints, varint_end, varint_sum,
};
use crate::lua_opcodes::{get_opcode_from_byte, has_aux_word, opcode_byte, LuauOpcode};
use crate::scheduler::Scheduler;
use vstd::utf8::valid_utf8;
use crate::text::is_utf8;

verus! {

/// One step of varint decoding: OR-ing the next seven bits in at bit `7 * i`
/// adds them with weight `128^i`, modulo `2^32`.
proof fn lemma_varint_step(acc: u32, x: u32, i: u32)
    requires
        x < 128,
        i <= 4,
        acc < pow128(i as nat),
    ensures
        (acc | (x << (7 * i))) as int == (acc + x * pow128(i as nat)) % 0x1_0000_0000,
        acc + x * pow128(i as nat) < 128 * pow128(i as nat),
{
    reveal_with_fuel(pow128, 5);
    if i == 0 {
        assert(acc < 1 && x < 128 ==> (acc | (x << 0u32)) as int == (acc + x) % 0x1_0000_0000)
            by (bit_vector);
    } else if i == 1 {
        assert(acc < 128 && x < 128 ==> (acc | (x << 7u32)) as int == (acc + x * 128)
            % 0x1_0000_0000) by (bit_vector);
    } else if i == 2 {
        assert(acc < 16384 && x < 128 ==> (acc | (x << 14u32)) as int == (acc + x * 16384)
            % 0x1_0000_0000) by (bit_vector);
    } else if i == 3 {
        assert(acc < 2097152 && x < 128 ==> (acc | (x << 21u32)) as int == (acc + x * 2097152)
            % 0x1_0000_0000) by (bit_vector);
    } else {
        assert(acc < 268435456 && x < 128 ==> (acc | (x << 28u32)) as int == (acc + x
            * 268435456) % 0x1_0000_0000) by (bit_vector);
    }
}

/// Whether an offset computed by the walk agrees with the model's.
pub open spec fn offset_matches(r: Option<usize>, o: Option<int>) -> bool {
    match (r, o) {
        (Some(a), Some(b)) => a as int == b,
        (None, None) => true,
        _ => false,
    }
}

/// The offset `n` bytes after `off`, unless it passes `usize::MAX`.
fn advance_offset(off: usize, n: usize) -> (r: Option<usize>)
    ensures
        offset_matches(r, advance(off as int, n as int)),
{
    off.checked_add(n)
}

/// Skips `count` varints from `off`.
fn skip_varints_at(data: &Vec<u8>, off: usize, count: u64) -> (r: Option<usize>)
    ensures
        offset_matches(r, skip_varints(data@, off as int, count as nat)),
{
    let mut o = off;
    let mut k = count;
    while k > 0
        invariant
            skip_varints(data@, off as int, count as nat) == skip_varints(data@, o as int, k as nat),
        decreases k,
    {
        match Execution::try_read_var_int(data, o) {
            Some((_, o2)) => {
                o = o2;
                k = k - 1;
            },
            None => {
                return None;
            },
        }
    }
    Some(o)
}

/// Skips `count` strings from `off`.
fn skip_strings_at(data: &Vec<u8>, off: usize, count: u32) -> (r: Option<usize>)
    ensures
        offset_matches(r, skip_strings(data@, off as int, count as nat)),
{
    let mut o = off;
    let mut k = count;
    while k > 0
        invariant
            skip_strings(data@, off as int, count as nat) == skip_strings(data@, o as int, k as nat),
        decreases k,
    {
        match Execution::try_read_var_int(data, o) {
            Some((len, o2)) => match advance_offset(o2, len as usize) {
                Some(o3) => {
                    o = o3;
                    k = k - 1;
                },
                None => {
                    return None;
                },
            },
            None => {
                return None;
            },
        }
    }
    Some(o)
}

/// Skips one constant at `off`.
fn skip_constant_at(data: &Vec<u8>, off: usize) -> (r: Option<usize>)
    ensures
        offset_matches(r, skip_constant(data@, off as int)),
{
    if off >= data.len() {
        return None;
    }
    let tag = data[off];
    let o = off + 1;
    if tag == 1 {
        advance_offset(o, 1)
    } else if tag == 2 {
        advance_offset(o, 8)
    } else if tag == 3 || tag == 6 {
        match Execution::try_read_var_int(data, o) {
            Some((_, o2)) => Some(o2),
            None => None,
        }
    } else if tag == 4 {
        advance_offset(o, 4)
    } else if tag == 5 {
        match Execution::try_read_var_int(data, o) {
            Some((keys, o2)) => skip_varints_at(data, o2, keys as u64),
            None => None,
        }
    } else {
        Some(o)
    }
}

/// Skips `count` constants from `off`.
fn skip_constants_at(data: &Vec<u8>, off: usize, count: u32) -> (r: Option<usize>)
    ensures
        offset_matches(r, skip_constants(data@, off as int, count as nat)),
{
    let mut o = off;
    let mut k = count;
    while k > 0
        invariant
            skip_constants(data@, off as int, count as nat) == skip_constants(
                data@,
                o as int,
                k as nat,
            ),
        decreases k,
    {
        match skip_constant_at(data, o) {
            Some(o2) => {
                o = o2;
                k = k - 1;
            },
            None => {
                return None;
            },
        }
    }
    Some(o)
}

/// Skips the line information (after its flag byte) of a prototype with `n`
/// instruction slots.
fn skip_line_info_at(data: &Vec<u8>, off: usize, n: u32) -> (r: Option<usize>)
    ensures
        offset_matches(r, skip_line_info(data@, off as int, n)),
{
    if off >= data.len() {
        return None;
    }
    let gap = data[off];
    let o = match advance_offset(off + 1, n as usize) {
        Some(o) => o,
        None => {
            return None;
        },
    };
    if n == 0 || gap >= 32 {
        return None;
    }
    let shifted: u32 = (n - 1) >> (gap as u32);
    assert(shifted <= n - 1) by (bit_vector)
        requires
            shifted == (n - 1) as u32 >> (gap as u32),
            n >= 1,
    ;
    let intervals: u32 = shifted + 1;
    let total: u64 = 4 * (intervals as u64);
    if total > (usize::MAX - o) as u64 {
        None
    } else {
        Some(o + total as usize)
    }
}

/// Skips `count` local-variable records from `off`.
fn skip_locals_at(data: &Vec<u8>, off: usize, count: u32) -> (r: Option<usize>)
    ensures
        offset_matches(r, skip_locals(data@, off as int, count as nat)),
{
    let mut o = off;
    let mut k = count;
    while k > 0
        invariant
            skip_locals(data@, off as int, count as nat) == skip_locals(data@, o as int, k as nat),
        decreases k,
    {
        match skip_varints_at(data, o, 4) {
            Some(o2) => {
                o = o2;
                k = k - 1;
            },
            None => {
                return None;
            },
        }
    }
    Some(o)
}

/// Skips the debug information (after its flag byte).
fn skip_debug_info_at(data: &Vec<u8>, off: usize) -> (r: Option<usize>)
    ensures
        offset_matches(r, skip_debug_info(data@, off as int)),
{
    let (locals, o) = match Execution::try_read_var_int(data, off) {
        Some(p) => p,
        None => {
            return None;
        },
    };
    let o2 = match skip_locals_at(data, o, locals) {
        Some(o2) => o2,
        None => {
            return None;
        },
    };
    let (upvalues, o3) = match Execution::try_read_var_int(data, o2) {
        Some(p) => p,
        None => {
            return None;
        },
    };
    skip_varints_at(data, o3, upvalues as u64)
}

/// Skips what follows the instructions of a prototype with `n` instruction slots.
fn skip_proto_tail_at(data: &Vec<u8>, off: usize, n: u32) -> (r: Option<usize>)
    ensures
        offset_matches(r, skip_proto_tail(data@, off as int, n)),
{
    let (size_k, o1) = match Execution::try_read_var_int(data, off) {
        Some(p) => p,
        None => {
            return None;
        },
    };
    let o2 = match skip_constants_at(data, o1, size_k) {
        Some(o) => o,
        None => {
            return None;
        },
    };
    let (size_p, o3) = match Execution::try_read_var_int(data, o2) {
        Some(p) => p,
        None => {
            return None;
        },
    };
    let o4 = match skip_varints_at(data, o3, size_p as u64) {
        Some(o) => o,
        None => {
            return None;
        },
    };
    let o5 = match skip_varints_at(data, o4, 2) {
        Some(o) => o,
        None => {
            return None;
        },
    };
    if o5 >= data.len() {
        return None;
    }
    let o6 = if data[o5] == 1 {
        match skip_line_info_at(data, o5 + 1, n) {
            Some(o) => o,
            None => {
                return None;
            },
        }
    } else {
        o5 + 1
    };
    assert(offset_matches(Some(o6), skip_flagged_line_info(data@, o5 as int, n)));
    if o6 >= data.len() {
        return None;
    }
    if data[o6] == 1 {
        skip_debug_info_at(data, o6 + 1)
    } else {
        Some(o6 + 1)
    }
}

/// Re-encodes the opcodes of `count` instruction slots from `start`.
fn encode_instructions(code: &mut Vec<u8>, start: usize, count: u32) -> (r: Option<usize>)
    ensures
        r is None <==> encode_code(old(code)@, start as int, count as nat) is None,
        r matches Some(q) ==> encode_code(old(code)@, start as int, count as nat) == Some(
            (final(code)@, q as int),
        ),
{
    let ghost s0 = code@;
    let mut p = start;
    let mut k = count;
    loop
        invariant
            s0 == old(code)@,
            encode_code(s0, start as int, count as nat) == encode_code(code@, p as int, k as nat),
        decreases k,
    {
        if k == 0 {
            return advance_offset(p, 3);
        }
        if p >= code.len() {
            return None;
        }
        let b = code[p];
        let op = match get_opcode_from_byte(b) {
            Some(op) => op,
            None => {
                return None;
            },
        };
        let encoded: u8 = ((b as u16 * 227) % 256) as u8;
        assert(encoded == encode_op(b));
        code.set(p, encoded);
        if Execution::get_op_length(op) == 2 {
            if k == 1 {
                return advance_offset(p, 3);
            }
            match advance_offset(p, 8) {
                Some(q) => {
                    if k == 2 {
                        return Some(q);
                    }
                    p = q;
                    k = k - 2;
                },
                None => {
                    return None;
                },
            }
        } else {
            match advance_offset(p, 4) {
                Some(q) => {
                    if k == 1 {
                        return Some(q);
                    }
                    p = q;
                    k = k - 1;
                },
                None => {
                    return None;
                },
            }
        }
    }
}

/// Re-encodes the opcodes of the prototype at `off`.
fn encode_proto_at(code: &mut Vec<u8>, off: usize) -> (r: Option<usize>)
    ensures
        r is None <==> encode_proto(old(code)@, off as int) is None,
        r matches Some(o) ==> encode_proto(old(code)@, off as int) == Some(
            (final(code)@, o as int),
        ),
{
    let o1 = match advance_offset(off, 4) {
        Some(o) => o,
        None => {
            return None;
        },
    };
    let (n, o2) = match Execution::try_read_var_int(code, o1) {
        Some(p) => p,
        None => {
            return None;
        },
    };
    if o2.checked_add(n as usize).is_none() {
        return None;
    }
    let o3 = match encode_instructions(code, o2, n) {
        Some(o) => o,
        None => {
            return None;
        },
    };
    skip_proto_tail_at(code, o3, n)
}

/// The compiled chunk `bytecode` with the opcode of every instruction of every
/// prototype re-encoded, or `None` where the walk over it stops.
pub fn encode_bytecode(bytecode: Vec<u8>) -> (r: Option<Vec<u8>>)
    ensures
        r is None <==> encoded_bytecode(bytecode@) is None,
        r matches Some(t) ==> encoded_bytecode(bytecode@) == Some(t@),
{
    let ghost s0 = bytecode@;
    let mut code = bytecode;
    let (strings, o1) = match Execution::try_read_var_int(&code, 1) {
        Some(p) => p,
        None => {
            return None;
        },
    };
    let o2 = match skip_strings_at(&code, o1, strings) {
        Some(o) => o,
        None => {
            return None;
        },
    };
    let (protos, o3) = match Execution::try_read_var_int(&code, o2) {
        Some(p) => p,
        None => {
            return None;
        },
    };
    let mut o = o3;
    let mut k = protos;
    while k > 0
        invariant
            s0 == bytecode@,
            read_varint(s0, 1) == Some((strings, o1 as int)),
            skip_strings(s0, o1 as int, strings as nat) == Some(o2 as int),
            read_varint(s0, o2 as int) == Some((protos, o3 as int)),
            encode_protos(s0, o3 as int, protos as nat) == encode_protos(code@, o as int, k as nat),
        decreases k,
    {
        match encode_proto_at(&mut code, o) {
            Some(o4) => {
                o = o4;
                k = k - 1;
            },
            None => {
                return None;
            },
        }
    }
    Some(code)
}

// ----------------------------------------------------------------------
// Compiling
// ----------------------------------------------------------------------

/// The bytes that the Luau compiler in `mlua` produces, with its default
/// options, from the source text `source`.
pub uninterp spec fn luau_compiled(source: Seq<char>) -> Seq<u8>;

/// Compiles `source` with `mlua::Compiler::new().compile`. The contract claims
/// only that the output is a function of the source text: either bytecode, or
/// a zero byte followed by the error message.
#[verifier::external_body]
fn compile_script(source: &str) -> (bytecode: Vec<u8>)
    ensures
        bytecode@ == luau_compiled(source@),
{
    mlua::Compiler::new().compile(source)
}

// ----------------------------------------------------------------------
// The script queue
// ----------------------------------------------------------------------

/// The ASCII text `RUSTY ERROR -> ` that heads every reported error.
pub open spec fn error_header() -> Seq<u8> {
    seq![82u8, 85, 83, 84, 89, 32, 69, 82, 82, 79, 82, 32, 45, 62, 32]
}

/// Whether `payload` is a C string with its terminating zero and no other
/// zero byte, and its text is UTF-8.
pub open spec fn is_error_payload(payload: Seq<u8>) -> bool {
    &&& payload.len() > 0
    &&& payload.last() == 0
    &&& forall|i: int| 0 <= i < payload.len() - 1 ==> payload[i] != 0
    &&& valid_utf8(payload.drop_last())
}

/// Whether the scheduler step can take `item` off the queue: it is not empty,
/// and where it starts with a zero byte (a compile error) the rest is an error
/// payload.
pub open spec fn dispatchable(item: Seq<u8>) -> bool {
    &&& item.len() > 0
    &&& item[0] == 0 ==> is_error_payload(item.drop_first())
}

/// The message reported for the queued compile error `item`: the header, then
/// the text of the payload without its terminating zero.
pub open spec fn error_message(item: Seq<u8>) -> Seq<u8> {
    error_header() + item.subrange(1, item.len() - 1)
}

/// The script that the next scheduler step takes: the one queued last.
pub open spec fn next_script(queue: Seq<Seq<u8>>) -> Option<Seq<u8>> {
    if queue.len() == 0 {
        None
    } else {
        Some(queue.last())
    }
}

/// The queue after a scheduler step.
pub open spec fn after_step(queue: Seq<Seq<u8>>) -> Seq<Seq<u8>> {
    if queue.len() == 0 {
        queue
    } else {
        queue.drop_last()
    }
}

/// A script queued by [`push`](ScriptQueue::push) is the one the next
/// scheduler step takes, and the step leaves the queue as it was before.
pub proof fn lemma_push_then_step(queue: Seq<Seq<u8>>, script: Seq<u8>)
    ensures
        next_script(queue.push(script)) == Some(script),
        after_step(queue.push(script)) == queue,
{
    assert(queue.push(script).drop_last() =~= queue);
}

/// A scheduler step on an empty queue takes nothing and changes nothing.
pub proof fn lemma_step_on_empty(queue: Seq<Seq<u8>>)
    requires
        queue.len() == 0,
    ensures
        next_script(queue) is None,
        after_step(queue) == queue,
{
}

/// A chunk that the walk accepts and whose version byte is not zero, once
/// queued, is the script the next scheduler step takes, and that step runs it
/// rather than reporting an error.
pub proof fn lemma_encoded_chunk_runs_next(queue: Seq<Seq<u8>>, s: Seq<u8>)
    ensures
        encoded_bytecode(s) matches Some(t) ==> (s[0] != 0 ==> {
            &&& next_script(queue.push(t)) == Some(t)
            &&& dispatchable(t)
            &&& t[0] != 0
        }),
{
    crate::bytecode::lemma_encoding_changes_only_opcodes(s);
    if let Some(t) = encoded_bytecode(s) {
        crate::bytecode::lemma_read_varint_bounds(s, 1);
        lemma_push_then_step(queue, t);
    }
}

/// A compile error queued as a zero byte, then a UTF-8 text without zero
/// bytes, of any length, then a terminating zero, can be taken by the
/// scheduler step, which reports the header followed by exactly that text; a
/// nonempty item whose first byte is not zero can always be taken.
pub proof fn lemma_error_items_dispatchable(text: Seq<u8>, item: Seq<u8>)
    requires
        valid_utf8(text),
        forall|i: int| 0 <= i < text.len() ==> #[trigger] text[i] != 0,
    ensures
        dispatchable(seq![0u8] + text + seq![0u8]),
        error_message(seq![0u8] + text + seq![0u8]) == error_header() + text,
        item.len() > 0 && item[0] != 0 ==> dispatchable(item),
{
    let e = seq![0u8] + text + seq![0u8];
    assert(e.drop_first() =~= text + seq![0u8]);
    assert(e.drop_first().drop_last() =~= text);
    assert forall|i: int| 0 <= i < e.drop_first().len() - 1 implies e.drop_first()[i] != 0 by {
        assert(e.drop_first()[i] == text[i]);
    }
    assert(e.subrange(1, e.len() - 1) =~= text);
}

/// Compiled scripts waiting for the scheduler, the last queued taken first.
pub struct ScriptQueue {
    scripts: Vec<Vec<u8>>,
}

impl View for ScriptQueue {
    type V = Seq<Seq<u8>>;

    closed spec fn view(&self) -> Seq<Seq<u8>> {
        self.scripts@.map_values(|v: Vec<u8>| v@)
    }
}

impl ScriptQueue {
    pub fn new() -> (r: ScriptQueue)
        ensures
            r@ == Seq::<Seq<u8>>::empty(),
    {
        let r = ScriptQueue { scripts: Vec::new() };
        assert(r@ =~= Seq::<Seq<u8>>::empty());
        r
    }

    pub fn len(&self) -> (r: usize)
        ensures
            r == self@.len(),
    {
        self.scripts.len()
    }

    /// Queues a compiled script.
    pub fn push(&mut self, bytecode: Vec<u8>)
        ensures
            final(self)@ == old(self)@.push(bytecode@),
    {
        self.scripts.push(bytecode);
        assert(self@ =~= old(self)@.push(bytecode@));
    }

    /// Takes the script queued last, if any.
    fn pop(&mut self) -> (r: Option<Vec<u8>>)
        ensures
            final(self)@ == after_step(old(self)@),
            match r {
                Some(b) => next_script(old(self)@) == Some(b@),
                None => next_script(old(self)@) is None,
            },
    {
        let r = self.scripts.pop();
        assert(self@ =~= after_step(old(self)@));
        r
    }

    /// Whether the next scheduler step can take its script: the queue is
    /// empty or the script queued last is dispatchable.
    pub fn can_dispatch(&self) -> (r: bool)
        ensures
            r == (next_script(self@) matches Some(item) ==> dispatchable(item)),
    {
        let n = self.scripts.len();
        if n == 0 {
            return true;
        }
        let item = &self.scripts[n - 1];
        assert(item@ == self@.last());
        let len = item.len();
        if len == 0 {
            return false;
        }
        if item[0] != 0 {
            return true;
        }
        if len < 2 || item[len - 1] != 0 {
            return false;
        }
        let mut i: usize = 1;
        while i < len - 1
            invariant
                1 <= i <= len - 1,
                len == item@.len(),
                item@ == self@.last(),
                self@.len() > 0,
                item@[0] == 0,
                forall|j: int| 1 <= j < i ==> item@[j] != 0,
            decreases len - 1 - i,
        {
            if item[i] == 0 {
                assert(item@.drop_first()[i - 1] == 0);
                return false;
            }
            i = i + 1;
        }
        let text = &item.as_slice()[1..len - 1];
        assert(text@ =~= item@.drop_first().drop_last());
        is_utf8(text)
    }
}

/// What the scheduler hook does on one step.
pub enum CycleAction {
    /// The queue was empty.
    Idle,
    /// Print this message, which reports a compile error.
    ReportError(Vec<u8>),
    /// Load, spawn and run this bytecode.
    Execute(Vec<u8>),
}

/// Handle on the scheduler of the host, through which scripts are run.
pub struct Execution<'a> {
    pub scheduler: &'a Scheduler,
}

impl<'a> Execution<'a> {
    pub fn new(scheduler: &'a Scheduler) -> (r: Execution<'a>)
        ensures
            r.scheduler == scheduler,
    {
        Execution { scheduler }
    }

    /// Compiles `script`, re-encodes the opcodes of the bytecode and queues it
    /// for the scheduler; gives `false`, queueing nothing, where the walk over
    /// the bytecode stops.
    pub fn run_script(&mut self, queue: &mut ScriptQueue, script: &str) -> (queued: bool)
        ensures
            match encoded_bytecode(luau_compiled(script@)) {
                Some(t) => queued && final(queue)@ == old(queue)@.push(t),
                None => !queued && final(queue)@ == old(queue)@,
            },
    {
        let compiled = compile_script(script);
        match encode_bytecode(compiled) {
            Some(encoded) => {
                queue.push(encoded);
                true
            },
            None => false,
        }
    }

    /// One step of the scheduler hook: takes the script queued last and says
    /// whether to report it as a compile error or to run it.
    pub fn scheduler_cycle(queue: &mut ScriptQueue) -> (action: CycleAction)
        requires
            next_script(old(queue)@) matches Some(item) ==> dispatchable(item),
        ensures
            final(queue)@ == after_step(old(queue)@),
            match next_script(old(queue)@) {
                None => action is Idle,
                Some(item) => if item[0] == 0 {
                    action matches CycleAction::ReportError(m) && m@ == error_message(item)
                } else {
                    action matches CycleAction::Execute(b) && b@ == item
                },
            },
    {
        match queue.pop() {
            None => CycleAction::Idle,
            Some(bytecode) => {
                if bytecode[0] == 0 {
                    let n = bytecode.len();
                    let mut message: Vec<u8> = vec![82u8, 85, 83, 84, 89, 32, 69, 82, 82, 79, 82, 32, 45, 62, 32];
                    let mut i: usize = 1;
                    while i < n - 1
                        invariant
                            1 <= i <= n - 1,
                            n == bytecode@.len(),
                            message@ == error_header() + bytecode@.subrange(1, i as int),
                        decreases n - 1 - i,
                    {
                        message.push(bytecode[i]);
                        assert(bytecode@.subrange(1, i + 1) =~= bytecode@.subrange(1, i as int).push(bytecode@[i as int]));
                        i = i + 1;
                    }
                    CycleAction::ReportError(message)
                } else {
                    CycleAction::Execute(bytecode)
                }
            },
        }
    }

    /// Reads the varint at `offset`: its value and the offset just after it,
    /// or `None` where the chunk ends first or the varint runs past five bytes.
    pub fn try_read_var_int(data: &Vec<u8>, offset: usize) -> (r: Option<(u32, usize)>)
        ensures
            r is None <==> read_varint(data@, offset as int) is None,
            r matches Some((v, o)) ==> read_varint(data@, offset as int) == Some((v, o as int)),
    {
        proof {
            crate::bytecode::lemma_read_varint_bounds(data@, offset as int);
        }
        let ghost s = data@;
        let mut result: u32 = 0;
        let mut shift: u32 = 0;
        let mut i: usize = 0;
        loop
            invariant
                s == data@,
                i <= 4,
                shift == 7 * i,
                i == 0 || offset + i <= data.len(),
                varint_end(s, offset as int, 0) == varint_end(s, offset as int, i as nat),
                result as nat == varint_sum(s, offset as int, i as nat),
                varint_sum(s, offset as int, i as nat) < pow128(i as nat),
            decreases 5 - i,
        {
            let pos = offset + i;
            if pos >= data.len() {
                return None;
            }
            let byte = data[pos];
            let low: u32 = (byte as u32) & 127;
            assert(low == byte % 128 && low < 128) by (bit_vector)
                requires
                    low == (byte as u32) & 127,
            ;
            proof {
                lemma_varint_step(result, low, i as u32);
                reveal_with_fuel(pow128, 5);
            }
            result = result | (low << shift);
            assert(result as nat == varint_sum(s, offset as int, (i + 1) as nat) % 0x1_0000_0000);
            if byte & 128 == 0 {
                assert(byte < 128) by (bit_vector)
                    requires
                        byte & 128 == 0,
                ;
                proof {
                    if i < 4 {
                        assert(varint_sum(s, offset as int, (i + 1) as nat) < 0x1_0000_0000);
                    }
                }
                return Some((result, pos + 1));
            }
            assert(byte >= 128) by (bit_vector)
                requires
                    byte & 128 != 0,
            ;
            if i == 4 {
                assert(varint_end(s, offset as int, 5) is None);
                assert(varint_end(s, offset as int, 4) == varint_end(s, offset as int, 5));
                return None;
            }
            i = i + 1;
            shift = shift + 7;
        }
    }

    /// Reads the varint at `offset` and moves `offset` past it.
    pub fn read_var_int(data: &Vec<u8>, offset: &mut usize) -> (r: u32)
        requires
            read_varint(data@, *old(offset) as int) is Some,
        ensures
            read_varint(data@, *old(offset) as int) == Some((r, *final(offset) as int)),
    {
        let (v, o) = Self::try_read_var_int(data, *offset).unwrap();
        *offset = o;
        v
    }

    /// Number of 32-bit words an instruction with opcode `op` takes.
    pub fn get_op_length(op: LuauOpcode) -> (r: i32)
        ensures
            r == (if has_aux_word(opcode_byte(op)) { 2int } else { 1int }),
    {
        match op {
            LuauOpcode::LopGetglobal | LuauOpcode::LopSetglobal | LuauOpcode::LopGetimport
            | LuauOpcode::LopGettableks | LuauOpcode::LopSettableks | LuauOpcode::LopNamecall
            | LuauOpcode::LopJumpifeq | LuauOpcode::LopJumpifle | LuauOpcode::LopJumpiflt
            | LuauOpcode::LopJumpifnoteq | LuauOpcode::LopJumpifnotle | LuauOpcode::LopJumpifnotlt
            | LuauOpcode::LopNewtable | LuauOpcode::LopSetlist | LuauOpcode::LopForgloop
            | LuauOpcode::LopLoadkx | LuauOpcode::LopJumpifeqk | LuauOpcode::LopJumpifnoteqk
            | LuauOpcode::LopFastcall2 | LuauOpcode::LopFastcall2k => 2,
            _ => 1,
        }
    }
}

} // verus!
