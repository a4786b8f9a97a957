use rusty::api::{Api, ReplacerT, Roblox};
use rusty::execution::{encode_bytecode, CycleAction, Execution, ScriptQueue};
use rusty::scheduler::{JobRecord, Scheduler};

fn error_text(action: CycleAction) -> Vec<u8> {
    match action {
        CycleAction::ReportError(m) => m,
        _ => panic!("expected an error report"),
    }
}

fn executed(action: CycleAction) -> Vec<u8> {
    match action {
        CycleAction::Execute(b) => b,
        _ => panic!("expected bytecode to run"),
    }
}

#[test]
fn last_queued_runs_first() {
    let mut queue = ScriptQueue::new();
    queue.push(vec![3, 1, 1]);
    queue.push(vec![3, 2, 2]);
    assert_eq!(queue.len(), 2);
    assert!(queue.can_dispatch());
    assert_eq!(executed(Execution::scheduler_cycle(&mut queue)), vec![3, 2, 2]);
    assert_eq!(executed(Execution::scheduler_cycle(&mut queue)), vec![3, 1, 1]);
    assert!(matches!(Execution::scheduler_cycle(&mut queue), CycleAction::Idle));
    assert_eq!(queue.len(), 0);
}

#[test]
fn empty_queue_step_is_idle() {
    let mut queue = ScriptQueue::new();
    assert!(queue.can_dispatch());
    assert!(matches!(Execution::scheduler_cycle(&mut queue), CycleAction::Idle));
    assert_eq!(queue.len(), 0);
}

#[test]
fn compile_error_is_reported() {
    let mut queue = ScriptQueue::new();
    let mut item = vec![0u8];
    item.extend_from_slice(b":1: bad");
    item.push(0);
    queue.push(item);
    assert!(queue.can_dispatch());
    let message = error_text(Execution::scheduler_cycle(&mut queue));
    assert_eq!(message, b"RUSTY ERROR -> :1: bad".to_vec());
}

#[test]
fn malformed_error_payloads_cannot_be_dispatched() {
    for item in [vec![], vec![0u8, b'x'], vec![0u8, b'a', 0, b'b', 0], vec![0u8, 0xff, 0], vec![0u8]] {
        let mut queue = ScriptQueue::new();
        queue.push(item);
        assert!(!queue.can_dispatch());
    }
    let mut queue = ScriptQueue::new();
    queue.push(vec![0u8, 0]);
    assert!(queue.can_dispatch());
    assert_eq!(error_text(Execution::scheduler_cycle(&mut queue)), b"RUSTY ERROR -> ".to_vec());
}

#[test]
fn run_script_queues_the_encoded_compile_output() {
    let scheduler = Scheduler::new(1, 2, 3);
    let mut execution = Execution::new(&scheduler);
    let mut queue = ScriptQueue::new();
    let script = "local x = 1\nprint(x)";
    let compiled = mlua::Compiler::new().compile(script);
    let expected = encode_bytecode(compiled.clone());
    let queued = execution.run_script(&mut queue, script);
    assert_eq!(queued, expected.is_some());
    match expected {
        Some(t) => {
            assert_eq!(queue.len(), 1);
            assert_eq!(executed(Execution::scheduler_cycle(&mut queue)), t);
        }
        None => assert_eq!(queue.len(), 0),
    }
}

#[test]
fn roblox_addresses_from_base() {
    let r = Roblox::new(0x400000);
    assert_eq!(r.handle, 0x400000);
    assert_eq!(r.get_scheduler_addy, 0x400000 + 0xDE05E0);
    assert_eq!(r.get_output_addy, 0x400000 + 0x2eff60);
    assert_eq!(r.callcheck_addy_data, 0x400000 + 0x3996ED4);
    assert_eq!(r.setglobal_path_2_addy, 0x400000 + 0x014A1010);
    assert_eq!(r.patch_spot, 0x400000 + 0x0045AF72);
    assert_eq!((r.backup, r.sec_backup, r.old_val), (0, 0, 0));
    let api = Api::new(&r);
    assert_eq!(api.get_scheduler, r.get_scheduler_addy);
    assert_eq!(api.get_state, 0x400000 + 0x46B0B0);
    assert_eq!(api.output, r.get_output_addy);
    assert_eq!(api.pushvfstring, 0x400000 + 0x1421b40);
    assert_eq!(api.pseudo2, 0x400000 + 0x1421D03);
}

#[test]
fn lua_stack_arithmetic() {
    assert_eq!(Roblox::get_top(0x1040, 0x1000), 4);
    assert_eq!(Roblox::get_top(0x100F, 0x1000), 0);
    assert_eq!(Roblox::decrement_top(0x1040, 1), 0x1030);
    assert_eq!(Roblox::decrement_top(0x1040, 0), 0x1040);
}

#[test]
fn replacer_starts_empty() {
    let r = ReplacerT::new(0x1234);
    assert_eq!(r.addy, 0x1234);
    assert!(r.stolen_len.is_none());
    assert!(r.stolen.is_none());
}

fn job(address: usize, inline: &[u8], heap: &[u8]) -> JobRecord {
    JobRecord { address, inline_name: inline.to_vec(), heap_name: heap.to_vec() }
}

#[test]
fn waiting_scripts_job_is_the_last_match() {
    let jobs = vec![
        job(0x10, b"Render", b""),
        job(0x20, &[0xc0, 0x01], b"WaitingHybridScriptsJob"),
        job(0x30, b"WaitingHybridScriptsJob", b"x"),
        job(0x40, &[0xff], b"WaitingHybridScriptsJob"),
        job(0x50, &[0xff], b"Heartbeat"),
    ];
    assert_eq!(Scheduler::get_waiting_scripts_job(&jobs), 0x40);
    let first_two = vec![job(0x10, b"Render", b""), job(0x20, &[0xc0, 0x01], b"WaitingHybridScriptsJob")];
    assert_eq!(Scheduler::get_waiting_scripts_job(&first_two), 0x20);
    assert_eq!(Scheduler::get_waiting_scripts_job(&vec![job(0x10, b"Render", b"")]), 0);
}

#[test]
fn job_entries_are_two_words_apart() {
    let stride = 2 * std::mem::size_of::<usize>();
    let entries = Scheduler::get_job_entries(0x1000, 0x1000 + 3 * stride);
    assert_eq!(entries, vec![0x1000, 0x1000 + stride, 0x1000 + 2 * stride]);
    assert_eq!(Scheduler::get_job_entries(0x1000, 0x1000 + stride), vec![0x1000]);
}

#[test]
fn hook_replaces_the_step_entry() {
    let mut table = vec![1usize, 2, 3, 4, 5, 6];
    let replaced = Scheduler::hook_waiting_scripts_job(&mut table, 99);
    assert_eq!(replaced, 3);
    assert_eq!(table, vec![1, 2, 99, 4, 5, 6]);
}

#[test]
fn scheduler_fields() {
    let s = Scheduler::new(7, 8, 9);
    assert_eq!((s.task_scheduler, s.datamodel, s.script_context), (7, 8, 9));
    let e = Execution::new(&s);
    assert_eq!(e.scheduler.task_scheduler, 7);
}

#[test]
fn run_script_walks_the_compile_output_not_the_source() {
    // The source text itself would pass the walk (no strings, no prototypes);
    // the compiler's output for it is an error report, which does not.
    let script = "a\0\0";
    assert!(encode_bytecode(script.as_bytes().to_vec()).is_some());
    let compiled = mlua::Compiler::new().compile(script);
    assert_eq!(compiled[0], 0);
    assert_eq!(encode_bytecode(compiled), None);
    let scheduler = Scheduler::new(0, 0, 0);
    let mut execution = Execution::new(&scheduler);
    let mut queue = ScriptQueue::new();
    assert!(!execution.run_script(&mut queue, script));
    assert_eq!(queue.len(), 0);
}

#[test]
fn encoded_chunk_is_run_by_the_next_step() {
    let chunk = vec![3, 0, 1, 0, 0, 0, 0, 1, 22, 0, 0, 0, 0, 0, 0, 0, 0, 0];
    let encoded = encode_bytecode(chunk).unwrap();
    assert_eq!(encoded[8], ((22u16 * 227) % 256) as u8);
    let mut queue = ScriptQueue::new();
    queue.push(vec![3, 0, 0]);
    queue.push(encoded.clone());
    assert!(queue.can_dispatch());
    assert_eq!(executed(Execution::scheduler_cycle(&mut queue)), encoded);
    assert_eq!(queue.len(), 1);
}
