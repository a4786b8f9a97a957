//! The task scheduler of the host process, modelled by the addresses and
//! names that the program reads from it.

use vstd::prelude::*;
use vstd::utf8::valid_utf8;
use crate::text::is_utf8;

verus! {

/// Addresses of the task scheduler, the data model and the script context.
pub struct Scheduler {
    pub task_scheduler: usize,
    pub datamodel: usize,
    pub script_context: usize,
}

/// A job of the task scheduler: its address, the bytes of the name field read
/// as an inline string (up to its first zero byte), and the bytes of the
/// string that the field points to when the name is stored out of line.
pub struct JobRecord {
    pub address: usize,
    pub inline_name: Vec<u8>,
    pub heap_name: Vec<u8>,
}

/// The ASCII text `WaitingHybridScriptsJob`.
pub open spec fn waiting_job_name() -> Seq<u8> {
    seq![
        87u8, 97, 105, 116, 105, 110, 103, 72, 121, 98, 114, 105, 100, 83, 99, 114, 105, 112, 116,
        115, 74, 111, 98,
    ]
}

/// Whether a job whose name field reads as `inline_name` inline and as
/// `heap_name` out of line is the waiting-scripts job: its name does not read
/// as UTF-8 inline (it is stored out of line) and the out-of-line name is
/// `WaitingHybridScriptsJob`.
pub open spec fn is_waiting_job(inline_name: Seq<u8>, heap_name: Seq<u8>) -> bool {
    !valid_utf8(inline_name) && heap_name == waiting_job_name()
}

/// Whether every job whose name is stored out of line has a UTF-8 name there.
pub open spec fn names_readable(jobs: Seq<JobRecord>) -> bool {
    forall|i: int|
        0 <= i < jobs.len() && !valid_utf8(#[trigger] jobs[i].inline_name@) ==> valid_utf8(
            jobs[i].heap_name@,
        )
}

/// The address of the last waiting-scripts job in `jobs`, or 0.
pub open spec fn last_waiting_job(jobs: Seq<JobRecord>) -> usize
    decreases jobs.len(),
{
    if jobs.len() == 0 {
        0
    } else if is_waiting_job(jobs.last().inline_name@, jobs.last().heap_name@) {
        jobs.last().address
    } else {
        last_waiting_job(jobs.drop_last())
    }
}

/// Every job is looked at: where `jobs[i]` is a waiting-scripts job and no later
/// job is, the search gives `jobs[i]`'s address, whatever `i` is.
pub proof fn lemma_last_waiting_job_found(jobs: Seq<JobRecord>, i: int)
    requires
        0 <= i < jobs.len(),
        is_waiting_job(jobs[i].inline_name@, jobs[i].heap_name@),
        forall|j: int|
            i < j < jobs.len() ==> !is_waiting_job(
                #[trigger] jobs[j].inline_name@,
                jobs[j].heap_name@,
            ),
    ensures
        last_waiting_job(jobs) == jobs[i].address,
    decreases jobs.len(),
{
    if i < jobs.len() - 1 {
        let rest = jobs.drop_last();
        assert(!is_waiting_job(jobs[jobs.len() - 1].inline_name@, jobs[jobs.len() - 1].heap_name@));
        assert forall|j: int| i < j < rest.len() implies !is_waiting_job(
            #[trigger] rest[j].inline_name@,
            rest[j].heap_name@,
        ) by {
            assert(rest[j] == jobs[j]);
        }
        lemma_last_waiting_job_found(rest, i);
    }
}

/// Where no job is the waiting-scripts job, the search gives 0.
pub proof fn lemma_last_waiting_job_absent(jobs: Seq<JobRecord>)
    requires
        forall|j: int|
            0 <= j < jobs.len() ==> !is_waiting_job(
                #[trigger] jobs[j].inline_name@,
                jobs[j].heap_name@,
            ),
    ensures
        last_waiting_job(jobs) == 0,
    decreases jobs.len(),
{
    if jobs.len() > 0 {
        let rest = jobs.drop_last();
        assert(!is_waiting_job(jobs[jobs.len() - 1].inline_name@, jobs[jobs.len() - 1].heap_name@));
        assert forall|j: int| 0 <= j < rest.len() implies !is_waiting_job(
            #[trigger] rest[j].inline_name@,
            rest[j].heap_name@,
        ) by {
            assert(rest[j] == jobs[j]);
        }
        lemma_last_waiting_job_absent(rest);
    }
}

/// The distance in bytes between two entries of the job array: each entry is
/// two machine words.
pub open spec fn job_stride() -> int {
    2 * (usize::BITS / 8) as int
}

/// Whether `a` and `b` hold the same bytes.
fn same_bytes(a: &Vec<u8>, b: &Vec<u8>) -> (r: bool)
    ensures
        r == (a@ == b@),
{
    if a.len() != b.len() {
        return false;
    }
    let mut i: usize = 0;
    while i < a.len()
        invariant
            a.len() == b.len(),
            i <= a.len(),
            forall|j: int| 0 <= j < i ==> a@[j] == b@[j],
        decreases a.len() - i,
    {
        if a[i] != b[i] {
            return false;
        }
        i = i + 1;
    }
    assert(a@ =~= b@);
    true
}

impl Scheduler {
    pub fn new(task_scheduler: usize, datamodel: usize, script_context: usize) -> (r: Scheduler)
        ensures
            r.task_scheduler == task_scheduler,
            r.datamodel == datamodel,
            r.script_context == script_context,
    {
        Scheduler { task_scheduler, datamodel, script_context }
    }

    /// The address of the last waiting-scripts job among `jobs`, or 0 where
    /// there is none.
    pub fn get_waiting_scripts_job(jobs: &Vec<JobRecord>) -> (r: usize)
        requires
            names_readable(jobs@),
        ensures
            r == last_waiting_job(jobs@),
    {
        let target: Vec<u8> = vec![
            87u8, 97, 105, 116, 105, 110, 103, 72, 121, 98, 114, 105, 100, 83, 99, 114, 105, 112,
            116, 115, 74, 111, 98,
        ];
        let mut last_job: usize = 0;
        let mut i: usize = 0;
        while i < jobs.len()
            invariant
                i <= jobs.len(),
                target@ == waiting_job_name(),
                last_job == last_waiting_job(jobs@.take(i as int)),
            decreases jobs.len() - i,
        {
            let job = &jobs[i];
            if !is_utf8(job.inline_name.as_slice()) {
                if same_bytes(&job.heap_name, &target) {
                    last_job = job.address;
                }
            }
            assert(jobs@.take(i + 1).drop_last() =~= jobs@.take(i as int));
            i = i + 1;
        }
        assert(jobs@.take(jobs.len() as int) =~= jobs@);
        last_job
    }

    /// The addresses of the entries of the job array from `jobs_start` up to
    /// `jobs_end`, each entry two machine words on from the last.
    pub fn get_job_entries(jobs_start: usize, jobs_end: usize) -> (entries: Vec<usize>)
        requires
            jobs_start < jobs_end,
            (jobs_end - jobs_start) % job_stride() == 0,
        ensures
            entries@.len() == (jobs_end - jobs_start) / job_stride(),
            forall|i: int|
                0 <= i < entries@.len() ==> #[trigger] entries@[i] == jobs_start + i * job_stride(),
    {
        let stride: usize = 2 * ((usize::BITS / 8) as usize);
        assert(stride == job_stride());
        let ghost n: int = (jobs_end - jobs_start) / job_stride();
        assert(jobs_end - jobs_start == n * stride) by (nonlinear_arith)
            requires
                (jobs_end - jobs_start) % (stride as int) == 0,
                n == (jobs_end - jobs_start) / (stride as int),
                stride > 0,
        ;
        assert(n >= 1) by (nonlinear_arith)
            requires
                jobs_end - jobs_start == n * stride,
                jobs_end - jobs_start > 0,
                stride > 0,
        ;
        let mut entries: Vec<usize> = Vec::new();
        let mut current = jobs_start;
        loop
            invariant_except_break
                entries@.len() < n,
                current == jobs_start + entries@.len() * stride,
            invariant
                stride == job_stride(),
                jobs_end - jobs_start == n * stride,
                n == (jobs_end - jobs_start) / job_stride(),
                forall|i: int|
                    0 <= i < entries@.len() ==> #[trigger] entries@[i] == jobs_start + i * stride,
            ensures
                entries@.len() == n,
            decreases n - entries@.len(),
        {
            let ghost k = entries@.len();
            entries.push(current);
            assert(current + stride == jobs_start + (k + 1) * stride) by (nonlinear_arith)
                requires
                    current == jobs_start + k * stride,
            ;
            assert((k + 1) * stride <= n * stride) by (nonlinear_arith)
                requires
                    k + 1 <= n,
                    stride > 0,
            ;
            current = current + stride;
            if current == jobs_end {
                assert(k + 1 == n) by (nonlinear_arith)
                    requires
                        (k + 1) * stride == n * stride,
                        stride > 0,
                ;
                break;
            }
            assert(k + 1 < n) by (nonlinear_arith)
                requires
                    (k + 1) * stride != n * stride,
                    (k + 1) * stride <= n * stride,
                    stride > 0,
            ;
        }
        entries
    }

    /// Replaces the entry that runs a step of the waiting-scripts job (the
    /// third of the six entries of its table) by `hook`, and gives the entry
    /// that stood there.
    pub fn hook_waiting_scripts_job(table: &mut Vec<usize>, hook: usize) -> (replaced: usize)
        requires
            old(table)@.len() == 6,
        ensures
            replaced == old(table)@[2],
            final(table)@ == old(table)@.update(2, hook),
    {
        let replaced = table[2];
        table.set(2, hook);
        replaced
    }
}

} // verus!
