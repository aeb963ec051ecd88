//! Executing one URScript submission: its blocks are sent in order, a
//! `time(0)` sentinel follows, and the execution cursor is polled until the
//! sentinel (or the last block) has executed.
use vstd::prelude::*;
use crate::error::URError;
use crate::interpreter::CommandResult as Reply;
use crate::script::{blocks_of, split_blocks};
use crate::text::string_views;
use crate::text::{decimal, push_decimal};

verus! {

/// The statement sent after the blocks of a submission.
pub open spec fn sentinel_line() -> Seq<char> {
    "time(0)"@
}

#[derive(Debug, Clone)]
pub enum URScriptStatus {
    Sent,
    Completed,
    Failed(String),
}

impl URScriptStatus {
    /// A copy of this status.
    pub fn duplicate(&self) -> (r: URScriptStatus)
        ensures
            r == *self,
    {
        match self {
            URScriptStatus::Sent => URScriptStatus::Sent,
            URScriptStatus::Completed => URScriptStatus::Completed,
            URScriptStatus::Failed(m) => URScriptStatus::Failed(m.clone()),
        }
    }
}

/// Outcome of one URScript submission.
#[derive(Debug, Clone)]
pub struct URScriptResult {
    /// Id of the first block (0 if it was rejected).
    pub id: u32,
    pub urscript: String,
    pub status: URScriptStatus,
    /// Id of the sentinel, when the interpreter accepted it.
    pub termination_id: Option<u32>,
}

/// The largest id of `ids` (0 for none).
pub open spec fn max_id(ids: Seq<u32>) -> u32
    decreases ids.len(),
{
    if ids.len() == 0 {
        0
    } else {
        let m = max_id(ids.drop_last());
        if ids.last() > m {
            ids.last()
        } else {
            m
        }
    }
}

/// The cursor value that ends the wait: the sentinel's id, or the largest
/// block id when the sentinel was rejected.
pub open spec fn wait_id_of(ids: Seq<u32>, termination: Option<u32>) -> u32 {
    match termination {
        Some(t) => t,
        None => max_id(ids),
    }
}

/// Block `k` has completed once the cursor reaches the next block, or, for
/// the last block, the final wait id.
pub open spec fn block_completes(ids: Seq<u32>, final_wait_id: u32, k: int, last: u32) -> bool {
    if k == ids.len() - 1 {
        last >= final_wait_id
    } else {
        last >= ids[k + 1]
    }
}

/// What one cursor poll changed.
#[derive(Debug, Clone)]
pub struct BlockProgress {
    /// Blocks seen to start at this poll, by index.
    pub started_now: Vec<bool>,
    /// Blocks seen to complete at this poll, by index.
    pub completed_now: Vec<bool>,
    /// The cursor has reached the final wait id.
    pub done: bool,
}

/// Per-block start and completion, tracked from the execution cursor.
#[derive(Debug, Clone)]
pub struct BlockMonitor {
    pub block_ids: Vec<u32>,
    pub final_wait_id: u32,
    pub started: Vec<bool>,
    pub completed: Vec<bool>,
    pub last_seen: u32,
}

impl BlockMonitor {
    pub open spec fn wf(&self) -> bool {
        &&& self.started@.len() == self.block_ids@.len()
        &&& self.completed@.len() == self.block_ids@.len()
    }

    /// A monitor with no block started yet.
    pub fn new(block_ids: Vec<u32>, final_wait_id: u32) -> (m: BlockMonitor)
        ensures
            m.wf(),
            m.block_ids@ == block_ids@,
            m.final_wait_id == final_wait_id,
            m.last_seen == 0,
            forall|k: int| 0 <= k < block_ids@.len() ==> !m.started@[k] && !m.completed@[k],
    {
        let n = block_ids.len();
        let mut started: Vec<bool> = Vec::new();
        let mut completed: Vec<bool> = Vec::new();
        let mut i: usize = 0;
        while i < n
            invariant
                n == block_ids@.len(),
                i <= n,
                started@.len() == i,
                completed@.len() == i,
                forall|k: int| 0 <= k < i ==> !started@[k] && !completed@[k],
            decreases n - i,
        {
            started.push(false);
            completed.push(false);
            i = i + 1;
        }
        BlockMonitor { block_ids, final_wait_id, started, completed, last_seen: 0 }
    }

    /// Takes one reading of the execution cursor. A block starts the first
    /// time the cursor reaches its id; a started block completes when the
    /// cursor has advanced and reaches the next block's id (or, for the last
    /// block, the final wait id).
    pub fn observe(&mut self, last_executed: u32) -> (p: BlockProgress)
        requires
            old(self).wf(),
        ensures
            final(self).wf(),
            final(self).block_ids@ == old(self).block_ids@,
            final(self).final_wait_id == old(self).final_wait_id,
            final(self).last_seen == if last_executed > old(self).last_seen {
                last_executed
            } else {
                old(self).last_seen
            },
            p.started_now@.len() == old(self).block_ids@.len(),
            p.completed_now@.len() == old(self).block_ids@.len(),
            p.done == (last_executed >= old(self).final_wait_id),
            forall|k: int|
                0 <= k < old(self).block_ids@.len() ==> {
                    &&& p.started_now@[k] == (!old(self).started@[k] && last_executed
                        >= old(self).block_ids@[k])
                    &&& final(self).started@[k] == (old(self).started@[k] || last_executed
                        >= old(self).block_ids@[k])
                    &&& p.completed_now@[k] == (last_executed > old(self).last_seen
                        && final(self).started@[k] && !old(self).completed@[k]
                        && block_completes(
                        old(self).block_ids@,
                        old(self).final_wait_id,
                        k,
                        last_executed,
                    ))
                    &&& final(self).completed@[k] == (old(self).completed@[k]
                        || p.completed_now@[k])
                },
    {
        let n = self.block_ids.len();
        let mut started_now: Vec<bool> = Vec::new();
        let mut i: usize = 0;
        while i < n
            invariant
                n == self.block_ids@.len(),
                old(self).wf(),
                i <= n,
                self.wf(),
                self.block_ids@ == old(self).block_ids@,
                self.final_wait_id == old(self).final_wait_id,
                self.last_seen == old(self).last_seen,
                self.completed@ == old(self).completed@,
                started_now@.len() == i,
                forall|k: int|
                    0 <= k < i ==> started_now@[k] == (!old(self).started@[k] && last_executed
                        >= old(self).block_ids@[k]),
                forall|k: int|
                    0 <= k < i ==> self.started@[k] == (old(self).started@[k] || last_executed
                        >= old(self).block_ids@[k]),
                forall|k: int| i <= k < n ==> self.started@[k] == old(self).started@[k],
            decreases n - i,
        {
            let fresh = !self.started[i] && last_executed >= self.block_ids[i];
            started_now.push(fresh);
            if fresh {
                self.started.set(i, true);
            }
            i = i + 1;
        }
        let mut completed_now: Vec<bool> = Vec::new();
        let advanced = last_executed > self.last_seen;
        let mut j: usize = 0;
        while j < n
            invariant
                n == self.block_ids@.len(),
                old(self).wf(),
                j <= n,
                self.wf(),
                self.block_ids@ == old(self).block_ids@,
                self.final_wait_id == old(self).final_wait_id,
                self.last_seen == old(self).last_seen,
                advanced == (last_executed > old(self).last_seen),
                forall|k: int|
                    0 <= k < n ==> self.started@[k] == (old(self).started@[k] || last_executed
                        >= old(self).block_ids@[k]),
                completed_now@.len() == j,
                forall|k: int|
                    0 <= k < j ==> completed_now@[k] == (advanced && self.started@[k]
                        && !old(self).completed@[k] && block_completes(
                        old(self).block_ids@,
                        old(self).final_wait_id,
                        k,
                        last_executed,
                    )) && self.completed@[k] == (old(self).completed@[k] || completed_now@[k]),
                forall|k: int| j <= k < n ==> self.completed@[k] == old(self).completed@[k],
            decreases n - j,
        {
            let reached = if j == n - 1 {
                last_executed >= self.final_wait_id
            } else {
                last_executed >= self.block_ids[j + 1]
            };
            let fresh = advanced && self.started[j] && !self.completed[j] && reached;
            completed_now.push(fresh);
            if fresh {
                self.completed.set(j, true);
            }
            j = j + 1;
        }
        if advanced {
            self.last_seen = last_executed;
        }
        BlockProgress { started_now, completed_now, done: last_executed >= self.final_wait_id }
    }
}

/// The largest id of `ids`, 0 for none.
pub fn max_block_id(ids: &Vec<u32>) -> (m: u32)
    ensures
        m == max_id(ids@),
{
    let mut m: u32 = 0;
    let mut i: usize = 0;
    while i < ids.len()
        invariant
            i <= ids@.len(),
            m == max_id(ids@.subrange(0, i as int)),
        decreases ids@.len() - i,
    {
        proof {
            assert(ids@.subrange(0, i + 1).drop_last() =~= ids@.subrange(0, i as int));
        }
        if ids[i] > m {
            m = ids[i];
        }
        i = i + 1;
    }
    proof {
        assert(ids@.subrange(0, ids@.len() as int) =~= ids@);
    }
    m
}

/// The message of a submission whose block `index` (from 0) was rejected.
pub open spec fn rejection_message(index: nat, raw_reply: Seq<char>) -> Seq<char> {
    "Block "@ + decimal(index + 1) + " rejected: "@ + raw_reply
}

/// The message of a submission whose wait was interrupted.
pub open spec fn interrupted_message() -> Seq<char> {
    "Interrupted by shutdown signal"@
}

/// What the caller must do next for a submission in progress.
#[derive(Debug, Clone)]
pub enum RunStep {
    /// Send this line to the interpreter and hand its reply to `on_reply`.
    Send(String),
    /// Read the execution cursor and hand it to `on_cursor`.
    Poll,
    /// The submission has its outcome.
    Finished,
}

/// One URScript submission in progress.
#[derive(Debug, Clone)]
pub struct ScriptRun {
    pub urscript: String,
    pub blocks: Vec<String>,
    /// Ids of the blocks accepted so far, in order.
    pub block_ids: Vec<u32>,
    pub first_id: u32,
    pub termination_id: Option<u32>,
    /// The sentinel has been answered; the cursor is being watched.
    pub monitoring: bool,
    pub monitor: BlockMonitor,
    /// The last cursor value read.
    pub last_observed: u32,
    pub outcome: Option<URScriptStatus>,
}

impl ScriptRun {
    pub open spec fn wf(&self) -> bool {
        &&& self.blocks@.len() > 0
        &&& string_views(self.blocks@) == blocks_of(self.urscript@)
        &&& self.block_ids@.len() <= self.blocks@.len()
        &&& self.block_ids@.len() > 0 ==> self.first_id == self.block_ids@[0]
        &&& self.monitoring ==> {
            &&& self.block_ids@.len() == self.blocks@.len()
            &&& self.monitor.wf()
            &&& self.monitor.block_ids@ == self.block_ids@
            &&& self.monitor.final_wait_id == wait_id_of(self.block_ids@, self.termination_id)
        }
        &&& !self.monitoring ==> self.termination_id is None
        &&& (self.outcome matches Some(URScriptStatus::Completed)) ==> {
            &&& self.monitoring
            &&& self.last_observed >= self.monitor.final_wait_id
        }
        &&& !(self.outcome matches Some(URScriptStatus::Sent))
    }

    pub open spec fn finished(&self) -> bool {
        self.outcome is Some
    }

    /// Starts a submission; fails with `EmptyBlock` when it holds no block.
    pub fn new(urscript: &str) -> (r: Result<ScriptRun, URError>)
        ensures
            r is Err <==> blocks_of(urscript@).len() == 0,
            r matches Err(e) ==> e is EmptyBlock,
            r matches Ok(run) ==> {
                &&& run.wf()
                &&& run.urscript@ == urscript@
                &&& run.block_ids@.len() == 0
                &&& !run.monitoring
                &&& !run.finished()
            },
    {
        let blocks = split_blocks(urscript);
        if blocks.len() == 0 {
            return Err(URError::EmptyBlock);
        }
        Ok(
            ScriptRun {
                urscript: String::from_str(urscript),
                blocks,
                block_ids: Vec::new(),
                first_id: 0,
                termination_id: None,
                monitoring: false,
                monitor: BlockMonitor::new(Vec::new(), 0),
                last_observed: 0,
                outcome: None,
            },
        )
    }

    /// The next step: each block in order, then the sentinel, then cursor
    /// polls until the outcome is known.
    pub fn next_step(&self) -> (s: RunStep)
        requires
            self.wf(),
        ensures
            self.finished() ==> s is Finished,
            !self.finished() && self.block_ids@.len() < self.blocks@.len() ==> (s matches RunStep::Send(
                line,
            ) && line@ == self.blocks@[self.block_ids@.len() as int]@),
            !self.finished() && self.block_ids@.len() == self.blocks@.len() && !self.monitoring
                ==> (s matches RunStep::Send(line) && line@ == sentinel_line()),
            !self.finished() && self.monitoring ==> s is Poll,
    {
        if self.outcome.is_some() {
            RunStep::Finished
        } else if self.block_ids.len() < self.blocks.len() {
            RunStep::Send(self.blocks[self.block_ids.len()].clone())
        } else if !self.monitoring {
            proof {
                reveal_strlit("time(0)");
            }
            RunStep::Send(String::from_str("time(0)"))
        } else {
            RunStep::Poll
        }
    }

    /// Takes the interpreter's answer to the line `next_step` asked for. A
    /// rejected block ends the submission; an answered sentinel starts the
    /// cursor watch.
    pub fn on_reply(&mut self, reply: &Reply)
        requires
            old(self).wf(),
            !old(self).finished(),
            !old(self).monitoring,
        ensures
            final(self).wf(),
            final(self).urscript == old(self).urscript,
            ({
                let k = old(self).block_ids@.len();
                if k < old(self).blocks@.len() {
                    &&& final(self).first_id == if k == 0 {
                        reply.id
                    } else {
                        old(self).first_id
                    }
                    &&& !final(self).monitoring
                    &&& if reply.rejected {
                        &&& final(self).block_ids@ == old(self).block_ids@
                        &&& final(self).outcome matches Some(URScriptStatus::Failed(m))
                        &&& m@ == rejection_message(k, reply.raw_reply@)
                    } else {
                        &&& final(self).block_ids@ == old(self).block_ids@.push(reply.id)
                        &&& final(self).outcome is None
                    }
                } else {
                    &&& final(self).monitoring
                    &&& final(self).outcome is None
                    &&& final(self).first_id == old(self).first_id
                    &&& final(self).block_ids@ == old(self).block_ids@
                    &&& final(self).termination_id == if reply.rejected {
                        None
                    } else {
                        Some(reply.id)
                    }
                    &&& final(self).monitor.last_seen == 0
                    &&& forall|i: int|
                        0 <= i < final(self).block_ids@.len() ==> !final(self).monitor.started@[i]
                            && !final(self).monitor.completed@[i]
                }
            }),
    {
        let k = self.block_ids.len();
        if k < self.blocks.len() {
            if k == 0 {
                self.first_id = reply.id;
            }
            if reply.rejected {
                let mut msg = String::from_str("Block ");
                push_decimal(&mut msg, (k as u64) + 1);
                msg.append(" rejected: ");
                msg.append(reply.raw_reply.as_str());
                self.outcome = Some(URScriptStatus::Failed(msg));
            } else {
                self.block_ids.push(reply.id);
            }
        } else {
            let termination_id = if reply.rejected {
                None
            } else {
                Some(reply.id)
            };
            let wait_id = match termination_id {
                Some(t) => t,
                None => max_block_id(&self.block_ids),
            };
            self.termination_id = termination_id;
            self.monitor = BlockMonitor::new(self.block_ids.clone(), wait_id);
            self.monitoring = true;
        }
    }

    /// Takes one reading of the execution cursor. The submission completes
    /// when the cursor reaches the final wait id.
    pub fn on_cursor(&mut self, last_executed: u32) -> (p: BlockProgress)
        requires
            old(self).wf(),
            !old(self).finished(),
            old(self).monitoring,
        ensures
            final(self).wf(),
            final(self).urscript == old(self).urscript,
            final(self).first_id == old(self).first_id,
            final(self).block_ids@ == old(self).block_ids@,
            final(self).termination_id == old(self).termination_id,
            final(self).monitoring,
            final(self).last_observed == last_executed,
            p.done == (last_executed >= old(self).monitor.final_wait_id),
            p.done ==> final(self).outcome matches Some(URScriptStatus::Completed),
            !p.done ==> final(self).outcome is None,
            p.started_now@.len() == old(self).block_ids@.len(),
            p.completed_now@.len() == old(self).block_ids@.len(),
            forall|k: int|
                0 <= k < old(self).block_ids@.len() ==> {
                    &&& p.started_now@[k] == (!old(self).monitor.started@[k] && last_executed
                        >= old(self).block_ids@[k])
                    &&& p.completed_now@[k] == (last_executed > old(self).monitor.last_seen
                        && final(self).monitor.started@[k] && !old(self).monitor.completed@[k]
                        && block_completes(
                        old(self).block_ids@,
                        old(self).monitor.final_wait_id,
                        k,
                        last_executed,
                    ))
                },
    {
        let p = self.monitor.observe(last_executed);
        self.last_observed = last_executed;
        if p.done {
            self.outcome = Some(URScriptStatus::Completed);
        }
        p
    }

    /// Ends the submission because a shutdown or an abort was observed.
    pub fn interrupt(&mut self)
        requires
            old(self).wf(),
            !old(self).finished(),
        ensures
            final(self).wf(),
            final(self).urscript == old(self).urscript,
            final(self).first_id == old(self).first_id,
            final(self).termination_id == old(self).termination_id,
            final(self).outcome matches Some(URScriptStatus::Failed(m)) && m@
                == interrupted_message(),
    {
        self.outcome = Some(URScriptStatus::Failed(String::from_str("Interrupted by shutdown signal")));
    }

    /// The submission's outcome, once it has one.
    pub fn result(&self) -> (r: Option<URScriptResult>)
        requires
            self.wf(),
        ensures
            r is Some <==> self.finished(),
            r matches Some(res) ==> {
                &&& res.id == self.first_id
                &&& res.urscript@ == self.urscript@
                &&& res.termination_id == self.termination_id
                &&& Some(res.status) == self.outcome
            },
    {
        match &self.outcome {
            Some(status) => Some(
                URScriptResult {
                    id: self.first_id,
                    urscript: self.urscript.clone(),
                    status: status.duplicate(),
                    termination_id: self.termination_id,
                },
            ),
            None => None,
        }
    }
}

/// A submission reported as completed has the id of its first block and
/// was seen with the execution cursor at or past the sentinel (or, when the
/// sentinel was rejected, past every block).
pub proof fn lemma_completed_run(run: ScriptRun)
    requires
        run.wf(),
        run.outcome matches Some(URScriptStatus::Completed),
    ensures
        run.block_ids@.len() == run.blocks@.len() > 0,
        run.first_id == run.block_ids@[0],
        run.last_observed >= wait_id_of(run.block_ids@, run.termination_id),
        run.termination_id matches Some(t) ==> run.last_observed >= t,
{
}

} // verus!
