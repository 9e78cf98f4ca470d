//! The spawn-and-supervise state machine.  The engine decides, one step
//! at a time, what the front end must do to a pipeline run: spawn the
//! next stage, reap the next spawned stage, abort after a failed spawn,
//! or assemble the final report.  The front end performs the process
//! and descriptor operations and reports each outcome back.

use vstd::prelude::*;

verus! {

/// Final status of one stage, as the engine records it.
#[derive(Debug, Clone, Copy, PartialEq, Eq, Structural)]
pub enum StageStatus {
    /// Normal exit with the given code.
    Exited(i32),
    /// Terminated by a signal, so there is no exit code.
    Signaled,
    /// The wait itself failed; the stage could not be reaped.
    WaitFailed,
}

/// Per-stage outcome of a pipeline run in which every stage spawned.
#[derive(Debug)]
pub struct ExitReport {
    /// One status per stage, in stage order.
    pub stages: Vec<StageStatus>,
}

/// Why a pipeline run ended without a report.
#[derive(Debug)]
pub enum ExecError {
    /// The numbered stage failed to spawn; `cause` is the OS
    /// diagnostic.  Every earlier stage was killed and reaped.
    SpawnFailed { stage: usize, cause: String },
    /// A channel could not be allocated, before any stage spawned.
    ChannelFailed { cause: String },
}

/// The next operation the front end must perform for the engine.
#[derive(Debug, Clone, Copy, PartialEq, Eq, Structural)]
pub enum Action {
    /// Spawn the numbered stage with its planned wiring, then report
    /// the outcome through `record_spawn_ok` or `record_spawn_failure`.
    Spawn { stage: usize },
    /// Reap (blocking wait) the numbered stage, then report its status
    /// through `record_status`.
    Wait { stage: usize },
    /// A spawn failed: kill and reap exactly the stages `0 .. failed`,
    /// close every channel endpoint still held, and report the failed
    /// stage to the caller.
    Abort { failed: usize },
    /// Every stage has a status: assemble the report.
    Report,
}

/// Supervises one run of an `n`-stage pipeline: all stages are spawned
/// in order, then all are reaped in order; a failed spawn aborts the
/// remaining stages and dooms the already-spawned ones to the cleanup
/// path.  Nothing is waited for before every stage has spawned, and
/// every spawned stage is reaped exactly once.
pub struct Supervisor {
    /// Number of stages in the pipeline.
    pub stage_count: usize,
    /// How many stages have spawned successfully so far.
    pub spawned: usize,
    /// Whether a spawn has failed.
    pub failed: bool,
    /// Statuses recorded so far, one per reaped stage, in stage order.
    pub statuses: Vec<StageStatus>,
}

impl Supervisor {
    /// The supervisor is always in exactly one of three phases:
    /// spawning, aborted after a failed spawn, or reaping with every
    /// stage spawned.
    pub open spec fn wf(&self) -> bool {
        &&& 1 <= self.stage_count
        &&& self.spawned <= self.stage_count
        &&& self.failed ==> self.spawned < self.stage_count
        &&& self.statuses@.len() <= self.stage_count
        &&& self.statuses@.len() > 0 ==> self.spawned == self.stage_count && !self.failed
    }

    /// What the front end must do next in the current state.
    pub open spec fn action_spec(&self) -> Action {
        if self.failed {
            Action::Abort { failed: self.spawned }
        } else if self.spawned < self.stage_count {
            Action::Spawn { stage: self.spawned }
        } else if self.statuses@.len() < self.stage_count {
            Action::Wait { stage: self.statuses@.len() as usize }
        } else {
            Action::Report
        }
    }

    /// A fresh supervisor for a pipeline of `stage_count` stages.
    pub fn new(stage_count: usize) -> (s: Self)
        requires
            1 <= stage_count,
        ensures
            s.wf(),
            s.stage_count == stage_count,
            s.spawned == 0,
            !s.failed,
            s.statuses@.len() == 0,
            s.action_spec() == (Action::Spawn { stage: 0usize }),
    {
        Supervisor { stage_count, spawned: 0, failed: false, statuses: Vec::new() }
    }

    /// The next operation for the front end.
    pub fn next_action(&self) -> (a: Action)
        requires
            self.wf(),
        ensures
            a == self.action_spec(),
    {
        if self.failed {
            Action::Abort { failed: self.spawned }
        } else if self.spawned < self.stage_count {
            Action::Spawn { stage: self.spawned }
        } else if self.statuses.len() < self.stage_count {
            Action::Wait { stage: self.statuses.len() }
        } else {
            Action::Report
        }
    }

    /// Records that the requested stage spawned.  Returns the channel
    /// whose endpoints the front end must close now: once stage `i`
    /// holds its ends, channel `i - 1` has been handed to both of its
    /// stages, and the engine's own duplicates must go, or the
    /// downstream reader would never see end-of-file.
    pub fn record_spawn_ok(&mut self) -> (close: Option<usize>)
        requires
            old(self).wf(),
            old(self).action_spec() is Spawn,
        ensures
            final(self).wf(),
            final(self).stage_count == old(self).stage_count,
            final(self).spawned == old(self).spawned + 1,
            !final(self).failed,
            final(self).statuses == old(self).statuses,
            close == (if old(self).spawned >= 1 {
                Some((old(self).spawned - 1) as usize)
            } else {
                None::<usize>
            }),
    {
        let close = if self.spawned >= 1 {
            Some(self.spawned - 1)
        } else {
            None
        };
        self.spawned = self.spawned + 1;
        close
    }

    /// Records that the requested stage failed to spawn.  The next
    /// action is the abort: the spawn failure leaves exactly the stages
    /// `0 .. spawned` alive, and they are the ones the cleanup path
    /// kills and reaps.
    pub fn record_spawn_failure(&mut self)
        requires
            old(self).wf(),
            old(self).action_spec() is Spawn,
        ensures
            final(self).wf(),
            final(self).stage_count == old(self).stage_count,
            final(self).spawned == old(self).spawned,
            final(self).failed,
            final(self).statuses == old(self).statuses,
            final(self).action_spec() == (Action::Abort { failed: old(self).spawned }),
    {
        self.failed = true;
    }

    /// Records the status of the stage the engine asked to reap.  A
    /// failed wait is recorded like any other status and never stops
    /// the remaining stages from being reaped.
    pub fn record_status(&mut self, status: StageStatus)
        requires
            old(self).wf(),
            old(self).action_spec() is Wait,
        ensures
            final(self).wf(),
            final(self).stage_count == old(self).stage_count,
            final(self).spawned == old(self).spawned,
            !final(self).failed,
            final(self).statuses@ == old(self).statuses@.push(status),
    {
        self.statuses.push(status);
    }

    /// Assembles the report once every stage has a status.
    pub fn report(self) -> (r: ExitReport)
        requires
            self.wf(),
            self.action_spec() is Report,
        ensures
            r.stages@.len() == self.stage_count,
            r.stages@ == self.statuses@,
    {
        ExitReport { stages: self.statuses }
    }
}

/// The stages the failure-cleanup path must kill and reap after a spawn
/// failure at stage `failed`: every already-spawned stage, each exactly
/// once, in spawn order — no process is left unreaped.
pub fn cleanup_targets(failed: usize) -> (v: Vec<usize>)
    ensures
        v@.len() == failed,
        forall|k: int| 0 <= k < failed ==> #[trigger] v@[k] == k,
{
    let mut v: Vec<usize> = Vec::new();
    let mut i: usize = 0;
    while i < failed
        invariant
            i <= failed,
            v@.len() == i,
            forall|k: int| 0 <= k < i ==> #[trigger] v@[k] == k,
        decreases failed - i,
    {
        v.push(i);
        i = i + 1;
    }
    v
}

} // verus!
