//! The channel wiring plan: which endpoint each stage's standard input
//! and output are bound to.  A pipeline of `n` stages needs exactly
//! `n - 1` channels, one per adjacent pair; the first stage reads and
//! the last stage writes the inherited terminal streams.

use vstd::prelude::*;

verus! {

/// Where a stage's standard input comes from.
#[derive(Debug, Clone, Copy, PartialEq, Eq, Structural)]
pub enum StdinSource {
    /// The terminal input the interpreter itself inherited.
    Inherit,
    /// The read end of the numbered channel.
    FromChannel(usize),
}

/// Where a stage's standard output goes.
#[derive(Debug, Clone, Copy, PartialEq, Eq, Structural)]
pub enum StdoutSink {
    /// The terminal output the interpreter itself inherited.
    Inherit,
    /// The write end of the numbered channel.
    ToChannel(usize),
}

/// The standard-stream bindings of one stage.  Standard error is always
/// inherited and needs no binding.
#[derive(Debug, Clone, Copy, PartialEq, Eq, Structural)]
pub struct StageWiring {
    pub stdin: StdinSource,
    pub stdout: StdoutSink,
}

/// The binding of stage `i` in a pipeline of `n` stages: every stage
/// but the first reads the channel before it, every stage but the last
/// writes the channel after it.
pub open spec fn wiring_for(i: int, n: int) -> StageWiring {
    StageWiring {
        stdin: if i == 0 {
            StdinSource::Inherit
        } else {
            StdinSource::FromChannel((i - 1) as usize)
        },
        stdout: if i == n - 1 {
            StdoutSink::Inherit
        } else {
            StdoutSink::ToChannel(i as usize)
        },
    }
}

/// How many channels a pipeline of `n` stages needs: one per adjacent
/// stage boundary.
pub open spec fn channels_for(n: int) -> int {
    n - 1
}

/// Executable counterpart of [`channels_for`].
pub fn channel_count(n: usize) -> (c: usize)
    requires
        1 <= n,
    ensures
        c == channels_for(n as int),
{
    n - 1
}

/// The wiring of every stage of an `n`-stage pipeline, in stage order.
pub fn wiring_plan(n: usize) -> (plan: Vec<StageWiring>)
    requires
        1 <= n,
    ensures
        plan@.len() == n,
        forall|i: int| 0 <= i < n ==> #[trigger] plan@[i] == wiring_for(i, n as int),
{
    let mut plan: Vec<StageWiring> = Vec::new();
    let mut i: usize = 0;
    while i < n
        invariant
            i <= n,
            plan@.len() == i,
            forall|k: int| 0 <= k < i ==> #[trigger] plan@[k] == wiring_for(k, n as int),
        decreases n - i,
    {
        let stdin = if i == 0 {
            StdinSource::Inherit
        } else {
            StdinSource::FromChannel(i - 1)
        };
        let stdout = if i == n - 1 {
            StdoutSink::Inherit
        } else {
            StdoutSink::ToChannel(i)
        };
        plan.push(StageWiring { stdin, stdout });
        i = i + 1;
    }
    plan
}

/// Adjacent stages are chained through one channel: stage `i` writes
/// channel `i` and stage `i + 1` reads it, so each endpoint is used by
/// exactly one stage, for every pipeline length the plan allows.
pub proof fn lemma_wiring_chains(n: int, i: int)
    requires
        1 <= n,
        0 <= i < n - 1,
    ensures
        wiring_for(i, n).stdout == StdoutSink::ToChannel(i as usize),
        wiring_for(i + 1, n).stdin == StdinSource::FromChannel(i as usize),
{
}

/// Only the outermost streams touch the terminal: the first stage's
/// input and the last stage's output are inherited, and nothing else.
pub proof fn lemma_wiring_ends(n: int, i: int)
    requires
        1 <= n,
        0 <= i < n,
    ensures
        (wiring_for(i, n).stdin == StdinSource::Inherit) == (i == 0),
        (wiring_for(i, n).stdout == StdoutSink::Inherit) == (i == n - 1),
{
}

} // verus!
