//! The worker core: the per-iteration decisions of the claim / execute /
//! supervise / persist loop.
//!
//! The embedding application owns the outside work — the blocking pop, the
//! store reads and writes, launching the handler as a concurrent task, and
//! the per-poll sleep — and consults this module for every decision: what a
//! claim outcome means, what to do with a loaded record, how each poll of the
//! completion signal changes the record, when a job is reclassified as lost,
//! and whether the loop continues, stops, or fails fatally.

use vstd::prelude::*;
use crate::status::{Status, StatusView};
use crate::job::Job;
use crate::codec::dec_job;

verus! {

/// Default bounded wait of one claim, in seconds.
pub const DEFAULT_WAIT: usize = 10;

/// Default timeout budget of one job, in seconds.
pub const DEFAULT_TIMEOUT: usize = 30;

/// Default polls per second while supervising.
pub const DEFAULT_FREQ: usize = 1;

/// Default expiry of a persisted result, in seconds.
pub const DEFAULT_EXPIRE: usize = 30;

/// The value of an optional setting, or its default.
pub open spec fn opt_or(o: Option<usize>, d: usize) -> usize {
    match o {
        Some(x) => x,
        None => d,
    }
}

/// The value of an optional flag, or its default.
pub open spec fn flag_or(o: Option<bool>, d: bool) -> bool {
    match o {
        Some(b) => b,
        None => d,
    }
}

/// Worker configuration, with every setting filled in.
pub struct WorkerConfig {
    /// Bounded wait of one claim, in seconds.
    pub wait: usize,
    /// Timeout budget of one job, in seconds.
    pub timeout: usize,
    /// Polls per second while supervising.
    pub freq: usize,
    /// Expiry of a persisted result, in seconds.
    pub expire: usize,
    /// Abort the whole loop on a lost job.
    pub fall: bool,
    /// Loop indefinitely rather than process a single claim.
    pub infinite: bool,
}

impl WorkerConfig {
    /// The derived quantities stay within machine bounds.
    pub open spec fn wf(self) -> bool {
        self.timeout * self.freq <= usize::MAX && self.timeout + self.expire <= usize::MAX
    }

    /// Fill optional settings with their defaults.
    pub fn new(
        wait: Option<usize>,
        timeout: Option<usize>,
        freq: Option<usize>,
        expire: Option<usize>,
        fall: Option<bool>,
        infinite: Option<bool>,
    ) -> (c: WorkerConfig)
        requires
            opt_or(timeout, DEFAULT_TIMEOUT) * opt_or(freq, DEFAULT_FREQ)
                <= usize::MAX,
            opt_or(timeout, DEFAULT_TIMEOUT) + opt_or(expire, DEFAULT_EXPIRE)
                <= usize::MAX,
        ensures
            c.wait == opt_or(wait, DEFAULT_WAIT),
            c.timeout == opt_or(timeout, DEFAULT_TIMEOUT),
            c.freq == opt_or(freq, DEFAULT_FREQ),
            c.expire == opt_or(expire, DEFAULT_EXPIRE),
            c.fall == flag_or(fall, true),
            c.infinite == flag_or(infinite, true),
            c.wf(),
    {
        WorkerConfig {
            wait: wait.unwrap_or(DEFAULT_WAIT),
            timeout: timeout.unwrap_or(DEFAULT_TIMEOUT),
            freq: freq.unwrap_or(DEFAULT_FREQ),
            expire: expire.unwrap_or(DEFAULT_EXPIRE),
            fall: fall.unwrap_or(true),
            infinite: infinite.unwrap_or(true),
        }
    }

    /// How many polls of the completion signal one supervision makes.
    pub fn budget(&self) -> (n: usize)
        requires
            self.wf(),
        ensures
            n == self.timeout * self.freq,
    {
        self.timeout * self.freq
    }

    /// The extended expiry a record gets when claimed: the job may still run
    /// for the whole timeout and its result must outlive it.
    pub fn claim_ttl(&self) -> (n: usize)
        requires
            self.wf(),
        ensures
            n == self.timeout + self.expire,
    {
        self.timeout + self.expire
    }
}

/// What a claim attempt decided.
#[derive(Debug, PartialEq, Eq)]
pub enum ClaimDecision {
    /// An id was claimed: load and run it.
    Run(String),
    /// The wait window passed with nothing claimed: try again.
    Retry,
    /// The wait window passed and the loop processes single claims: stop.
    Stop,
}

/// Step 1 of an iteration: what a (possibly empty) claim means.
pub fn claim_decision(popped: Option<String>, infinite: bool) -> (d: ClaimDecision)
    ensures
        match popped {
            Some(id) => d == ClaimDecision::Run(id),
            None => d == if infinite {
                ClaimDecision::Retry
            } else {
                ClaimDecision::Stop
            },
        },
{
    match popped {
        Some(id) => ClaimDecision::Run(id),
        None => if infinite {
            ClaimDecision::Retry
        } else {
            ClaimDecision::Stop
        },
    }
}

/// What loading a claimed id's record decided.
#[derive(Debug, PartialEq, Eq)]
pub enum LoadDecision {
    /// The record was loaded: run it.
    Run(Job),
    /// The record is gone (expired before the claim was processed): a missed
    /// claim, handled like an empty claim.
    Missed,
    /// The stored value is not a record: a store failure, which aborts the
    /// loop.
    Fail,
}

/// Step 2 of an iteration: what the loaded store value means.
pub fn load_decision(loaded: Option<String>) -> (d: LoadDecision)
    ensures
        match loaded {
            None => d == LoadDecision::Missed,
            Some(s) => match dec_job(s@) {
                Some(jv) => d matches LoadDecision::Run(j) && j@ == jv,
                None => d == LoadDecision::Fail,
            },
        },
{
    match loaded {
        None => LoadDecision::Missed,
        Some(s) => match crate::codec::decode_job(s.as_str()) {
            Some(j) => LoadDecision::Run(j),
            None => LoadDecision::Fail,
        },
    }
}

/// Step 3: the one transition out of QUEUED the state machine allows — the
/// claimed record becomes RUNNING with no partial result.
pub fn next_on_claim(job: &mut Job)
    ensures
        final(job)@.id == old(job)@.id,
        final(job)@.args == old(job)@.args,
        final(job)@.status == StatusView::Running(None::<Seq<char>>),
{
    job.status = Status::RUNNING(None);
}

/// What one poll of the completion signal observed, as the record's status:
/// the reported outcome, or still RUNNING when nothing was reported yet.
pub open spec fn observed(received: Option<StatusView>) -> StatusView {
    match received {
        Some(st) => st,
        None => StatusView::Running(None),
    }
}

/// The view of a received completion signal.
pub open spec fn recv_view(received: Option<Status>) -> Option<StatusView> {
    match received {
        Some(st) => Some(st@),
        None => None,
    }
}

/// Step 5, one poll: take what the completion signal offered; supervision is
/// done as soon as the status is no longer RUNNING.
pub fn poll_step(job: &mut Job, received: Option<Status>) -> (done: bool)
    ensures
        final(job)@.id == old(job)@.id,
        final(job)@.args == old(job)@.args,
        final(job)@.status == observed(recv_view(received)),
        done == !observed(recv_view(received)).is_running(),
{
    job.status = match received {
        Some(st) => st,
        None => Status::RUNNING(None),
    };
    !job.status.is_running()
}

/// Step 5, after the poll budget: a job still RUNNING is reclassified LOST.
pub fn reclassify_lost(job: &mut Job)
    ensures
        final(job)@.id == old(job)@.id,
        final(job)@.args == old(job)@.args,
        final(job)@.status == if old(job)@.status.is_running() {
            StatusView::Lost
        } else {
            old(job)@.status
        },
{
    if job.status.is_running() {
        job.status = Status::LOST;
    }
}

/// What the loop does after persisting a terminal record.
#[derive(Debug, PartialEq, Eq)]
pub enum LoopControl {
    /// The job was lost and losses are fatal: the loop fails.
    FatalLost,
    /// Single-claim mode: the loop returns successfully.
    Stop,
    /// Claim the next job.
    Continue,
}

/// Steps 7 and 8: a lost job is fatal when so configured; otherwise the loop
/// stops after a single claim or continues.
pub fn after_persist(job: &Job, fall: bool, infinite: bool) -> (c: LoopControl)
    ensures
        c == if fall && job@.status is Lost {
            LoopControl::FatalLost
        } else if !infinite {
            LoopControl::Stop
        } else {
            LoopControl::Continue
        },
{
    let lost = match job.status {
        Status::LOST => true,
        _ => false,
    };
    if fall && lost {
        LoopControl::FatalLost
    } else if !infinite {
        LoopControl::Stop
    } else {
        LoopControl::Continue
    }
}

// ---------------------------------------------------------------------------
// Supervision as a whole: the status that a sequence of polls leaves behind
// ---------------------------------------------------------------------------

/// The status after a sequence of polls, before reclassification: the first
/// outcome the completion signal reported, or what the last poll observed.
pub open spec fn supervise(obs: Seq<Option<StatusView>>) -> StatusView
    decreases obs.len(),
{
    if obs.len() == 0 {
        StatusView::Running(None)
    } else if observed(obs[0]).is_running() {
        supervise(obs.drop_first())
    } else {
        observed(obs[0])
    }
}

/// The status one whole supervision persists: the polls' outcome, with a job
/// still RUNNING reclassified as LOST.
pub open spec fn supervise_outcome(obs: Seq<Option<StatusView>>) -> StatusView {
    if supervise(obs).is_running() {
        StatusView::Lost
    } else {
        supervise(obs)
    }
}

/// A handler outcome reported at the first poll is the outcome persisted,
/// whatever follows.
pub proof fn lemma_supervise_immediate(obs: Seq<Option<StatusView>>, st: StatusView)
    requires
        obs.len() > 0,
        obs[0] == Some(st),
        !st.is_running(),
    ensures
        supervise_outcome(obs) == st,
{
}

/// The first outcome the completion signal reports is the one persisted:
/// whatever later polls might have observed is never written back.
pub proof fn lemma_supervise_first_outcome(obs: Seq<Option<StatusView>>, k: int)
    requires
        0 <= k < obs.len(),
        forall|i: int| 0 <= i < k ==> (#[trigger] observed(obs[i])).is_running(),
        !observed(obs[k]).is_running(),
    ensures
        supervise_outcome(obs) == observed(obs[k]),
    decreases k,
{
    if k > 0 {
        lemma_supervise_first_outcome(obs.drop_first(), k - 1);
    }
}

/// A handler that never signals completion leaves LOST behind, however long
/// the poll budget was.
pub proof fn lemma_supervise_silent(obs: Seq<Option<StatusView>>)
    requires
        forall|i: int| 0 <= i < obs.len() ==> obs[i] is None,
    ensures
        supervise_outcome(obs) == StatusView::Lost,
    decreases obs.len(),
{
    if obs.len() > 0 {
        lemma_supervise_silent(obs.drop_first());
    }
}

/// Supervision never leaves a RUNNING record behind: what is persisted after
/// the polls is terminal.
pub proof fn lemma_supervise_terminal(obs: Seq<Option<StatusView>>)
    requires
        forall|i: int| 0 <= i < obs.len() ==> !(#[trigger] observed(obs[i]) is Queued),
    ensures
        supervise_outcome(obs).is_terminal(),
    decreases obs.len(),
{
    if obs.len() > 0 && observed(obs[0]).is_running() {
        lemma_supervise_terminal(obs.drop_first());
    }
}

} // verus!
