//! Job status: the states a job record moves through, and the predicates the
//! worker's loop-control decisions are made from.

use vstd::prelude::*;

verus! {

/// Mathematical model of a [`Status`] value: payload strings as `Seq<char>`.
pub enum StatusView {
    /// Waiting to be claimed.
    Queued,
    /// Claimed, handler in flight; optional partial result.
    Running(Option<Seq<char>>),
    /// The handler did not report completion before the timeout.
    Lost,
    /// The handler completed without error; optional result string.
    Finished(Option<Seq<char>>),
    /// The handler reported an error.
    Failed {
        /// Error message.
        message: Seq<char>,
        /// Diagnostic detail.
        backtrace: Seq<char>,
    },
}

impl StatusView {
    /// Loop control ignores the payload: "is still RUNNING?".
    pub open spec fn is_running(self) -> bool {
        self matches StatusView::Running(_)
    }

    /// FINISHED, FAILED and LOST are terminal: no transition leaves them.
    pub open spec fn is_terminal(self) -> bool {
        match self {
            StatusView::Lost => true,
            StatusView::Finished(_) => true,
            StatusView::Failed { .. } => true,
            _ => false,
        }
    }
}

/// Job status.
#[derive(Debug, Clone, PartialEq, Eq)]
pub enum Status {
    /// Job is queued, waiting to be claimed.
    QUEUED,
    /// Job is claimed, handler in flight; carries an optional partial result.
    RUNNING(Option<String>),
    /// Job was lost: the timeout was exceeded before completion was reported.
    LOST,
    /// Job finished successfully, with an optional result string.
    FINISHED(Option<String>),
    /// Job failed.
    FAILED {
        /// Error message.
        message: String,
        /// Error backtrace.
        backtrace: String,
    },
}

/// The view of an optional payload string.
pub open spec fn opt_view(o: Option<String>) -> Option<Seq<char>> {
    match o {
        Some(s) => Some(s@),
        None => None,
    }
}

impl View for Status {
    type V = StatusView;

    open spec fn view(&self) -> StatusView {
        match self {
            Status::QUEUED => StatusView::Queued,
            Status::RUNNING(p) => StatusView::Running(opt_view(*p)),
            Status::LOST => StatusView::Lost,
            Status::FINISHED(p) => StatusView::Finished(opt_view(*p)),
            Status::FAILED { message, backtrace } => StatusView::Failed {
                message: message@,
                backtrace: backtrace@,
            },
        }
    }
}

impl Status {
    /// Whether the job is still running, ignoring any partial payload.
    pub fn is_running(&self) -> (r: bool)
        ensures
            r == self@.is_running(),
    {
        match self {
            Status::RUNNING(_) => true,
            _ => false,
        }
    }

    /// Whether the job has reached a terminal state.
    pub fn is_terminal(&self) -> (r: bool)
        ensures
            r == self@.is_terminal(),
    {
        match self {
            Status::LOST => true,
            Status::FINISHED(_) => true,
            Status::FAILED { .. } => true,
            _ => false,
        }
    }
}

} // verus!
