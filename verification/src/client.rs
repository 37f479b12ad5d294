//! Client-side computations: what a stored status means to a caller asking
//! for a job's result.

use vstd::prelude::*;
use crate::status::{Status, StatusView};

verus! {

/// Mathematical model of a [`ResultError`].
pub enum ResultErrorView {
    /// The job has not been claimed yet.
    JobQueued,
    /// The job is claimed and its handler is in flight.
    JobRunning,
    /// The job exceeded its timeout budget.
    JobLost,
    /// The job's handler reported an error.
    JobFailed {
        /// Error message.
        message: Seq<char>,
        /// Diagnostic detail.
        backtrace: Seq<char>,
    },
}

/// Why a result is unavailable: the job's non-FINISHED state, so that callers
/// can branch on it.
#[derive(Debug, Clone, PartialEq, Eq)]
pub enum ResultError {
    /// The job has not been claimed yet.
    JobQueued,
    /// The job is claimed and its handler is in flight.
    JobRunning,
    /// The job exceeded its timeout budget.
    JobLost,
    /// The job's handler reported an error.
    JobFailed {
        /// Error message.
        message: String,
        /// Diagnostic detail.
        backtrace: String,
    },
}

impl View for ResultError {
    type V = ResultErrorView;

    open spec fn view(&self) -> ResultErrorView {
        match self {
            ResultError::JobQueued => ResultErrorView::JobQueued,
            ResultError::JobRunning => ResultErrorView::JobRunning,
            ResultError::JobLost => ResultErrorView::JobLost,
            ResultError::JobFailed { message, backtrace } => ResultErrorView::JobFailed {
                message: message@,
                backtrace: backtrace@,
            },
        }
    }
}

/// What `result` returns for each stored status: the stored result, possibly
/// absent, when FINISHED; otherwise the error naming the state.
pub open spec fn result_of_status(st: StatusView) -> Result<
    Option<Seq<char>>,
    ResultErrorView,
> {
    match st {
        StatusView::Finished(p) => Ok(p),
        StatusView::Queued => Err(ResultErrorView::JobQueued),
        StatusView::Running(_) => Err(ResultErrorView::JobRunning),
        StatusView::Lost => Err(ResultErrorView::JobLost),
        StatusView::Failed { message, backtrace } => Err(
            ResultErrorView::JobFailed { message, backtrace },
        ),
    }
}

/// The view of what `classify_result` returned.
pub open spec fn result_view(r: Result<Option<String>, ResultError>) -> Result<
    Option<Seq<char>>,
    ResultErrorView,
> {
    match r {
        Ok(p) => Ok(crate::status::opt_view(p)),
        Err(e) => Err(e@),
    }
}

/// Why no status could be read back.
#[derive(Debug, Clone, PartialEq, Eq)]
pub enum LoadError {
    /// The record is absent: expired, dropped by its own time-to-live, or
    /// never created.
    NotFound,
    /// The stored value is not an encoded record.
    BadRecord,
}

/// What `status` computes from the loaded store value: the stored record's
/// status, `NotFound` exactly when no value was stored, and `BadRecord`
/// exactly when the value does not parse.
pub fn status_of_load(loaded: Option<String>) -> (r: Result<Status, LoadError>)
    ensures
        match loaded {
            None => r == Err::<Status, LoadError>(LoadError::NotFound),
            Some(s) => match crate::codec::dec_job(s@) {
                Some(jv) => r matches Ok(st) && st@ == jv.status,
                None => r == Err::<Status, LoadError>(LoadError::BadRecord),
            },
        },
{
    match loaded {
        None => Err(LoadError::NotFound),
        Some(s) => match crate::codec::decode_job(s.as_str()) {
            Some(job) => Ok(job.status),
            None => Err(LoadError::BadRecord),
        },
    }
}

/// Classify a stored status as a result: `Ok` exactly on FINISHED, and each
/// error exactly on the state it names.
pub fn classify_result(st: Status) -> (r: Result<Option<String>, ResultError>)
    ensures
        result_view(r) == result_of_status(st@),
{
    match st {
        Status::FINISHED(p) => Ok(p),
        Status::QUEUED => Err(ResultError::JobQueued),
        Status::RUNNING(_) => Err(ResultError::JobRunning),
        Status::LOST => Err(ResultError::JobLost),
        Status::FAILED { message, backtrace } => Err(
            ResultError::JobFailed { message, backtrace },
        ),
    }
}

} // verus!
