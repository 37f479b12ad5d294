//! The persisted unit of work: id, lifecycle status, and handler arguments.

use vstd::prelude::*;
use crate::status::{Status, StatusView};

verus! {

/// Mathematical model of a [`Job`] record.
pub struct JobView {
    /// Unique identifier.
    pub id: Seq<char>,
    /// Lifecycle state.
    pub status: StatusView,
    /// Arguments passed verbatim to the handler.
    pub args: Seq<Seq<char>>,
}

/// A job record: the persisted unit of work.
#[derive(Debug, Clone, PartialEq, Eq)]
pub struct Job {
    /// Unique identifier; immutable after creation.
    pub id: String,
    /// Lifecycle state.
    pub status: Status,
    /// Arguments passed verbatim to the handler.
    pub args: Vec<String>,
}

impl View for Job {
    type V = JobView;

    open spec fn view(&self) -> JobView {
        JobView { id: self.id@, status: self.status@, args: self.args.deep_view() }
    }
}

/// Relies on `uuid::Uuid::new_v4` and its `Display` form: a random version-4
/// UUID rendered hyphenated, which is 36 characters long. The value depends on
/// the operating system's randomness, so nothing more is stated of it.
#[verifier::external_body]
fn fresh_id() -> (r: String)
    ensures
        r@.len() == 36,
{
    uuid::Uuid::new_v4().to_string()
}

impl Job {
    /// Create a new QUEUED record; an id is generated when none is supplied.
    pub fn new(id: Option<String>, args: Vec<String>) -> (j: Job)
        ensures
            j@.status == StatusView::Queued,
            j@.args == args.deep_view(),
            id matches Some(s) ==> j@.id == s@,
            id is None ==> j@.id.len() == 36,
    {
        let chosen = match id {
            Some(s) => s,
            None => fresh_id(),
        };
        Job { id: chosen, status: Status::QUEUED, args }
    }
}

} // verus!
