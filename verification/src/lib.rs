//! A job queue backed by a shared key-value store.
//!
//! Producers enqueue units of work identified by a unique id and a list of
//! string arguments; workers claim jobs in FIFO order, run a handler under a
//! wall-clock timeout, and persist the outcome; producers poll for status and
//! result. The store itself (get / set-with-expiry / delete / right-push /
//! blocking-left-pop) is an external collaborator reached by the embedding
//! application: this crate holds the data model, the record codec, the
//! worker's decision logic and the client-side computations, all verified.

use vstd::prelude::*;

pub mod status;
pub mod job;
pub mod codec;
pub mod client;
pub mod worker;
pub mod model;

pub use status::Status;
pub use job::Job;

verus! {

/// The key under which a record is stored: `{queue name}:{job id}`.
pub open spec fn record_key_spec(name: Seq<char>, id: Seq<char>) -> Seq<char> {
    name + seq![':'] + id
}

/// The key of the pending-id list: `{queue name}:ids`.
pub open spec fn ids_key_spec(name: Seq<char>) -> Seq<char> {
    name + seq![':', 'i', 'd', 's']
}

/// A named queue on a store reachable at `url`.
pub struct Queue {
    /// Store address, handed to the embedding application's store client.
    pub url: String,
    /// Queue name; prefixes every key the queue touches.
    pub name: String,
}

impl Queue {
    /// Init new queue object.
    ///
    /// `url` - store address to connect to.
    ///
    /// `name` - queue name.
    pub fn new(url: &str, name: &str) -> (q: Queue)
        ensures
            q.url@ == url@,
            q.name@ == name@,
    {
        Queue { url: url.to_owned(), name: name.to_owned() }
    }

    /// The store key of the record of job `id` in this queue.
    pub fn record_key(&self, id: &str) -> (k: String)
        ensures
            k@ == record_key_spec(self.name@, id@),
    {
        let mut k = self.name.clone();
        k.append(":");
        k.append(id);
        proof {
            reveal_strlit(":");
            assert(k@ =~= record_key_spec(self.name@, id@));
        }
        k
    }

    /// The store key of this queue's pending-id list.
    pub fn ids_key(&self) -> (k: String)
        ensures
            k@ == ids_key_spec(self.name@),
    {
        let mut k = self.name.clone();
        k.append(":ids");
        proof {
            reveal_strlit(":ids");
            assert(k@ =~= ids_key_spec(self.name@));
        }
        k
    }

    /// Everything one enqueue writes: the new QUEUED record, the key and
    /// encoded value to store under the caller's expiry, and the pending
    /// list key onto which the id is then pushed — the two writes of
    /// [`crate::model::enqueue_model`], in that order.
    pub fn enqueue_plan(&self, id: Option<String>, args: Vec<String>) -> (p: EnqueuePlan)
        ensures
            p.job@.status == crate::status::StatusView::Queued,
            p.job@.args == args.deep_view(),
            id matches Some(s) ==> p.job@.id == s@,
            id is None ==> p.job@.id.len() == 36,
            p.record_key@ == record_key_spec(self.name@, p.job@.id),
            p.record_value@ == crate::codec::enc_job(p.job@),
            p.ids_key@ == ids_key_spec(self.name@),
    {
        let job = Job::new(id, args);
        let record_key = self.record_key(job.id.as_str());
        let record_value = crate::codec::encode_job(&job);
        let ids_key = self.ids_key();
        EnqueuePlan { job, record_key, record_value, ids_key }
    }
}

/// The writes one enqueue makes, computed up front.
pub struct EnqueuePlan {
    /// The new record, QUEUED.
    pub job: Job,
    /// The store key of the record.
    pub record_key: String,
    /// The encoded record to store under that key.
    pub record_value: String,
    /// The pending-list key onto which the job's id is pushed.
    pub ids_key: String,
}

} // verus!
