//! The store as the queue assumes it, and the queue's laws proved over it.
//!
//! The key-value store is an external collaborator whose per-key operations
//! are atomic. This module models the slice of it one queue touches — the
//! record under each key, and the pending-id list — and proves, over that
//! model, what the client and worker operations leave behind: a fresh
//! enqueue is QUEUED and pending exactly once; reads change nothing; one
//! worker iteration persists the handler's outcome; claims come out in FIFO
//! order; dropping the queue clears the pending list and no record.
//!
//! Time-to-live expiry removes keys on the store's own clock; it appears
//! here only as a record's absence.

use vstd::prelude::*;
use crate::status::StatusView;
use crate::job::JobView;
use crate::codec::{enc_job, dec_job, lemma_dec_enc_job};
use crate::client::{result_of_status, ResultErrorView};
use crate::worker::{supervise_outcome, lemma_supervise_immediate, lemma_supervise_silent};
use crate::record_key_spec;

verus! {

/// The store as one queue sees it: record values by key, and the queue's
/// pending-id list, FIFO.
pub struct StoreModel {
    /// The value under each live key.
    pub records: Map<Seq<char>, Seq<char>>,
    /// The pending-id list: right-pushed by enqueue, left-popped by claims.
    pub pending: Seq<Seq<char>>,
}

/// `setWithExpiry`: the key now holds this value.
pub open spec fn set_record(s: StoreModel, key: Seq<char>, val: Seq<char>) -> StoreModel {
    StoreModel { records: s.records.insert(key, val), pending: s.pending }
}

/// `rightPush` of an id onto the pending list.
pub open spec fn rpush_id(s: StoreModel, id: Seq<char>) -> StoreModel {
    StoreModel { records: s.records, pending: s.pending.push(id) }
}

/// `blockingLeftPop` of the pending list: the oldest id, if any.
pub open spec fn lpop_id(s: StoreModel) -> (StoreModel, Option<Seq<char>>) {
    if s.pending.len() == 0 {
        (s, None)
    } else {
        (StoreModel { records: s.records, pending: s.pending.drop_first() }, Some(s.pending[0]))
    }
}

/// `delete` of the pending list: what `drop` does, and all it does.
pub open spec fn clear_pending(s: StoreModel) -> StoreModel {
    StoreModel { records: s.records, pending: Seq::empty() }
}

// ---------------------------------------------------------------------------
// The client's operations over the model
// ---------------------------------------------------------------------------

/// What `enqueue` writes: the record under its key, and the id onto the
/// pending list.
pub open spec fn enqueue_model(s: StoreModel, name: Seq<char>, j: JobView) -> StoreModel {
    rpush_id(set_record(s, record_key_spec(name, j.id), enc_job(j)), j.id)
}

/// What `status` reads: the stored record's status, if a record is stored
/// and parses.
pub open spec fn status_model(s: StoreModel, name: Seq<char>, id: Seq<char>) -> Option<
    StatusView,
> {
    if s.records.contains_key(record_key_spec(name, id)) {
        match dec_job(s.records[record_key_spec(name, id)]) {
            Some(j) => Some(j.status),
            None => None,
        }
    } else {
        None
    }
}

/// What `result` reads: the stored status, classified.
pub open spec fn result_model(s: StoreModel, name: Seq<char>, id: Seq<char>) -> Option<
    Result<Option<Seq<char>>, ResultErrorView>,
> {
    match status_model(s, name, id) {
        Some(st) => Some(result_of_status(st)),
        None => None,
    }
}

// ---------------------------------------------------------------------------
// One worker iteration over the model
// ---------------------------------------------------------------------------

/// One claim / load / supervise / persist cycle, given what each poll of the
/// completion signal observed. A missed claim or an unreadable record leaves
/// the records as they were; the pop itself always consumes the claimed id.
pub open spec fn iteration_model(
    s: StoreModel,
    name: Seq<char>,
    obs: Seq<Option<StatusView>>,
) -> StoreModel {
    let (s1, popped) = lpop_id(s);
    match popped {
        None => s1,
        Some(id) => {
            let key = record_key_spec(name, id);
            if !s1.records.contains_key(key) {
                s1
            } else {
                match dec_job(s1.records[key]) {
                    None => s1,
                    Some(j) => {
                        let running = JobView {
                            id: j.id,
                            status: StatusView::Running(None),
                            args: j.args,
                        };
                        let s2 = set_record(s1, key, enc_job(running));
                        let done = JobView {
                            id: j.id,
                            status: supervise_outcome(obs),
                            args: j.args,
                        };
                        set_record(s2, key, enc_job(done))
                    },
                }
            }
        },
    }
}

// ---------------------------------------------------------------------------
// The queue's laws
// ---------------------------------------------------------------------------

/// After a fresh enqueue the job reads back QUEUED, and its id stands in the
/// pending list exactly once more than before — exactly once, when it was
/// not pending already.
pub proof fn lemma_enqueue_queued(s: StoreModel, name: Seq<char>, j: JobView)
    requires
        j.status == StatusView::Queued,
    ensures
        status_model(enqueue_model(s, name, j), name, j.id) == Some(StatusView::Queued),
        enqueue_model(s, name, j).pending.to_multiset().count(j.id) == s.pending.to_multiset()
            .count(j.id) + 1,
        !s.pending.contains(j.id) ==> enqueue_model(s, name, j).pending.to_multiset().count(j.id)
            == 1,
{
    broadcast use vstd::seq_lib::group_to_multiset_ensures;

    lemma_dec_enc_job(j);
}

/// `status` and `result` read and do not write: repeated calls against the
/// same store return the same value, so polling without an intervening
/// worker claim is idempotent.
pub proof fn lemma_read_idempotent(s: StoreModel, name: Seq<char>, id: Seq<char>)
    ensures
        status_model(s, name, id) == status_model(s, name, id),
        result_model(s, name, id) == result_model(s, name, id),
{
}

/// A handler outcome reported at the first poll is what one iteration leaves
/// behind: the job claimed at the head of the pending list reads back with
/// that outcome, and `result` classifies it.
pub proof fn lemma_iteration_outcome(
    s: StoreModel,
    name: Seq<char>,
    j: JobView,
    obs: Seq<Option<StatusView>>,
    st: StatusView,
)
    requires
        s.pending.len() > 0,
        s.pending[0] == j.id,
        s.records.contains_key(record_key_spec(name, j.id)),
        s.records[record_key_spec(name, j.id)] == enc_job(j),
        obs.len() > 0,
        obs[0] == Some(st),
        !st.is_running(),
    ensures
        status_model(iteration_model(s, name, obs), name, j.id) == Some(st),
        result_model(iteration_model(s, name, obs), name, j.id) == Some(result_of_status(st)),
{
    lemma_dec_enc_job(j);
    lemma_supervise_immediate(obs, st);
    let done = JobView { id: j.id, status: st, args: j.args };
    lemma_dec_enc_job(done);
}

/// A handler that returns success at once leaves FINISHED behind, and
/// `result` returns its payload.
pub proof fn lemma_iteration_finished(
    s: StoreModel,
    name: Seq<char>,
    j: JobView,
    obs: Seq<Option<StatusView>>,
    payload: Option<Seq<char>>,
)
    requires
        s.pending.len() > 0,
        s.pending[0] == j.id,
        s.records.contains_key(record_key_spec(name, j.id)),
        s.records[record_key_spec(name, j.id)] == enc_job(j),
        obs.len() > 0,
        obs[0] == Some(StatusView::Finished(payload)),
    ensures
        status_model(iteration_model(s, name, obs), name, j.id) == Some(
            StatusView::Finished(payload),
        ),
        result_model(iteration_model(s, name, obs), name, j.id) == Some(
            Ok::<Option<Seq<char>>, ResultErrorView>(payload),
        ),
{
    lemma_iteration_outcome(s, name, j, obs, StatusView::Finished(payload));
}

/// A handler that reports an error leaves FAILED behind, and `result` fails
/// with the handler's message.
pub proof fn lemma_iteration_failed(
    s: StoreModel,
    name: Seq<char>,
    j: JobView,
    obs: Seq<Option<StatusView>>,
    message: Seq<char>,
    backtrace: Seq<char>,
)
    requires
        s.pending.len() > 0,
        s.pending[0] == j.id,
        s.records.contains_key(record_key_spec(name, j.id)),
        s.records[record_key_spec(name, j.id)] == enc_job(j),
        obs.len() > 0,
        obs[0] == Some(StatusView::Failed { message, backtrace }),
    ensures
        status_model(iteration_model(s, name, obs), name, j.id) == Some(
            StatusView::Failed { message, backtrace },
        ),
        result_model(iteration_model(s, name, obs), name, j.id) == Some(
            Err::<Option<Seq<char>>, ResultErrorView>(
                ResultErrorView::JobFailed { message, backtrace },
            ),
        ),
{
    lemma_iteration_outcome(s, name, j, obs, StatusView::Failed { message, backtrace });
}

/// A handler that never signals completion leaves LOST behind, however many
/// polls the budget allowed.
pub proof fn lemma_iteration_lost(
    s: StoreModel,
    name: Seq<char>,
    j: JobView,
    obs: Seq<Option<StatusView>>,
)
    requires
        s.pending.len() > 0,
        s.pending[0] == j.id,
        s.records.contains_key(record_key_spec(name, j.id)),
        s.records[record_key_spec(name, j.id)] == enc_job(j),
        forall|i: int| 0 <= i < obs.len() ==> obs[i] is None,
    ensures
        status_model(iteration_model(s, name, obs), name, j.id) == Some(StatusView::Lost),
        result_model(iteration_model(s, name, obs), name, j.id) == Some(
            Err::<Option<Seq<char>>, ResultErrorView>(ResultErrorView::JobLost),
        ),
{
    lemma_dec_enc_job(j);
    lemma_supervise_silent(obs);
    let done = JobView { id: j.id, status: StatusView::Lost, args: j.args };
    lemma_dec_enc_job(done);
}

/// Within one queue, distinct ids are stored under distinct keys.
pub proof fn lemma_record_key_injective(name: Seq<char>, a: Seq<char>, b: Seq<char>)
    requires
        record_key_spec(name, a) == record_key_spec(name, b),
    ensures
        a == b,
{
    let ka = record_key_spec(name, a);
    let kb = record_key_spec(name, b);
    assert(ka.len() == name.len() + 1 + a.len());
    assert(kb.len() == name.len() + 1 + b.len());
    assert(a.len() == b.len());
    assert forall|i: int| 0 <= i < a.len() implies a[i] == b[i] by {
        assert(ka[name.len() + 1 + i] == a[i]);
        assert(kb[name.len() + 1 + i] == b[i]);
    }
    assert(a =~= b);
}

/// The single-writer discipline: one iteration writes only the record of the
/// job it claimed; every other job's status reads back unchanged.
pub proof fn lemma_iteration_preserves_others(
    s: StoreModel,
    name: Seq<char>,
    obs: Seq<Option<StatusView>>,
    other: Seq<char>,
)
    requires
        s.pending.len() > 0 ==> other != s.pending[0],
    ensures
        status_model(iteration_model(s, name, obs), name, other) == status_model(s, name, other),
{
    if s.pending.len() > 0 {
        let claimed = s.pending[0];
        if record_key_spec(name, other) == record_key_spec(name, claimed) {
            lemma_record_key_injective(name, other, claimed);
        }
    }
}

/// The worker never leaves a claimed job in a non-terminal state: when every
/// poll observation is a handler outcome or silence, the record persisted for
/// the claimed id — if one was loaded — is terminal.
pub proof fn lemma_iteration_persists_terminal(
    s: StoreModel,
    name: Seq<char>,
    j: JobView,
    obs: Seq<Option<StatusView>>,
)
    requires
        s.pending.len() > 0,
        s.pending[0] == j.id,
        s.records.contains_key(record_key_spec(name, j.id)),
        s.records[record_key_spec(name, j.id)] == enc_job(j),
        forall|i: int| 0 <= i < obs.len() ==> !((#[trigger] crate::worker::observed(obs[i]))
            is Queued),
    ensures
        status_model(iteration_model(s, name, obs), name, j.id) matches Some(st)
            && st.is_terminal(),
{
    lemma_dec_enc_job(j);
    crate::worker::lemma_supervise_terminal(obs);
    let done = JobView { id: j.id, status: supervise_outcome(obs), args: j.args };
    lemma_dec_enc_job(done);
}

/// Every iteration that claims consumes exactly the head of the pending
/// list, whatever else it decides: claims make FIFO progress.
pub proof fn lemma_iteration_consumes_head(
    s: StoreModel,
    name: Seq<char>,
    obs: Seq<Option<StatusView>>,
)
    requires
        s.pending.len() > 0,
    ensures
        iteration_model(s, name, obs).pending == s.pending.drop_first(),
{
}

/// Claims come out in the order enqueued: after enqueueing A then B onto an
/// empty pending list, the first claim pops A and the second pops B.
pub proof fn lemma_claim_fifo(s: StoreModel, name: Seq<char>, ja: JobView, jb: JobView)
    requires
        s.pending.len() == 0,
    ensures
        ({
            let s2 = enqueue_model(enqueue_model(s, name, ja), name, jb);
            let (s3, first) = lpop_id(s2);
            let (s4, second) = lpop_id(s3);
            first == Some(ja.id) && second == Some(jb.id) && s4.pending.len() == 0
        }),
{
    let s2 = enqueue_model(enqueue_model(s, name, ja), name, jb);
    assert(s2.pending =~= seq![ja.id, jb.id]);
    assert(s2.pending.drop_first() =~= seq![jb.id]);
    assert(seq![jb.id].drop_first() =~= Seq::<Seq<char>>::empty());
}

/// `drop` clears the pending list and touches no record: every stored record
/// remains queryable, with the status it had.
pub proof fn lemma_drop_keeps_records(s: StoreModel, name: Seq<char>, id: Seq<char>)
    ensures
        clear_pending(s).pending.len() == 0,
        status_model(clear_pending(s), name, id) == status_model(s, name, id),
        result_model(clear_pending(s), name, id) == result_model(s, name, id),
{
}

} // verus!
