//! The laws the ledger obeys, stated and proved once for every state that
//! the operations can reach. Each operation's contract ends in `wf`, so what
//! holds of every well-formed state holds after any sequence of operations.

use vstd::prelude::*;
use crate::records::JobView;
use crate::contract::Contract;
use crate::store::{has_id, idx_of};

verus! {

/// Density: in every well-formed state `total_jobs` equals the number of
/// live jobs, so the ordinal store's occupied positions — position `p`
/// holds the record `c.all_jobs@[p - 1]` — are exactly `1..=total_jobs`,
/// with no gaps.
pub proof fn lemma_store_dense(c: Contract)
    requires
        c.wf(),
    ensures
        c.total_jobs == c.all_jobs@.len(),
{
    c.all_jobs.lemma_total_is_len();
}

/// The two access paths agree: in every well-formed state a job identifier
/// stands in the identifier index exactly when some record in the ordinal
/// store carries it, and the record found at its resolved ordinal position
/// equals the record the index holds.
pub proof fn lemma_index_store_agree(c: Contract)
    requires
        c.wf(),
    ensures
        forall|k: Seq<char>| #[trigger] c.job_by_id.has(k) <==> has_id(c.all_jobs@, k),
        forall|k: Seq<char>|
            #[trigger] c.job_by_id.has(k) ==> 0 <= idx_of(c.all_jobs@, k) < c.all_jobs@.len()
                && c.all_jobs@[idx_of(c.all_jobs@, k)] == c.job_by_id.at(k),
{
    let s = c.all_jobs@;
    assert forall|k: Seq<char>| #[trigger] has_id(s, k) implies c.job_by_id.has(k) by {
        let w = choose|w: int| 0 <= w < s.len() && s[w].job_id == k;
        assert(c.job_by_id.has(s[w].job_id));
    }
    assert forall|k: Seq<char>| #[trigger] c.job_by_id.has(k) implies 0 <= idx_of(s, k) < s.len()
        && s[idx_of(s, k)] == c.job_by_id.at(k) by {
        assert(has_id(s, k));
        let i = idx_of(s, k);
        assert(0 <= i < s.len() && s[i].job_id == k);
        assert(c.job_by_id.at(s[i].job_id) == s[i]);
    }
}

/// Viewing is pure: both view operations borrow the ledger immutably, so no
/// call can change it, and their contracts pin the result as a function of
/// the state alone — two results read from the same state are equal.
pub proof fn lemma_view_all_jobs_deterministic(c: Contract, r1: Seq<JobView>, r2: Seq<JobView>)
    requires
        r1 == c.all_jobs@,
        r2 == c.all_jobs@,
    ensures
        r1 == r2,
{
}

/// Viewing by identifier is pure in the same way: the record returned for a
/// held identifier is the one value the index holds there.
pub proof fn lemma_view_job_by_id_deterministic(c: Contract, id: Seq<char>, r1: JobView, r2: JobView)
    requires
        c.job_by_id.has(id),
        r1 == c.job_by_id.at(id),
        r2 == c.job_by_id.at(id),
    ensures
        r1 == r2,
{
}

/// Round trip: a created job viewed by its returned identifier is the
/// created record. `create_job` leaves the record in the identifier index
/// under its identifier, and `view_job_by_id` returns exactly what the index
/// holds at that identifier.
pub proof fn lemma_create_then_view(c: Contract, job: JobView, viewed: JobView)
    requires
        c.job_by_id.has(job.job_id),
        c.job_by_id.at(job.job_id) == job,
        viewed == c.job_by_id.at(job.job_id),
    ensures
        viewed == job,
{
}

} // verus!
