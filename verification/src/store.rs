//! The ordinal job store: a dense mapping from a 1-based contiguous position
//! to a job record, with a running count.
//!
//! Density is the core invariant: every position in `1..=total` resolves to a
//! record and no gaps exist. Removal therefore compacts — every record above
//! the removed slot moves down one position, preserving the relative order of
//! the remaining records.
//!
//! The store's mathematical value (its `view`) is the sequence of job views in
//! position order; position `p` holds the record `store@[p - 1]`.

use vstd::prelude::*;
use vstd::pervasive::VecAdditionalExecFns;
use crate::records::{Job, JobView};

verus! {

/// Whether some record in `s` carries the identifier `id`.
pub open spec fn has_id(s: Seq<JobView>, id: Seq<char>) -> bool {
    exists|i: int| 0 <= i < s.len() && s[i].job_id == id
}

/// Whether no two records in `s` carry the same identifier.
pub open spec fn ids_unique(s: Seq<JobView>) -> bool {
    forall|i: int, j: int| 0 <= i < j < s.len() ==> s[i].job_id != s[j].job_id
}

/// The index of the record carrying `id` (meaningful when `has_id(s, id)`).
pub open spec fn idx_of(s: Seq<JobView>, id: Seq<char>) -> int {
    choose|i: int| 0 <= i < s.len() && s[i].job_id == id
}

/// The dense, 1-based ordinal store of job records.
pub struct JobStore {
    jobs: Vec<Job>,
    total: u128,
}

impl View for JobStore {
    type V = Seq<JobView>;

    closed spec fn view(&self) -> Seq<JobView> {
        self.jobs.deep_view()
    }
}

impl JobStore {
    /// Well-formed: the running count equals the number of records, so the
    /// occupied positions are exactly `1..=total` with no gaps.
    pub closed spec fn wf(&self) -> bool {
        self.total == self@.len()
    }

    /// The running count of records.
    pub closed spec fn spec_total(&self) -> u128 {
        self.total
    }

    /// A well-formed store's count equals the number of records it holds.
    pub proof fn lemma_total_is_len(&self)
        requires
            self.wf(),
        ensures
            self.spec_total() == self@.len(),
    {
    }

    /// An empty store.
    pub fn new() -> (r: JobStore)
        ensures
            r.wf(),
            r@ == Seq::<JobView>::empty(),
            r.spec_total() == 0,
    {
        let r = JobStore { jobs: Vec::new(), total: 0 };
        proof {
            assert(r@ =~= Seq::<JobView>::empty());
        }
        r
    }

    /// The running count of records.
    pub fn total(&self) -> (r: u128)
        ensures
            r == self.spec_total(),
    {
        self.total
    }

    /// Inserts `job` at position `total + 1` and increments the count; no
    /// existing position is touched.
    pub fn append(&mut self, job: Job) -> (pos: u128)
        requires
            old(self).wf(),
        ensures
            final(self).wf(),
            final(self)@ == old(self)@.push(job.deep_view()),
            final(self).spec_total() == old(self).spec_total() + 1,
            pos == final(self).spec_total(),
    {
        let ghost pre = *self;
        let n = self.jobs.len();
        self.jobs.push(job);
        self.total = self.total + 1;
        proof {
            assert(self@ =~= pre@.push(self.jobs@[n as int].deep_view()));
        }
        self.total
    }

    /// The record at `position`, or nothing when `position` is outside
    /// `1..=total`.
    pub fn get(&self, position: u128) -> (r: Option<&Job>)
        requires
            self.wf(),
        ensures
            match r {
                Some(job) => 1 <= position <= self.spec_total() && job.deep_view() == self@[position
                    - 1],
                None => !(1 <= position <= self.spec_total()),
            },
    {
        if 1 <= position && position <= self.total {
            let n = self.jobs.len();
            assert(position - 1 < n);
            let i = (position - 1) as usize;
            Some(&self.jobs[i])
        } else {
            None
        }
    }

    /// Overwrites the record at `position`, which must be occupied.
    pub fn set(&mut self, position: u128, job: Job)
        requires
            old(self).wf(),
            1 <= position <= old(self).spec_total(),
        ensures
            final(self).wf(),
            final(self)@ == old(self)@.update(position - 1, job.deep_view()),
            final(self).spec_total() == old(self).spec_total(),
    {
        let ghost pre = *self;
        let n = self.jobs.len();
        assert(position - 1 < n);
        let i = (position - 1) as usize;
        self.jobs.set(i, job);
        proof {
            assert(self@ =~= pre@.update(position - 1, self.jobs@[i as int].deep_view()));
        }
    }

    /// The first position whose record carries `job_id`, or nothing when no
    /// record does.
    pub fn find_position(&self, job_id: &String) -> (r: Option<u128>)
        requires
            self.wf(),
        ensures
            match r {
                Some(p) => {
                    &&& 1 <= p <= self.spec_total()
                    &&& self@[p - 1].job_id == job_id@
                    &&& forall|q: int| 0 <= q < p - 1 ==> self@[q].job_id != job_id@
                },
                None => !has_id(self@, job_id@),
            },
    {
        let mut i: usize = 0;
        while i < self.jobs.len()
            invariant
                self.wf(),
                0 <= i <= self.jobs@.len(),
                forall|q: int| 0 <= q < i ==> self@[q].job_id != job_id@,
            decreases self.jobs@.len() - i,
        {
            if self.jobs[i].job_id == *job_id {
                return Some((i as u128) + 1);
            }
            i = i + 1;
        }
        None
    }

    /// Deletes the record at `position`: every record above it moves down one
    /// position, the freed last slot disappears, and the count shrinks by
    /// one. Density and the relative order of the remaining records are
    /// preserved. Returns the deleted record.
    pub fn remove_and_compact(&mut self, position: u128) -> (r: Job)
        requires
            old(self).wf(),
            1 <= position <= old(self).spec_total(),
        ensures
            final(self).wf(),
            final(self)@ == old(self)@.remove(position - 1),
            final(self).spec_total() == old(self).spec_total() - 1,
            r.deep_view() == old(self)@[position - 1],
    {
        let ghost pre = *self;
        let n = self.jobs.len();
        assert(position - 1 < n);
        let i = (position - 1) as usize;
        let job = self.jobs.remove(i);
        self.total = self.total - 1;
        proof {
            assert(self@ =~= pre@.remove(position - 1));
        }
        job
    }

    /// All records in position order, `1..=total`. A fresh call re-reads the
    /// current state.
    pub fn list(&self) -> (r: Vec<Job>)
        requires
            self.wf(),
        ensures
            r.deep_view() == self@,
    {
        let mut r: Vec<Job> = Vec::new();
        let mut i: usize = 0;
        while i < self.jobs.len()
            invariant
                0 <= i <= self.jobs@.len(),
                r@.len() == i,
                forall|k: int| 0 <= k < i ==> r@[k].deep_view() == self@[k],
            decreases self.jobs@.len() - i,
        {
            r.push(self.jobs[i].clone());
            i = i + 1;
        }
        proof {
            assert(r.deep_view() =~= self@);
        }
        r
    }
}

} // verus!
