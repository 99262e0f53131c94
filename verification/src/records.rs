//! The record types of the ledger: jobs, freelancers, clients, the partial
//! update applied to a job, and the failure taxonomy.
//!
//! Each record with owned fields has a mathematical view (`JobView` and the
//! like) over sequences of characters, and a `Clone` implementation proved to
//! preserve that view; contracts throughout the crate speak of the views.

use vstd::prelude::*;

verus! {

/// The lifecycle of a job: open for taking, taken by a freelancer, completed.
#[derive(Clone, Copy, PartialEq, Eq, Structural, Debug)]
pub enum Status {
    Open,
    InProgress,
    Completed,
}

/// A job record. `budget` is in currency units; `tags` is an ordered sequence.
#[derive(Debug)]
pub struct Job {
    pub job_id: String,
    pub author: String,
    pub executor: Option<String>,
    pub title: String,
    pub desc: String,
    pub budget: u128,
    pub tags: Vec<String>,
    pub created_at: String,
    pub duration: u64,
    pub status: Status,
}

/// The mathematical value of a [`Job`].
pub ghost struct JobView {
    pub job_id: Seq<char>,
    pub author: Seq<char>,
    pub executor: Option<Seq<char>>,
    pub title: Seq<char>,
    pub desc: Seq<char>,
    pub budget: u128,
    pub tags: Seq<Seq<char>>,
    pub created_at: Seq<char>,
    pub duration: u64,
    pub status: Status,
}

impl JobView {
    /// The record-level invariant: an open job has no executor, a job in
    /// progress has exactly one.
    pub open spec fn wf(self) -> bool {
        &&& (self.status == Status::Open ==> self.executor is None)
        &&& (self.status == Status::InProgress ==> self.executor is Some)
    }
}

impl DeepView for Job {
    type V = JobView;

    open spec fn deep_view(&self) -> JobView {
        JobView {
            job_id: self.job_id.deep_view(),
            author: self.author.deep_view(),
            executor: self.executor.deep_view(),
            title: self.title.deep_view(),
            desc: self.desc.deep_view(),
            budget: self.budget,
            tags: self.tags.deep_view(),
            created_at: self.created_at.deep_view(),
            duration: self.duration,
            status: self.status,
        }
    }
}

/// Clones a vector of strings, preserving its deep view.
pub fn clone_string_vec(v: &Vec<String>) -> (r: Vec<String>)
    ensures
        r.deep_view() == v.deep_view(),
{
    let mut r: Vec<String> = Vec::new();
    let mut i: usize = 0;
    while i < v.len()
        invariant
            0 <= i <= v.len(),
            r@.len() == i,
            forall|k: int| 0 <= k < i ==> r@[k] == v@[k],
        decreases v.len() - i,
    {
        r.push(v[i].clone());
        i = i + 1;
    }
    assert(r.deep_view() =~= v.deep_view());
    r
}

/// Clones an optional string, preserving its deep view.
pub fn clone_opt_string(v: &Option<String>) -> (r: Option<String>)
    ensures
        r.deep_view() == v.deep_view(),
{
    match v {
        Some(s) => Some(s.clone()),
        None => None,
    }
}

impl Clone for Job {
    /// A clone carries the same mathematical value.
    fn clone(&self) -> (r: Job)
        ensures
            r.deep_view() == self.deep_view(),
    {
        Job {
            job_id: self.job_id.clone(),
            author: self.author.clone(),
            executor: clone_opt_string(&self.executor),
            title: self.title.clone(),
            desc: self.desc.clone(),
            budget: self.budget,
            tags: clone_string_vec(&self.tags),
            created_at: self.created_at.clone(),
            duration: self.duration,
            status: self.status,
        }
    }
}

/// A freelancer record, one per principal.
#[derive(Debug)]
pub struct FreeLancer {
    pub freelancer_id: String,
    pub fullname: String,
    pub skills: Vec<String>,
    pub availability: Option<bool>,
    pub credit: u128,
}

/// The mathematical value of a [`FreeLancer`].
pub ghost struct FreeLancerView {
    pub freelancer_id: Seq<char>,
    pub fullname: Seq<char>,
    pub skills: Seq<Seq<char>>,
    pub availability: Option<bool>,
    pub credit: u128,
}

impl DeepView for FreeLancer {
    type V = FreeLancerView;

    open spec fn deep_view(&self) -> FreeLancerView {
        FreeLancerView {
            freelancer_id: self.freelancer_id.deep_view(),
            fullname: self.fullname.deep_view(),
            skills: self.skills.deep_view(),
            availability: self.availability,
            credit: self.credit,
        }
    }
}

impl Clone for FreeLancer {
    /// A clone carries the same mathematical value.
    fn clone(&self) -> (r: FreeLancer)
        ensures
            r.deep_view() == self.deep_view(),
    {
        FreeLancer {
            freelancer_id: self.freelancer_id.clone(),
            fullname: self.fullname.clone(),
            skills: clone_string_vec(&self.skills),
            availability: self.availability,
            credit: self.credit,
        }
    }
}

/// A client record, one per principal.
#[derive(Debug)]
pub struct Client {
    pub client_id: String,
    pub organization_name: String,
    pub industry: String,
    pub credit: u128,
}

/// The mathematical value of a [`Client`].
pub ghost struct ClientView {
    pub client_id: Seq<char>,
    pub organization_name: Seq<char>,
    pub industry: Seq<char>,
    pub credit: u128,
}

impl DeepView for Client {
    type V = ClientView;

    open spec fn deep_view(&self) -> ClientView {
        ClientView {
            client_id: self.client_id.deep_view(),
            organization_name: self.organization_name.deep_view(),
            industry: self.industry.deep_view(),
            credit: self.credit,
        }
    }
}

impl Clone for Client {
    /// A clone carries the same mathematical value.
    fn clone(&self) -> (r: Client)
        ensures
            r.deep_view() == self.deep_view(),
    {
        Client {
            client_id: self.client_id.clone(),
            organization_name: self.organization_name.clone(),
            industry: self.industry.clone(),
            credit: self.credit,
        }
    }
}

/// A partial update to a job: one optional slot per mutable field; an absent
/// slot leaves the field unchanged.
#[derive(Debug)]
pub struct JobPatch {
    pub title: Option<String>,
    pub desc: Option<String>,
    pub budget: Option<u128>,
    pub tags: Option<Vec<String>>,
    pub duration: Option<u64>,
}

/// The mathematical value of a [`JobPatch`].
pub ghost struct JobPatchView {
    pub title: Option<Seq<char>>,
    pub desc: Option<Seq<char>>,
    pub budget: Option<u128>,
    pub tags: Option<Seq<Seq<char>>>,
    pub duration: Option<u64>,
}

impl DeepView for JobPatch {
    type V = JobPatchView;

    open spec fn deep_view(&self) -> JobPatchView {
        JobPatchView {
            title: self.title.deep_view(),
            desc: self.desc.deep_view(),
            budget: self.budget,
            tags: self.tags.deep_view(),
            duration: self.duration,
        }
    }
}

/// The pure merge of a partial update into a job: supplied fields replace the
/// job's, absent fields are kept; identity, lifecycle and creation data are
/// never touched.
pub open spec fn patched(j: JobView, p: JobPatchView) -> JobView {
    JobView {
        title: if p.title is Some { p.title->0 } else { j.title },
        desc: if p.desc is Some { p.desc->0 } else { j.desc },
        budget: if p.budget is Some { p.budget->0 } else { j.budget },
        tags: if p.tags is Some { p.tags->0 } else { j.tags },
        duration: if p.duration is Some { p.duration->0 } else { j.duration },
        ..j
    }
}

/// Applies a partial update to a job, consuming the patch.
pub fn apply_patch(job: &mut Job, patch: JobPatch)
    ensures
        final(job).deep_view() == patched(old(job).deep_view(), patch.deep_view()),
{
    if let Some(new_title) = patch.title {
        job.title = new_title;
    }
    if let Some(new_desc) = patch.desc {
        job.desc = new_desc;
    }
    if let Some(new_budget) = patch.budget {
        job.budget = new_budget;
    }
    if let Some(new_tags) = patch.tags {
        job.tags = new_tags;
    }
    if let Some(new_duration) = patch.duration {
        job.duration = new_duration;
    }
}

/// Why an operation was refused. Every failure is terminal for the operation
/// that raised it and commits no state.
#[derive(Clone, Copy, PartialEq, Eq, Structural, Debug)]
pub enum Error {
    /// A registration used a principal that already holds a record.
    AlreadyExists,
    /// A role or ownership check failed.
    Unauthorized,
    /// A job identifier or ordinal position resolved to nothing.
    NotFound,
    /// A lifecycle precondition failed, such as taking a non-open job.
    InvalidState,
    /// The available balance is below the required transfer amount.
    InsufficientFunds,
}

impl Error {
    /// The failure reason, surfaced verbatim to the caller.
    pub fn message(&self) -> (r: &'static str)
        ensures
            r.deep_view() == self.reason(),
    {
        match self {
            Error::AlreadyExists => "this record has already existed",
            Error::Unauthorized => "you don't have authorization",
            Error::NotFound => "this record doesn't exist",
            Error::InvalidState => "this job's status does not allow the operation",
            Error::InsufficientFunds => "not enough currency",
        }
    }

    /// The reason string of each failure.
    pub open spec fn reason(self) -> Seq<char> {
        match self {
            Error::AlreadyExists => "this record has already existed"@,
            Error::Unauthorized => "you don't have authorization"@,
            Error::NotFound => "this record doesn't exist"@,
            Error::InvalidState => "this job's status does not allow the operation"@,
            Error::InsufficientFunds => "not enough currency"@,
        }
    }
}

} // verus!
