//! The job service: one explicit ledger object orchestrating the ordinal job
//! store and the identifier-keyed indices, and enforcing the lifecycle rules.
//!
//! Every operation receives the caller's identity as an explicit principal;
//! the clock reading that job identifiers are derived from and the account
//! balance consulted by payment enter as plain arguments, and the transfer a
//! payment requires leaves as a plain instruction for the hosting environment
//! to execute. Each operation either commits all its writes and returns the
//! record, or fails with a single reason and commits nothing.

use vstd::prelude::*;
use vstd::string::StringExecFns;
use crate::records::{
    Job,
    JobView,
    JobPatch,
    FreeLancer,
    FreeLancerView,
    Client,
    ClientView,
    Status,
    Error,
    clone_string_vec,
    patched,
};
use crate::index::IdIndex;
use crate::store::{JobStore, has_id, ids_unique, idx_of};

verus! {

/// Currency units are scaled by this factor when a payment is executed.
pub const SCALING_FACTOR: u128 = 1_000_000_000_000_000_000_000_000;

/// The job identifier derived from a clock reading: the reading behind a
/// fixed prefix. The clock source is trusted to never repeat a reading, so
/// derived identifiers never collide.
pub open spec fn job_id_of(created_at: Seq<char>) -> Seq<char> {
    "J-"@ + created_at
}

/// The record a freshly created job holds.
pub open spec fn fresh_job(
    caller: Seq<char>,
    title: Seq<char>,
    desc: Seq<char>,
    budget: u128,
    tags: Seq<Seq<char>>,
    duration: u64,
    created_at: Seq<char>,
) -> JobView {
    JobView {
        job_id: job_id_of(created_at),
        author: caller,
        executor: None,
        title: title,
        desc: desc,
        budget: budget,
        tags: tags,
        created_at: created_at,
        duration: duration,
        status: Status::Open,
    }
}

/// `j` after a freelancer takes it: the executor is set and the job moves to
/// `InProgress`; every other field is kept.
pub open spec fn taken_job(j: JobView, executor: Seq<char>) -> JobView {
    JobView {
        job_id: j.job_id,
        author: j.author,
        executor: Some(executor),
        title: j.title,
        desc: j.desc,
        budget: j.budget,
        tags: j.tags,
        created_at: j.created_at,
        duration: j.duration,
        status: Status::InProgress,
    }
}

/// `r` is `s` with the first occurrence of `x` removed, or `s` itself when
/// `x` does not occur.
pub open spec fn removed_first(s: Seq<Seq<char>>, x: Seq<char>, r: Seq<Seq<char>>) -> bool {
    if exists|i: int| 0 <= i < s.len() && s[i] == x {
        exists|i: int|
            0 <= i < s.len() && s[i] == x && (forall|q: int| 0 <= q < i ==> s[q] != x) && r
                == s.remove(i)
    } else {
        r == s
    }
}

/// Removes the first occurrence of `x` from a list of identifiers.
fn remove_first_string(v: &Vec<String>, x: &String) -> (r: Vec<String>)
    ensures
        removed_first(v.deep_view(), x@, r.deep_view()),
{
    let mut i: usize = 0;
    while i < v.len()
        invariant
            0 <= i <= v@.len(),
            forall|q: int| 0 <= q < i ==> v.deep_view()[q] != x@,
        decreases v@.len() - i,
    {
        if v[i] == *x {
            let mut r = clone_string_vec(v);
            let ghost cl = r;
            proof {
                assert(r.deep_view().len() == r@.len());
                assert(v.deep_view().len() == v@.len());
                assert(r@.len() == v@.len());
            }
            r.remove(i);
            proof {
                assert forall|c: int| 0 <= c < r@.len() implies r@[c] == cl@[if c < i {
                    c
                } else {
                    c + 1
                }] by {}
                assert(r.deep_view() =~= v.deep_view().remove(i as int));
                let s = v.deep_view();
                assert(s[i as int] == x@);
                assert(0 <= i < s.len() && s[i as int] == x@ && (forall|q: int|
                    0 <= q < i ==> s[q] != x@) && r.deep_view() == s.remove(i as int));
                assert(removed_first(s, x@, r.deep_view()));
            }
            return r;
        }
        i = i + 1;
    }
    clone_string_vec(v)
}

/// The transfer instruction a successful payment hands to the hosting
/// environment: pay `amount` to `receiver`.
#[derive(Debug)]
pub struct Payment {
    pub receiver: String,
    pub amount: u128,
}

/// The marketplace ledger: the ordinal job store, the identifier-keyed
/// indices, and the registered freelancers and clients.
pub struct Contract {
    pub owner: String,
    pub all_jobs: JobStore,
    pub job_by_id: IdIndex<Job>,
    pub jobs_by_executor: IdIndex<Vec<String>>,
    pub jobs_by_owner: IdIndex<Vec<String>>,
    pub total_jobs: u128,
    pub all_freelancers: Vec<FreeLancer>,
    pub freelancer_by_id: IdIndex<FreeLancer>,
    pub total_freelancers: u128,
    pub all_clients: Vec<Client>,
    pub client_by_id: IdIndex<Client>,
    pub total_clients: u128,
}

/// The operation surface of the marketplace: registration, the job
/// lifecycle, payment preparation, and the read-only views. Every operation
/// receives the caller as an explicit principal and preserves the
/// implementor's invariant; what each operation returns and changes is
/// pinned down by the implementation's own contract. Executing a transfer
/// and reading the clock or the balance are the hosting environment's work
/// and stay outside this surface.
pub trait OutSourcing: Sized {
    /// The implementor's invariant, preserved by every operation.
    spec fn inv(&self) -> bool;

    /// Whether a job stands under identifier `id`.
    spec fn has_job(&self, id: Seq<char>) -> bool;

    /// Registers the caller as a freelancer.
    fn register_executor(&mut self, caller: String, fullname: String, skills: Vec<String>) -> (r:
        Result<FreeLancer, Error>)
        requires
            old(self).inv(),
        ensures
            final(self).inv(),
    ;

    /// Registers the caller as a client.
    fn register_client(&mut self, caller: String, organization_name: String, industry: String) -> (r:
        Result<Client, Error>)
        requires
            old(self).inv(),
        ensures
            final(self).inv(),
    ;

    /// Creates a job for the caller; its identifier is derived from the
    /// clock reading `created_at`, trusted never to repeat.
    fn create_job(
        &mut self,
        caller: String,
        title: String,
        desc: String,
        budget: u128,
        tags: Vec<String>,
        duration: u64,
        created_at: String,
    ) -> (r: Result<Job, Error>)
        requires
            old(self).inv(),
            !old(self).has_job(job_id_of(created_at@)),
        ensures
            final(self).inv(),
    ;

    /// Assigns the caller as executor of an open job.
    fn take_job(&mut self, caller: String, job_id: String) -> (r: Result<Job, Error>)
        requires
            old(self).inv(),
        ensures
            final(self).inv(),
    ;

    /// Applies a partial update to the caller's job.
    fn update_job(&mut self, caller: String, job_id: String, patch: JobPatch) -> (r: Result<
        Job,
        Error,
    >)
        requires
            old(self).inv(),
        ensures
            final(self).inv(),
    ;

    /// Deletes the caller's job and compacts the ordinal store.
    fn remove_job(&mut self, caller: String, job_id: String) -> (r: Result<Job, Error>)
        requires
            old(self).inv(),
        ensures
            final(self).inv(),
    ;

    /// Prepares the transfer instruction paying for the caller's job.
    fn pay_for_job(&self, caller: String, job_id: String, balance: u128) -> (r: Result<
        Payment,
        Error,
    >)
        requires
            self.inv(),
    ;

    /// All jobs in position order.
    fn view_all_jobs(&self) -> (r: Vec<Job>)
        requires
            self.inv(),
    ;

    /// The job under `job_id`.
    fn view_job_by_id(&self, job_id: String) -> (r: Result<Job, Error>)
        requires
            self.inv(),
    ;

    /// The caller's freelancer record.
    fn view_freelancer_by_id(&self, caller: String) -> (r: Result<FreeLancer, Error>)
        requires
            self.inv(),
    ;

    /// The ordinal position holding `job_id`.
    fn index_of_job(&self, job_id: String) -> (r: Option<u128>)
        requires
            self.inv(),
    ;

    /// Owner-only maintenance: drops every job.
    fn clear_jobs(&mut self, caller: String) -> (r: Result<String, Error>)
        requires
            old(self).inv(),
        ensures
            final(self).inv(),
    ;
}

impl Contract {
    /// The job containers agree: the ordinal store is dense with `total_jobs`
    /// records carrying pairwise distinct identifiers, each record also
    /// stands in the identifier index under its identifier, and the index
    /// holds nothing else.
    pub open spec fn jobs_wf(&self) -> bool {
        &&& self.all_jobs.wf()
        &&& self.job_by_id.wf()
        &&& self.jobs_by_executor.wf()
        &&& self.jobs_by_owner.wf()
        &&& self.total_jobs == self.all_jobs.spec_total()
        &&& ids_unique(self.all_jobs@)
        &&& forall|i: int| 0 <= i < self.all_jobs@.len() ==> (#[trigger] self.all_jobs@[i]).wf()
        &&& forall|i: int|
            0 <= i < self.all_jobs@.len() ==> self.job_by_id.has(
                (#[trigger] self.all_jobs@[i]).job_id,
            ) && self.job_by_id.at(self.all_jobs@[i].job_id) == self.all_jobs@[i]
        &&& forall|k: Seq<char>| #[trigger] self.job_by_id.has(k) ==> has_id(self.all_jobs@, k)
    }

    /// The registration containers agree with their running counts.
    pub open spec fn regs_wf(&self) -> bool {
        &&& self.freelancer_by_id.wf()
        &&& self.client_by_id.wf()
        &&& self.total_freelancers == self.all_freelancers@.len()
        &&& self.total_clients == self.all_clients@.len()
    }

    /// The ledger-wide invariant, established at initialization and preserved
    /// by every operation.
    pub open spec fn wf(&self) -> bool {
        self.jobs_wf() && self.regs_wf()
    }

    /// The zeroed initial state: empty containers, counters at zero, and the
    /// initializing principal as owner.
    pub fn init(owner: String) -> (r: Contract)
        ensures
            r.wf(),
            r.owner@ == owner@,
            r.all_jobs@ == Seq::<JobView>::empty(),
            r.total_jobs == 0,
            forall|k: Seq<char>| !r.job_by_id.has(k),
            forall|k: Seq<char>| !r.jobs_by_executor.has(k),
            forall|k: Seq<char>| !r.jobs_by_owner.has(k),
            r.all_freelancers@.len() == 0,
            forall|k: Seq<char>| !r.freelancer_by_id.has(k),
            r.total_freelancers == 0,
            r.all_clients@.len() == 0,
            forall|k: Seq<char>| !r.client_by_id.has(k),
            r.total_clients == 0,
    {
        Contract {
            owner,
            all_jobs: JobStore::new(),
            job_by_id: IdIndex::new(),
            jobs_by_executor: IdIndex::new(),
            jobs_by_owner: IdIndex::new(),
            total_jobs: 0,
            all_freelancers: Vec::new(),
            freelancer_by_id: IdIndex::new(),
            total_freelancers: 0,
            all_clients: Vec::new(),
            client_by_id: IdIndex::new(),
            total_clients: 0,
        }
    }

    /// Replaces the record standing under `job_id` in both access paths — the
    /// identifier index and the ordinal store at the job's resolved position
    /// — keeping the two bit-for-bit equal. The replacement must carry the
    /// same identifier.
    fn sync_job(&mut self, job_id: &String, job: Job)
        requires
            old(self).wf(),
            old(self).job_by_id.has(job_id@),
            job.deep_view().job_id == job_id@,
            job.deep_view().wf(),
        ensures
            final(self).wf(),
            final(self).all_jobs@ == old(self).all_jobs@.update(
                idx_of(old(self).all_jobs@, job_id@),
                job.deep_view(),
            ),
            forall|k: Seq<char>| final(self).job_by_id.has(k) == old(self).job_by_id.has(k),
            final(self).job_by_id.at(job_id@) == job.deep_view(),
            forall|k: Seq<char>|
                k != job_id@ && old(self).job_by_id.has(k) ==> final(self).job_by_id.at(k) == old(self).job_by_id.at(k),
            final(self).total_jobs == old(self).total_jobs,
            final(self).jobs_by_owner == old(self).jobs_by_owner,
            final(self).jobs_by_executor == old(self).jobs_by_executor,
            final(self).all_freelancers == old(self).all_freelancers,
            final(self).freelancer_by_id == old(self).freelancer_by_id,
            final(self).total_freelancers == old(self).total_freelancers,
            final(self).all_clients == old(self).all_clients,
            final(self).client_by_id == old(self).client_by_id,
            final(self).total_clients == old(self).total_clients,
            final(self).owner == old(self).owner,
    {
        let ghost pre = *self;
        let ghost jv = job.deep_view();
        let pos = match self.all_jobs.find_position(job_id) {
            Some(p) => p,
            None => {
                proof {
                    assert(has_id(pre.all_jobs@, job_id@));
                }
                vstd::pervasive::unreached()
            },
        };
        proof {
            let ix = idx_of(pre.all_jobs@, job_id@);
            assert(0 <= ix < pre.all_jobs@.len() && pre.all_jobs@[ix].job_id == job_id@);
            assert(ix == pos - 1);
        }
        self.all_jobs.set(pos, job.clone());
        self.job_by_id.insert(job_id.clone(), job);
        proof {
            let s = self.all_jobs@;
            let ix = idx_of(pre.all_jobs@, job_id@);
            assert forall|i: int, j: int| 0 <= i < j < s.len() implies s[i].job_id != s[j].job_id by {
                assert(pre.all_jobs@[i].job_id == s[i].job_id);
                assert(pre.all_jobs@[j].job_id == s[j].job_id);
            }
            assert forall|i: int| 0 <= i < s.len() implies (#[trigger] s[i]).wf() by {
                if i != ix {
                    assert(s[i] == pre.all_jobs@[i]);
                    assert(pre.all_jobs@[i].wf());
                }
            }
            assert forall|i: int|
                0 <= i < s.len() implies self.job_by_id.has((#[trigger] s[i]).job_id)
                    && self.job_by_id.at(s[i].job_id) == s[i] by {
                if i != ix {
                    assert(s[i] == pre.all_jobs@[i]);
                    assert(pre.job_by_id.has(s[i].job_id));
                    assert(pre.all_jobs@[ix].job_id == job_id@);
                    assert(s[i].job_id != job_id@);
                }
            }
            assert forall|k: Seq<char>| #[trigger] self.job_by_id.has(k) implies has_id(s, k) by {
                assert(pre.job_by_id.has(k));
                let w = choose|w: int| 0 <= w < pre.all_jobs@.len() && pre.all_jobs@[w].job_id == k;
                assert(s[w].job_id == k);
            }
        }
    }

}

impl OutSourcing for Contract {
    /// The ledger-wide invariant.
    open spec fn inv(&self) -> bool {
        self.wf()
    }

    /// Whether a job stands under identifier `id`.
    open spec fn has_job(&self, id: Seq<char>) -> bool {
        self.job_by_id.has(id)
    }

    /// Registers the caller as a freelancer, once: a second registration of
    /// the same principal fails `AlreadyExists` and changes nothing.
    fn register_executor(&mut self, caller: String, fullname: String, skills: Vec<String>) -> (r:
        Result<FreeLancer, Error>)
        ensures
            final(self).wf(),
            match r {
                Ok(f) => {
                    &&& !old(self).freelancer_by_id.has(caller@)
                    &&& f.deep_view() == (FreeLancerView {
                        freelancer_id: caller@,
                        fullname: fullname@,
                        skills: skills.deep_view(),
                        availability: Some(true),
                        credit: 0,
                    })
                    &&& final(self).freelancer_by_id.has(caller@)
                    &&& final(self).freelancer_by_id.at(caller@) == f.deep_view()
                    &&& forall|k: Seq<char>|
                        k != caller@ ==> final(self).freelancer_by_id.has(k) == old(self).freelancer_by_id.has(k)
                    &&& forall|k: Seq<char>|
                        k != caller@ && old(self).freelancer_by_id.has(k) ==> final(self).freelancer_by_id.at(k) == old(self).freelancer_by_id.at(k)
                    &&& final(self).all_freelancers.deep_view() == old(self).all_freelancers.deep_view().push(f.deep_view())
                    &&& final(self).total_freelancers == old(self).total_freelancers + 1
                    &&& final(self).all_jobs == old(self).all_jobs
                    &&& final(self).job_by_id == old(self).job_by_id
                    &&& final(self).total_jobs == old(self).total_jobs
                    &&& final(self).client_by_id == old(self).client_by_id
                    &&& final(self).owner == old(self).owner
                },
                Err(e) => {
                    &&& e == Error::AlreadyExists
                    &&& old(self).freelancer_by_id.has(caller@)
                    &&& *final(self) == *old(self)
                },
            },
    {
        if self.freelancer_by_id.contains_key(&caller) {
            return Err(Error::AlreadyExists);
        }
        let new_freelancer = FreeLancer {
            freelancer_id: caller.clone(),
            fullname,
            skills,
            credit: 0,
            availability: Some(true),
        };
        let n = self.all_freelancers.len();
        self.total_freelancers = (n as u128) + 1;
        self.freelancer_by_id.insert(caller, new_freelancer.clone());
        self.all_freelancers.push(new_freelancer.clone());
        proof {
            assert(self.all_freelancers.deep_view() =~= old(self).all_freelancers.deep_view().push(self.all_freelancers@[n as int].deep_view()));
        }
        Ok(new_freelancer)
    }

    /// Registers the caller as a client, once: a second registration of the
    /// same principal fails `AlreadyExists` and changes nothing.
    fn register_client(&mut self, caller: String, organization_name: String, industry: String)
        -> (r: Result<Client, Error>)
        ensures
            final(self).wf(),
            match r {
                Ok(c) => {
                    &&& !old(self).client_by_id.has(caller@)
                    &&& c.deep_view() == (ClientView {
                        client_id: caller@,
                        organization_name: organization_name@,
                        industry: industry@,
                        credit: 0,
                    })
                    &&& final(self).client_by_id.has(caller@)
                    &&& final(self).client_by_id.at(caller@) == c.deep_view()
                    &&& forall|k: Seq<char>|
                        k != caller@ ==> final(self).client_by_id.has(k) == old(self).client_by_id.has(k)
                    &&& forall|k: Seq<char>|
                        k != caller@ && old(self).client_by_id.has(k) ==> final(self).client_by_id.at(k) == old(self).client_by_id.at(k)
                    &&& final(self).all_clients.deep_view() == old(self).all_clients.deep_view().push(c.deep_view())
                    &&& final(self).total_clients == old(self).total_clients + 1
                    &&& final(self).all_jobs == old(self).all_jobs
                    &&& final(self).job_by_id == old(self).job_by_id
                    &&& final(self).total_jobs == old(self).total_jobs
                    &&& final(self).freelancer_by_id == old(self).freelancer_by_id
                    &&& final(self).owner == old(self).owner
                },
                Err(e) => {
                    &&& e == Error::AlreadyExists
                    &&& old(self).client_by_id.has(caller@)
                    &&& *final(self) == *old(self)
                },
            },
    {
        if self.client_by_id.contains_key(&caller) {
            return Err(Error::AlreadyExists);
        }
        let new_client = Client {
            client_id: caller.clone(),
            organization_name,
            industry,
            credit: 0,
        };
        let n = self.all_clients.len();
        self.total_clients = (n as u128) + 1;
        self.client_by_id.insert(caller, new_client.clone());
        self.all_clients.push(new_client.clone());
        proof {
            assert(self.all_clients.deep_view() =~= old(self).all_clients.deep_view().push(
                self.all_clients@[n as int].deep_view(),
            ));
        }
        Ok(new_client)
    }

    /// Creates a job for the caller, a registered client: status `Open`, no
    /// executor, an identifier derived from the clock reading `created_at`.
    /// The record is appended to the ordinal store, put in the identifier
    /// index, and its identifier is added to the caller's owner lookup. A
    /// caller that never registered as a client fails `Unauthorized` and
    /// changes nothing. The clock source is trusted never to repeat a
    /// reading, so the derived identifier is fresh by assumption.
    fn create_job(
        &mut self,
        caller: String,
        title: String,
        desc: String,
        budget: u128,
        tags: Vec<String>,
        duration: u64,
        created_at: String,
    ) -> (r: Result<Job, Error>)
        ensures
            final(self).wf(),
            match r {
                Ok(job) => {
                    &&& old(self).client_by_id.has(caller@)
                    &&& job.deep_view() == fresh_job(
                        caller@,
                        title@,
                        desc@,
                        budget,
                        tags.deep_view(),
                        duration,
                        created_at@,
                    )
                    &&& final(self).all_jobs@ == old(self).all_jobs@.push(job.deep_view())
                    &&& final(self).total_jobs == old(self).total_jobs + 1
                    &&& forall|k: Seq<char>|
                        final(self).job_by_id.has(k) == (old(self).job_by_id.has(k) || k
                            == job_id_of(created_at@))
                    &&& final(self).job_by_id.at(job_id_of(created_at@)) == job.deep_view()
                    &&& forall|k: Seq<char>|
                        k != job_id_of(created_at@) && old(self).job_by_id.has(k) ==> final(self).job_by_id.at(k) == old(self).job_by_id.at(k)
                    &&& final(self).jobs_by_owner.has(caller@)
                    &&& final(self).jobs_by_owner.at(caller@) == (if old(self).jobs_by_owner.has(caller@) {
                        old(self).jobs_by_owner.at(caller@)
                    } else {
                        Seq::<Seq<char>>::empty()
                    }).push(job_id_of(created_at@))
                    &&& forall|k: Seq<char>|
                        k != caller@ ==> final(self).jobs_by_owner.has(k) == old(self).jobs_by_owner.has(k)
                    &&& forall|k: Seq<char>|
                        k != caller@ && old(self).jobs_by_owner.has(k) ==> final(self).jobs_by_owner.at(k) == old(self).jobs_by_owner.at(k)
                    &&& final(self).jobs_by_executor == old(self).jobs_by_executor
                    &&& final(self).all_freelancers == old(self).all_freelancers
                    &&& final(self).freelancer_by_id == old(self).freelancer_by_id
                    &&& final(self).total_freelancers == old(self).total_freelancers
                    &&& final(self).all_clients == old(self).all_clients
                    &&& final(self).client_by_id == old(self).client_by_id
                    &&& final(self).total_clients == old(self).total_clients
                    &&& final(self).owner == old(self).owner
                },
                Err(e) => {
                    &&& e == Error::Unauthorized
                    &&& !old(self).client_by_id.has(caller@)
                    &&& *final(self) == *old(self)
                },
            },
    {
        if !self.client_by_id.contains_key(&caller) {
            return Err(Error::Unauthorized);
        }
        let job_id = String::from_str("J-").concat(created_at.as_str());
        let new_job = Job {
            job_id: job_id.clone(),
            author: caller.clone(),
            executor: None,
            title,
            desc,
            budget,
            tags,
            duration,
            created_at,
            status: Status::Open,
        };
        let ghost pre = *self;
        let ghost jv = new_job.deep_view();
        self.all_jobs.append(new_job.clone());
        self.total_jobs = self.all_jobs.total();
        self.job_by_id.insert(job_id.clone(), new_job.clone());
        let mut owner_list: Vec<String> = match self.jobs_by_owner.get(&caller) {
            Some(l) => clone_string_vec(l),
            None => Vec::new(),
        };
        let ghost owner_list_pre = owner_list.deep_view();
        owner_list.push(job_id);
        proof {
            assert(owner_list.deep_view() =~= owner_list_pre.push(jv.job_id));
        }
        self.jobs_by_owner.insert(caller, owner_list);
        proof {
            let s = self.all_jobs@;
            let n = pre.all_jobs@.len() as int;
            // Every identifier already stored differs from the fresh one.
            assert forall|i: int| 0 <= i < n implies pre.all_jobs@[i].job_id != jv.job_id by {
                assert(pre.job_by_id.has(pre.all_jobs@[i].job_id));
            }
            assert forall|i: int, j: int| 0 <= i < j < s.len() implies s[i].job_id != s[j].job_id by {
                if j < n {
                    assert(pre.all_jobs@[i].job_id != pre.all_jobs@[j].job_id);
                } else {
                    assert(s[i] == pre.all_jobs@[i]);
                    assert(s[j] == jv);
                }
            }
            assert forall|i: int| 0 <= i < s.len() implies (#[trigger] s[i]).wf() by {
                if i < n {
                    assert(s[i] == pre.all_jobs@[i]);
                    assert(pre.all_jobs@[i].wf());
                }
            }
            assert forall|i: int|
                0 <= i < s.len() implies self.job_by_id.has((#[trigger] s[i]).job_id)
                    && self.job_by_id.at(s[i].job_id) == s[i] by {
                if i < n {
                    assert(s[i] == pre.all_jobs@[i]);
                    assert(pre.job_by_id.has(s[i].job_id));
                    assert(s[i].job_id != jv.job_id);
                }
            }
            assert forall|k: Seq<char>| #[trigger] self.job_by_id.has(k) implies has_id(s, k) by {
                if pre.job_by_id.has(k) {
                    assert(has_id(pre.all_jobs@, k));
                    let w = choose|w: int| 0 <= w < n && pre.all_jobs@[w].job_id == k;
                    assert(s[w].job_id == k);
                } else {
                    assert(k == jv.job_id);
                    assert(s[n].job_id == k);
                }
            }
        }
        Ok(new_job)
    }

    /// Assigns the caller, a registered freelancer, as executor of an open
    /// job and moves it to `InProgress`, in the identifier index and the
    /// ordinal store alike; the job's identifier is added to the caller's
    /// executor lookup. Fails `Unauthorized` for a caller that never
    /// registered as a freelancer, `NotFound` for an unknown identifier, and
    /// `InvalidState` for a job that is not open; every failure changes
    /// nothing.
    fn take_job(&mut self, caller: String, job_id: String) -> (r: Result<Job, Error>)
        ensures
            final(self).wf(),
            match r {
                Ok(job) => {
                    &&& old(self).freelancer_by_id.has(caller@)
                    &&& old(self).job_by_id.has(job_id@)
                    &&& old(self).job_by_id.at(job_id@).status == Status::Open
                    &&& job.deep_view() == taken_job(old(self).job_by_id.at(job_id@), caller@)
                    &&& final(self).all_jobs@ == old(self).all_jobs@.update(
                        idx_of(old(self).all_jobs@, job_id@),
                        job.deep_view(),
                    )
                    &&& forall|k: Seq<char>|
                        final(self).job_by_id.has(k) == old(self).job_by_id.has(k)
                    &&& final(self).job_by_id.at(job_id@) == job.deep_view()
                    &&& forall|k: Seq<char>|
                        k != job_id@ && old(self).job_by_id.has(k) ==> final(self).job_by_id.at(k)
                            == old(self).job_by_id.at(k)
                    &&& final(self).jobs_by_executor.has(caller@)
                    &&& final(self).jobs_by_executor.at(caller@) == (if old(self).jobs_by_executor.has(caller@) {
                        old(self).jobs_by_executor.at(caller@)
                    } else {
                        Seq::<Seq<char>>::empty()
                    }).push(job_id@)
                    &&& forall|k: Seq<char>|
                        k != caller@ ==> final(self).jobs_by_executor.has(k) == old(self).jobs_by_executor.has(k)
                    &&& forall|k: Seq<char>|
                        k != caller@ && old(self).jobs_by_executor.has(k) ==> final(self).jobs_by_executor.at(k) == old(self).jobs_by_executor.at(k)
                    &&& final(self).jobs_by_owner == old(self).jobs_by_owner
                    &&& final(self).total_jobs == old(self).total_jobs
                    &&& final(self).all_freelancers == old(self).all_freelancers
                    &&& final(self).freelancer_by_id == old(self).freelancer_by_id
                    &&& final(self).total_freelancers == old(self).total_freelancers
                    &&& final(self).all_clients == old(self).all_clients
                    &&& final(self).client_by_id == old(self).client_by_id
                    &&& final(self).total_clients == old(self).total_clients
                    &&& final(self).owner == old(self).owner
                },
                Err(e) => {
                    &&& *final(self) == *old(self)
                    &&& (e == Error::Unauthorized || e == Error::NotFound || e
                        == Error::InvalidState)
                    &&& (e == Error::Unauthorized <==> !old(self).freelancer_by_id.has(caller@))
                    &&& (e == Error::NotFound <==> old(self).freelancer_by_id.has(caller@) && !old(self).job_by_id.has(job_id@))
                    &&& (e == Error::InvalidState <==> old(self).freelancer_by_id.has(caller@)
                        && old(self).job_by_id.has(job_id@) && old(self).job_by_id.at(job_id@).status != Status::Open)
                },
            },
    {
        if !self.freelancer_by_id.contains_key(&caller) {
            return Err(Error::Unauthorized);
        }
        let job0 = match self.job_by_id.get(&job_id) {
            Some(j) => j.clone(),
            None => {
                return Err(Error::NotFound);
            },
        };
        if !(job0.status == Status::Open) {
            return Err(Error::InvalidState);
        }
        let mut job = job0;
        job.executor = Some(caller.clone());
        job.status = Status::InProgress;
        proof {
            assert(job.deep_view() == taken_job(old(self).job_by_id.at(job_id@), caller@));
        }
        self.sync_job(&job_id, job.clone());
        let mut exec_list: Vec<String> = match self.jobs_by_executor.get(&caller) {
            Some(l) => clone_string_vec(l),
            None => Vec::new(),
        };
        let ghost exec_list_pre = exec_list.deep_view();
        exec_list.push(job_id.clone());
        proof {
            assert(exec_list.deep_view() =~= exec_list_pre.push(job_id@));
        }
        self.jobs_by_executor.insert(caller, exec_list);
        Ok(job)
    }

    /// Applies a partial update to the job under `job_id`: supplied fields
    /// replace the job's, absent fields are unchanged, and the new record
    /// stands in the identifier index and the ordinal store alike. Only the
    /// job's author may edit it — an explicit tightening, since editing is a
    /// write like removal and is guarded the same way. Fails `NotFound` for
    /// an unknown identifier and `Unauthorized` for a caller other than the
    /// author; every failure changes nothing.
    fn update_job(&mut self, caller: String, job_id: String, patch: JobPatch) -> (r: Result<
        Job,
        Error,
    >)
        ensures
            final(self).wf(),
            match r {
                Ok(job) => {
                    &&& old(self).job_by_id.has(job_id@)
                    &&& old(self).job_by_id.at(job_id@).author == caller@
                    &&& job.deep_view() == patched(
                        old(self).job_by_id.at(job_id@),
                        patch.deep_view(),
                    )
                    &&& final(self).all_jobs@ == old(self).all_jobs@.update(
                        idx_of(old(self).all_jobs@, job_id@),
                        job.deep_view(),
                    )
                    &&& forall|k: Seq<char>|
                        final(self).job_by_id.has(k) == old(self).job_by_id.has(k)
                    &&& final(self).job_by_id.at(job_id@) == job.deep_view()
                    &&& forall|k: Seq<char>|
                        k != job_id@ && old(self).job_by_id.has(k) ==> final(self).job_by_id.at(k)
                            == old(self).job_by_id.at(k)
                    &&& final(self).jobs_by_owner == old(self).jobs_by_owner
                    &&& final(self).jobs_by_executor == old(self).jobs_by_executor
                    &&& final(self).total_jobs == old(self).total_jobs
                    &&& final(self).all_freelancers == old(self).all_freelancers
                    &&& final(self).freelancer_by_id == old(self).freelancer_by_id
                    &&& final(self).total_freelancers == old(self).total_freelancers
                    &&& final(self).all_clients == old(self).all_clients
                    &&& final(self).client_by_id == old(self).client_by_id
                    &&& final(self).total_clients == old(self).total_clients
                    &&& final(self).owner == old(self).owner
                },
                Err(e) => {
                    &&& *final(self) == *old(self)
                    &&& (e == Error::NotFound || e == Error::Unauthorized)
                    &&& (e == Error::NotFound <==> !old(self).job_by_id.has(job_id@))
                    &&& (e == Error::Unauthorized <==> old(self).job_by_id.has(job_id@) && old(self).job_by_id.at(job_id@).author != caller@)
                },
            },
    {
        let job0 = match self.job_by_id.get(&job_id) {
            Some(j) => j.clone(),
            None => {
                return Err(Error::NotFound);
            },
        };
        if !(job0.author == caller) {
            return Err(Error::Unauthorized);
        }
        let mut job = job0;
        crate::records::apply_patch(&mut job, patch);
        self.sync_job(&job_id, job.clone());
        Ok(job)
    }

    /// Deletes the job under `job_id`, which only its author may do: the
    /// record leaves the identifier index and the author's owner lookup, and
    /// the ordinal store compacts — every record above the removed position
    /// moves down one, and the count shrinks by one. Fails `NotFound` for an
    /// unknown identifier and `Unauthorized` for a caller other than the
    /// author; every failure changes nothing.
    fn remove_job(&mut self, caller: String, job_id: String) -> (r: Result<Job, Error>)
        ensures
            final(self).wf(),
            match r {
                Ok(job) => {
                    &&& old(self).job_by_id.has(job_id@)
                    &&& old(self).job_by_id.at(job_id@).author == caller@
                    &&& job.deep_view() == old(self).job_by_id.at(job_id@)
                    &&& final(self).all_jobs@ == old(self).all_jobs@.remove(
                        idx_of(old(self).all_jobs@, job_id@),
                    )
                    &&& final(self).total_jobs == old(self).total_jobs - 1
                    &&& !final(self).job_by_id.has(job_id@)
                    &&& forall|k: Seq<char>|
                        k != job_id@ ==> final(self).job_by_id.has(k) == old(self).job_by_id.has(k)
                    &&& forall|k: Seq<char>|
                        k != job_id@ && old(self).job_by_id.has(k) ==> final(self).job_by_id.at(k)
                            == old(self).job_by_id.at(k)
                    &&& (if old(self).jobs_by_owner.has(caller@) {
                        &&& final(self).jobs_by_owner.has(caller@)
                        &&& removed_first(
                            old(self).jobs_by_owner.at(caller@),
                            job_id@,
                            final(self).jobs_by_owner.at(caller@),
                        )
                    } else {
                        final(self).jobs_by_owner == old(self).jobs_by_owner
                    })
                    &&& forall|k: Seq<char>|
                        k != caller@ ==> final(self).jobs_by_owner.has(k) == old(self).jobs_by_owner.has(k)
                    &&& forall|k: Seq<char>|
                        k != caller@ && old(self).jobs_by_owner.has(k) ==> final(self).jobs_by_owner.at(k) == old(self).jobs_by_owner.at(k)
                    &&& final(self).jobs_by_executor == old(self).jobs_by_executor
                    &&& final(self).all_freelancers == old(self).all_freelancers
                    &&& final(self).freelancer_by_id == old(self).freelancer_by_id
                    &&& final(self).total_freelancers == old(self).total_freelancers
                    &&& final(self).all_clients == old(self).all_clients
                    &&& final(self).client_by_id == old(self).client_by_id
                    &&& final(self).total_clients == old(self).total_clients
                    &&& final(self).owner == old(self).owner
                },
                Err(e) => {
                    &&& *final(self) == *old(self)
                    &&& (e == Error::NotFound || e == Error::Unauthorized)
                    &&& (e == Error::NotFound <==> !old(self).job_by_id.has(job_id@))
                    &&& (e == Error::Unauthorized <==> old(self).job_by_id.has(job_id@) && old(self).job_by_id.at(job_id@).author != caller@)
                },
            },
    {
        let ghost pre = *self;
        let job0 = match self.job_by_id.get(&job_id) {
            Some(j) => j.clone(),
            None => {
                return Err(Error::NotFound);
            },
        };
        if !(job0.author == caller) {
            return Err(Error::Unauthorized);
        }
        let pos = match self.all_jobs.find_position(&job_id) {
            Some(p) => p,
            None => {
                proof {
                    assert(has_id(pre.all_jobs@, job_id@));
                }
                vstd::pervasive::unreached()
            },
        };
        proof {
            let ix = idx_of(pre.all_jobs@, job_id@);
            assert(0 <= ix < pre.all_jobs@.len() && pre.all_jobs@[ix].job_id == job_id@);
            assert(ix == pos - 1);
        }
        self.all_jobs.remove_and_compact(pos);
        self.total_jobs = self.all_jobs.total();
        self.job_by_id.remove(&job_id);
        let updated: Option<Vec<String>> = match self.jobs_by_owner.get(&caller) {
            Some(l) => Some(remove_first_string(l, &job_id)),
            None => None,
        };
        if let Some(list) = updated {
            self.jobs_by_owner.insert(caller, list);
        }
        proof {
            let s = self.all_jobs@;
            let ix = idx_of(pre.all_jobs@, job_id@);
            let n = s.len() as int;
            assert forall|c: int| 0 <= c < n implies s[c] == pre.all_jobs@[if c < ix {
                c
            } else {
                c + 1
            }] by {}
            assert forall|a: int, b: int| 0 <= a < b < n implies s[a].job_id != s[b].job_id by {
                let a0 = if a < ix { a } else { a + 1 };
                let b0 = if b < ix { b } else { b + 1 };
                assert(pre.all_jobs@[a0].job_id != pre.all_jobs@[b0].job_id);
            }
            assert forall|i: int| 0 <= i < n implies (#[trigger] s[i]).wf() by {
                let i0 = if i < ix { i } else { i + 1 };
                assert(pre.all_jobs@[i0].wf());
            }
            assert forall|i: int|
                0 <= i < n implies self.job_by_id.has((#[trigger] s[i]).job_id)
                    && self.job_by_id.at(s[i].job_id) == s[i] by {
                let i0 = if i < ix { i } else { i + 1 };
                assert(s[i] == pre.all_jobs@[i0]);
                assert(pre.job_by_id.has(s[i].job_id));
                assert(i0 != ix);
                assert(pre.all_jobs@[ix].job_id == job_id@);
                assert(s[i].job_id != job_id@);
            }
            assert forall|k: Seq<char>| #[trigger] self.job_by_id.has(k) implies has_id(s, k) by {
                assert(k != job_id@);
                assert(pre.job_by_id.has(k));
                let w = choose|w: int| 0 <= w < pre.all_jobs@.len() && pre.all_jobs@[w].job_id == k;
                assert(w != ix);
                let w1 = if w < ix { w } else { w - 1 };
                assert(s[w1] == pre.all_jobs@[w]);
                assert(s[w1].job_id == k);
            }
        }
        Ok(job0)
    }

    /// Prepares the payment for a job. Only the author may pay, the job must
    /// have an executor, and the budget scaled by `SCALING_FACTOR` must fit
    /// the available balance. On success the transfer instruction — the
    /// executor and exactly the scaled budget — is handed back for the
    /// hosting environment to execute. The ledger itself is read, never
    /// written: a paid job deliberately keeps the status `InProgress`;
    /// advancing it to `Completed` is left to the payment collaborator.
    fn pay_for_job(&self, caller: String, job_id: String, balance: u128) -> (r: Result<
        Payment,
        Error,
    >)
        ensures
            match r {
                Ok(p) => {
                    &&& self.job_by_id.has(job_id@)
                    &&& self.job_by_id.at(job_id@).author == caller@
                    &&& self.job_by_id.at(job_id@).executor is Some
                    &&& self.job_by_id.at(job_id@).budget * SCALING_FACTOR <= balance
                    &&& p.receiver@ == self.job_by_id.at(job_id@).executor->0
                    &&& p.amount == self.job_by_id.at(job_id@).budget * SCALING_FACTOR
                },
                Err(e) => {
                    &&& (e == Error::NotFound || e == Error::Unauthorized || e
                        == Error::InvalidState || e == Error::InsufficientFunds)
                    &&& (e == Error::NotFound <==> !self.job_by_id.has(job_id@))
                    &&& (e == Error::Unauthorized <==> self.job_by_id.has(job_id@)
                        && self.job_by_id.at(job_id@).author != caller@)
                    &&& (e == Error::InvalidState <==> self.job_by_id.has(job_id@)
                        && self.job_by_id.at(job_id@).author == caller@ && self.job_by_id.at(job_id@).executor is None)
                    &&& (e == Error::InsufficientFunds <==> self.job_by_id.has(job_id@)
                        && self.job_by_id.at(job_id@).author == caller@ && self.job_by_id.at(job_id@).executor is Some && self.job_by_id.at(job_id@).budget * SCALING_FACTOR
                        > balance)
                },
            },
    {
        let job = match self.job_by_id.get(&job_id) {
            Some(j) => j,
            None => {
                return Err(Error::NotFound);
            },
        };
        if !(job.author == caller) {
            return Err(Error::Unauthorized);
        }
        match &job.executor {
            Some(executor) => {
                match job.budget.checked_mul(SCALING_FACTOR) {
                    Some(amount) => {
                        if amount <= balance {
                            Ok(Payment { receiver: executor.clone(), amount })
                        } else {
                            Err(Error::InsufficientFunds)
                        }
                    },
                    None => Err(Error::InsufficientFunds),
                }
            },
            None => Err(Error::InvalidState),
        }
    }

    /// All jobs in position order; reading mutates nothing.
    fn view_all_jobs(&self) -> (r: Vec<Job>)
        ensures
            r.deep_view() == self.all_jobs@,
    {
        self.all_jobs.list()
    }

    /// The job under `job_id` in the identifier index, or `NotFound`;
    /// reading mutates nothing.
    fn view_job_by_id(&self, job_id: String) -> (r: Result<Job, Error>)
        ensures
            match r {
                Ok(j) => self.job_by_id.has(job_id@) && j.deep_view() == self.job_by_id.at(job_id@),
                Err(e) => e == Error::NotFound && !self.job_by_id.has(job_id@),
            },
    {
        match self.job_by_id.get(&job_id) {
            Some(j) => Ok(j.clone()),
            None => Err(Error::NotFound),
        }
    }

    /// The caller's freelancer record, or `NotFound` when the caller never
    /// registered.
    fn view_freelancer_by_id(&self, caller: String) -> (r: Result<FreeLancer, Error>)
        ensures
            match r {
                Ok(f) => self.freelancer_by_id.has(caller@) && f.deep_view()
                    == self.freelancer_by_id.at(caller@),
                Err(e) => e == Error::NotFound && !self.freelancer_by_id.has(caller@),
            },
    {
        match self.freelancer_by_id.get(&caller) {
            Some(f) => Ok(f.clone()),
            None => Err(Error::NotFound),
        }
    }

    /// The ordinal position holding `job_id`, or nothing when no record
    /// carries it. Absence is an explicit result, never a sentinel position.
    fn index_of_job(&self, job_id: String) -> (r: Option<u128>)
        ensures
            match r {
                Some(p) => 1 <= p <= self.total_jobs && self.all_jobs@[p - 1].job_id == job_id@,
                None => !has_id(self.all_jobs@, job_id@),
            },
    {
        self.all_jobs.find_position(&job_id)
    }

    /// Owner-only maintenance: drops every job and all three job indices and
    /// resets the job count; registrations are kept. A non-owner caller fails
    /// `Unauthorized` and changes nothing.
    fn clear_jobs(&mut self, caller: String) -> (r: Result<String, Error>)
        ensures
            final(self).wf(),
            match r {
                Ok(s) => {
                    &&& caller@ == old(self).owner@
                    &&& s@ == "Cleared Data"@
                    &&& final(self).all_jobs@ == Seq::<JobView>::empty()
                    &&& final(self).total_jobs == 0
                    &&& forall|k: Seq<char>| !final(self).job_by_id.has(k)
                    &&& forall|k: Seq<char>| !final(self).jobs_by_executor.has(k)
                    &&& forall|k: Seq<char>| !final(self).jobs_by_owner.has(k)
                    &&& final(self).all_freelancers == old(self).all_freelancers
                    &&& final(self).freelancer_by_id == old(self).freelancer_by_id
                    &&& final(self).total_freelancers == old(self).total_freelancers
                    &&& final(self).all_clients == old(self).all_clients
                    &&& final(self).client_by_id == old(self).client_by_id
                    &&& final(self).total_clients == old(self).total_clients
                    &&& final(self).owner == old(self).owner
                },
                Err(e) => {
                    &&& e == Error::Unauthorized
                    &&& caller@ != old(self).owner@
                    &&& *final(self) == *old(self)
                },
            },
    {
        if !(self.owner == caller) {
            return Err(Error::Unauthorized);
        }
        self.all_jobs = JobStore::new();
        self.job_by_id = IdIndex::new();
        self.jobs_by_executor = IdIndex::new();
        self.jobs_by_owner = IdIndex::new();
        self.total_jobs = 0;
        Ok(String::from_str("Cleared Data"))
    }
}

} // verus!
