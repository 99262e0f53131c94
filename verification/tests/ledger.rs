use outsourcing::contract::{Contract, OutSourcing, SCALING_FACTOR};
use outsourcing::records::{Error, Job, JobPatch, Status};

fn new_ledger() -> Contract {
    Contract::init("marketplace.owner".to_string())
}

fn register_client(c: &mut Contract, id: &str) {
    c.register_client(id.to_string(), "Acme".to_string(), "software".to_string())
        .expect("client registration should succeed");
}

fn register_freelancer(c: &mut Contract, id: &str) {
    c.register_executor(
        id.to_string(),
        "Dana Doe".to_string(),
        vec!["rust".to_string(), "sql".to_string()],
    )
    .expect("freelancer registration should succeed");
}

fn create_job_at(c: &mut Contract, author: &str, title: &str, stamp: &str) -> Job {
    c.create_job(
        author.to_string(),
        title.to_string(),
        "a description".to_string(),
        7,
        vec!["tag".to_string()],
        30,
        stamp.to_string(),
    )
    .expect("job creation by a registered client should succeed")
}

fn assert_job_eq(a: &Job, b: &Job) {
    assert_eq!(a.job_id, b.job_id);
    assert_eq!(a.author, b.author);
    assert_eq!(a.executor, b.executor);
    assert_eq!(a.title, b.title);
    assert_eq!(a.desc, b.desc);
    assert_eq!(a.budget, b.budget);
    assert_eq!(a.tags, b.tags);
    assert_eq!(a.created_at, b.created_at);
    assert_eq!(a.duration, b.duration);
    assert_eq!(a.status, b.status);
}

#[test]
fn client_creates_open_job() {
    let mut c = new_ledger();
    register_client(&mut c, "client.a");
    let job = create_job_at(&mut c, "client.a", "build a parser", "1700000001");
    assert_eq!(job.status, Status::Open);
    assert_eq!(job.executor, None);
    assert_eq!(job.job_id, "J-1700000001");
    assert_eq!(job.author, "client.a");
    assert_eq!(c.total_jobs, 1);
}

#[test]
fn unregistered_caller_cannot_create() {
    let mut c = new_ledger();
    let r = c.create_job(
        "stranger".to_string(),
        "title".to_string(),
        "desc".to_string(),
        1,
        vec![],
        1,
        "1700000002".to_string(),
    );
    assert_eq!(r.unwrap_err(), Error::Unauthorized);
    assert_eq!(c.total_jobs, 0);
}

#[test]
fn duplicate_registrations_fail() {
    let mut c = new_ledger();
    register_client(&mut c, "client.a");
    let r = c.register_client(
        "client.a".to_string(),
        "Acme Again".to_string(),
        "software".to_string(),
    );
    assert_eq!(r.unwrap_err(), Error::AlreadyExists);
    register_freelancer(&mut c, "worker.a");
    let r = c.register_executor("worker.a".to_string(), "Other Name".to_string(), vec![]);
    assert_eq!(r.unwrap_err(), Error::AlreadyExists);
    assert_eq!(c.total_clients, 1);
    assert_eq!(c.total_freelancers, 1);
}

#[test]
fn freelancer_takes_open_job_once() {
    let mut c = new_ledger();
    register_client(&mut c, "client.a");
    register_freelancer(&mut c, "worker.a");
    register_freelancer(&mut c, "worker.b");
    let job = create_job_at(&mut c, "client.a", "fix a bug", "1700000003");

    let taken = c
        .take_job("worker.a".to_string(), job.job_id.clone())
        .expect("an open job can be taken");
    assert_eq!(taken.status, Status::InProgress);
    assert_eq!(taken.executor, Some("worker.a".to_string()));

    let again = c.take_job("worker.b".to_string(), job.job_id.clone());
    assert_eq!(again.unwrap_err(), Error::InvalidState);

    let not_registered = c.take_job("stranger".to_string(), job.job_id.clone());
    assert_eq!(not_registered.unwrap_err(), Error::Unauthorized);

    let missing = c.take_job("worker.b".to_string(), "J-none".to_string());
    assert_eq!(missing.unwrap_err(), Error::NotFound);
}

#[test]
fn removal_compacts_positions() {
    let mut c = new_ledger();
    register_client(&mut c, "client.a");
    let j1 = create_job_at(&mut c, "client.a", "first", "1700000010");
    let j2 = create_job_at(&mut c, "client.a", "second", "1700000011");
    let j3 = create_job_at(&mut c, "client.a", "third", "1700000012");
    assert_eq!(c.total_jobs, 3);
    assert_eq!(c.index_of_job(j2.job_id.clone()), Some(2));

    let removed = c
        .remove_job("client.a".to_string(), j2.job_id.clone())
        .expect("the author removes the middle job");
    assert_eq!(removed.job_id, j2.job_id);

    assert_eq!(c.total_jobs, 2);
    let all = c.view_all_jobs();
    assert_eq!(all.len(), 2);
    assert_eq!(all[0].job_id, j1.job_id);
    assert_eq!(all[1].job_id, j3.job_id);
    assert_eq!(c.index_of_job(j1.job_id.clone()), Some(1));
    assert_eq!(c.index_of_job(j3.job_id.clone()), Some(2));
    assert_eq!(c.index_of_job(j2.job_id.clone()), None);
    assert!(c.view_job_by_id(j2.job_id.clone()).is_err());
    let still_there = c.view_job_by_id(j3.job_id.clone()).unwrap();
    assert_job_eq(&still_there, &j3);
}

#[test]
fn non_author_cannot_remove() {
    let mut c = new_ledger();
    register_client(&mut c, "client.a");
    register_client(&mut c, "client.b");
    let j1 = create_job_at(&mut c, "client.a", "first", "1700000020");
    let j2 = create_job_at(&mut c, "client.a", "second", "1700000021");

    let r = c.remove_job("client.b".to_string(), j1.job_id.clone());
    assert_eq!(r.unwrap_err(), Error::Unauthorized);

    assert_eq!(c.total_jobs, 2);
    let all = c.view_all_jobs();
    assert_eq!(all.len(), 2);
    assert_eq!(all[0].job_id, j1.job_id);
    assert_eq!(all[1].job_id, j2.job_id);
    assert_eq!(c.index_of_job(j1.job_id.clone()), Some(1));
    assert_eq!(c.index_of_job(j2.job_id.clone()), Some(2));

    let missing = c.remove_job("client.a".to_string(), "J-none".to_string());
    assert_eq!(missing.unwrap_err(), Error::NotFound);
}

#[test]
fn payment_needs_executor_and_funds() {
    let mut c = new_ledger();
    register_client(&mut c, "client.a");
    register_freelancer(&mut c, "worker.a");
    let job = create_job_at(&mut c, "client.a", "paid work", "1700000030");

    let unassigned = c.pay_for_job("client.a".to_string(), job.job_id.clone(), u128::MAX);
    assert_eq!(unassigned.unwrap_err(), Error::InvalidState);

    c.take_job("worker.a".to_string(), job.job_id.clone())
        .expect("take succeeds");

    let poor = c.pay_for_job("client.a".to_string(), job.job_id.clone(), 1);
    assert_eq!(poor.unwrap_err(), Error::InsufficientFunds);

    let not_author = c.pay_for_job("worker.a".to_string(), job.job_id.clone(), u128::MAX);
    assert_eq!(not_author.unwrap_err(), Error::Unauthorized);

    let payment = c
        .pay_for_job("client.a".to_string(), job.job_id.clone(), u128::MAX)
        .expect("a funded payment succeeds");
    assert_eq!(payment.amount, 7 * SCALING_FACTOR);
    assert_eq!(payment.receiver, "worker.a");

    // Payment deliberately leaves the status untouched.
    let after = c.view_job_by_id(job.job_id.clone()).unwrap();
    assert_eq!(after.status, Status::InProgress);
}

#[test]
fn payment_overflow_is_insufficient_funds() {
    let mut c = new_ledger();
    register_client(&mut c, "client.a");
    register_freelancer(&mut c, "worker.a");
    let job = c
        .create_job(
            "client.a".to_string(),
            "enormous".to_string(),
            "desc".to_string(),
            u128::MAX,
            vec![],
            1,
            "1700000040".to_string(),
        )
        .unwrap();
    c.take_job("worker.a".to_string(), job.job_id.clone()).unwrap();
    let r = c.pay_for_job("client.a".to_string(), job.job_id.clone(), u128::MAX);
    assert_eq!(r.unwrap_err(), Error::InsufficientFunds);
}

#[test]
fn update_merges_supplied_fields_only() {
    let mut c = new_ledger();
    register_client(&mut c, "client.a");
    let job = create_job_at(&mut c, "client.a", "old title", "1700000050");

    let patch = JobPatch {
        title: Some("new title".to_string()),
        desc: None,
        budget: Some(99),
        tags: None,
        duration: None,
    };
    let updated = c
        .update_job("client.a".to_string(), job.job_id.clone(), patch)
        .expect("the author edits the job");
    assert_eq!(updated.title, "new title");
    assert_eq!(updated.desc, "a description");
    assert_eq!(updated.budget, 99);
    assert_eq!(updated.tags, vec!["tag".to_string()]);
    assert_eq!(updated.duration, 30);
    assert_eq!(updated.status, Status::Open);

    // Both access paths carry the new record.
    let viewed = c.view_job_by_id(job.job_id.clone()).unwrap();
    assert_job_eq(&viewed, &updated);
    let all = c.view_all_jobs();
    assert_job_eq(&all[0], &updated);

    let patch = JobPatch { title: None, desc: None, budget: None, tags: None, duration: None };
    let foreign = c.update_job("client.b".to_string(), job.job_id.clone(), patch);
    assert_eq!(foreign.unwrap_err(), Error::Unauthorized);

    let patch = JobPatch { title: None, desc: None, budget: None, tags: None, duration: None };
    let missing = c.update_job("client.a".to_string(), "J-none".to_string(), patch);
    assert_eq!(missing.unwrap_err(), Error::NotFound);
}

#[test]
fn create_then_view_round_trip() {
    let mut c = new_ledger();
    register_client(&mut c, "client.a");
    let created = create_job_at(&mut c, "client.a", "round trip", "1700000060");
    let viewed = c
        .view_job_by_id(created.job_id.clone())
        .expect("a created job is viewable by its identifier");
    assert_job_eq(&viewed, &created);
}

#[test]
fn views_are_idempotent() {
    let mut c = new_ledger();
    register_client(&mut c, "client.a");
    let job = create_job_at(&mut c, "client.a", "steady", "1700000070");

    let a = c.view_all_jobs();
    let b = c.view_all_jobs();
    assert_eq!(a.len(), b.len());
    for i in 0..a.len() {
        assert_job_eq(&a[i], &b[i]);
    }
    let x = c.view_job_by_id(job.job_id.clone()).unwrap();
    let y = c.view_job_by_id(job.job_id.clone()).unwrap();
    assert_job_eq(&x, &y);
    assert_eq!(c.total_jobs, 1);
}

#[test]
fn view_missing_job_fails() {
    let c = new_ledger();
    let r = c.view_job_by_id("J-none".to_string());
    assert_eq!(r.unwrap_err(), Error::NotFound);
    assert_eq!(c.index_of_job("J-none".to_string()), None);
}

#[test]
fn freelancer_record_is_viewable() {
    let mut c = new_ledger();
    register_freelancer(&mut c, "worker.a");
    let f = c.view_freelancer_by_id("worker.a".to_string()).unwrap();
    assert_eq!(f.freelancer_id, "worker.a");
    assert_eq!(f.fullname, "Dana Doe");
    assert_eq!(f.skills, vec!["rust".to_string(), "sql".to_string()]);
    assert_eq!(f.availability, Some(true));
    assert_eq!(f.credit, 0);
    let missing = c.view_freelancer_by_id("stranger".to_string());
    assert_eq!(missing.unwrap_err(), Error::NotFound);
}

#[test]
fn only_owner_clears_jobs() {
    let mut c = new_ledger();
    register_client(&mut c, "client.a");
    create_job_at(&mut c, "client.a", "doomed", "1700000080");

    let refused = c.clear_jobs("client.a".to_string());
    assert_eq!(refused.unwrap_err(), Error::Unauthorized);
    assert_eq!(c.total_jobs, 1);

    let cleared = c.clear_jobs("marketplace.owner".to_string()).unwrap();
    assert_eq!(cleared, "Cleared Data");
    assert_eq!(c.total_jobs, 0);
    assert!(c.view_all_jobs().is_empty());
    // Registrations survive maintenance.
    assert_eq!(c.total_clients, 1);
}

#[test]
fn error_messages_are_stable() {
    assert_eq!(Error::Unauthorized.message(), "you don't have authorization");
    assert_eq!(Error::NotFound.message(), "this record doesn't exist");
    assert_eq!(Error::AlreadyExists.message(), "this record has already existed");
    assert_eq!(
        Error::InvalidState.message(),
        "this job's status does not allow the operation"
    );
    assert_eq!(Error::InsufficientFunds.message(), "not enough currency");
}
