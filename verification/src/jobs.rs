//! The job registry: the lifecycle state of every submitted job, by its
//! identifier.
//!
//! A job is registered as pending and moves once, to `Done` or to `Failed`.
//! After that its state never changes, and no job is ever removed.

use vstd::prelude::*;

verus! {

/// The lifecycle state of a job.
#[derive(Clone, Debug, PartialEq, Eq)]
pub enum JobStatus {
    Pending,
    Done { summary: String },
    Failed { error: String },
}

/// What a `JobStatus` holds, as plain values.
pub ghost enum StatusView {
    Pending,
    Done { summary: Seq<char> },
    Failed { error: Seq<char> },
}

impl View for JobStatus {
    type V = StatusView;

    open spec fn view(&self) -> StatusView {
        match self {
            JobStatus::Pending => StatusView::Pending,
            JobStatus::Done { summary } => StatusView::Done { summary: summary@ },
            JobStatus::Failed { error } => StatusView::Failed { error: error@ },
        }
    }
}

impl StatusView {
    /// Whether the state is terminal: `Done` or `Failed`.
    pub open spec fn is_terminal(self) -> bool {
        !(self is Pending)
    }
}

impl JobStatus {
    /// Whether the state is terminal: `Done` or `Failed`.
    pub fn is_terminal(&self) -> (terminal: bool)
        ensures
            terminal == self@.is_terminal(),
    {
        match self {
            JobStatus::Pending => false,
            _ => true,
        }
    }

    /// A copy of the state.
    pub fn duplicate(&self) -> (copy: JobStatus)
        ensures
            copy@ == self@,
    {
        match self {
            JobStatus::Pending => JobStatus::Pending,
            JobStatus::Done { summary } => JobStatus::Done { summary: summary.clone() },
            JobStatus::Failed { error } => JobStatus::Failed { error: error.clone() },
        }
    }
}

/// The answer to a submission: the identifier under which the job is tracked.
#[derive(Clone, Copy, Debug, PartialEq, Eq, Structural)]
pub struct JobCreated {
    pub job_id: u128,
}

/// Whether the registry `after` may follow the registry `before`: every job
/// is still there, and a job that was terminal has kept its state.
pub open spec fn follows(before: Map<u128, StatusView>, after: Map<u128, StatusView>) -> bool {
    forall|id: u128| #[trigger]
        before.contains_key(id) ==> after.contains_key(id) && (before[id].is_terminal()
            ==> after[id] == before[id])
}

/// The state that a lookup of `id` gives.
pub open spec fn lookup(entries: Map<u128, StatusView>, id: u128) -> Option<StatusView> {
    if entries.contains_key(id) {
        Some(entries[id])
    } else {
        None
    }
}

/// The view of an optional state.
pub open spec fn opt_status(status: Option<JobStatus>) -> Option<StatusView> {
    match status {
        Some(s) => Some(s@),
        None => None,
    }
}

/// `dashmap::DashMap`: the map that holds the jobs. What it holds is known
/// by `job_entries` alone.
#[verifier::external_type_specification]
#[verifier::external_body]
#[verifier::reject_recursive_types(K)]
#[verifier::reject_recursive_types(V)]
#[verifier::reject_recursive_types(S)]
pub struct ExDashMap<K, V, S>(dashmap::DashMap<K, V, S>);

/// The entries of a map of jobs.
pub uninterp spec fn job_entries(jobs: dashmap::DashMap<u128, JobStatus>) -> Map<u128, StatusView>;

/// Calls `DashMap::new`. Trusted: the new map has no entry.
#[verifier::external_body]
fn new_jobs() -> (made: dashmap::DashMap<u128, JobStatus>)
    ensures
        job_entries(made) =~= Map::empty(),
{
    dashmap::DashMap::new()
}

/// Calls `DashMap::insert` on a map that nothing else holds. Trusted: the
/// key then maps to the value, no other entry changes, and the value that
/// the key mapped to before comes back.
#[verifier::external_body]
fn insert_job(
    jobs: &mut dashmap::DashMap<u128, JobStatus>,
    id: u128,
    status: JobStatus,
) -> (previous: Option<JobStatus>)
    ensures
        job_entries(*final(jobs)) == job_entries(*old(jobs)).insert(id, status@),
        opt_status(previous) == lookup(job_entries(*old(jobs)), id),
{
    jobs.insert(id, status)
}

/// Calls `DashMap::get` and clones the value of the entry. Trusted: it gives
/// the value that the key maps to, if any.
#[verifier::external_body]
fn get_job(jobs: &dashmap::DashMap<u128, JobStatus>, id: u128) -> (status: Option<JobStatus>)
    ensures
        opt_status(status) == lookup(job_entries(*jobs), id),
{
    match jobs.get(&id) {
        Some(entry) => Some(entry.value().clone()),
        None => None,
    }
}

/// Calls `uuid::Uuid::new_v4` and reads `Uuid::as_u128`. The identifier is
/// random: nothing is known of it.
#[verifier::external_body]
fn random_id() -> u128 {
    uuid::Uuid::new_v4().as_u128()
}

/// The registry of jobs.
pub struct AppState {
    jobs: dashmap::DashMap<u128, JobStatus>,
}

impl AppState {
    /// The state of every job, by identifier.
    pub closed spec fn entries(&self) -> Map<u128, StatusView> {
        job_entries(self.jobs)
    }

    /// A registry without jobs.
    pub fn new() -> (state: AppState)
        ensures
            state.entries() == Map::<u128, StatusView>::empty(),
    {
        AppState { jobs: new_jobs() }
    }

    /// Registers a pending job under `id`, unless a job has that identifier
    /// already: then nothing changes.
    pub fn register(&mut self, id: u128) -> (fresh: bool)
        ensures
            fresh == !old(self).entries().contains_key(id),
            fresh ==> final(self).entries() == old(self).entries().insert(id, StatusView::Pending),
            !fresh ==> final(self).entries() == old(self).entries(),
            follows(old(self).entries(), final(self).entries()),
    {
        match get_job(&self.jobs, id) {
            Some(_) => false,
            None => {
                insert_job(&mut self.jobs, id, JobStatus::Pending);
                true
            },
        }
    }

    /// Registers a pending job under a new random identifier and gives the
    /// identifier. It fails only where the identifier drawn belongs to a job
    /// already: then nothing is registered and nothing changes. On a registry
    /// without jobs it therefore always succeeds.
    pub fn submit(&mut self) -> (created: Option<JobCreated>)
        ensures
            match created {
                Some(job) => {
                    &&& !old(self).entries().contains_key(job.job_id)
                    &&& final(self).entries() == old(self).entries().insert(
                        job.job_id,
                        StatusView::Pending,
                    )
                },
                None => {
                    &&& final(self).entries() == old(self).entries()
                    &&& exists|taken: u128| old(self).entries().contains_key(taken)
                },
            },
            follows(old(self).entries(), final(self).entries()),
    {
        let id = random_id();
        if self.register(id) {
            Some(JobCreated { job_id: id })
        } else {
            assert(old(self).entries().contains_key(id));
            None
        }
    }

    /// The current state of the job `id`; `None` where there is no such job.
    pub fn poll(&self, id: u128) -> (status: Option<JobStatus>)
        ensures
            opt_status(status) == lookup(self.entries(), id),
    {
        get_job(&self.jobs, id)
    }

    /// Moves the pending job `id` to the terminal state `status`. Where there
    /// is no such job, where the job is terminal already, or where `status`
    /// is not terminal, nothing changes.
    pub fn finish(&mut self, id: u128, status: JobStatus) -> (moved: bool)
        ensures
            moved == (lookup(old(self).entries(), id) == Some(StatusView::Pending)
                && status@.is_terminal()),
            moved ==> final(self).entries() == old(self).entries().insert(id, status@),
            !moved ==> final(self).entries() == old(self).entries(),
            follows(old(self).entries(), final(self).entries()),
    {
        if !status.is_terminal() {
            return false;
        }
        match get_job(&self.jobs, id) {
            Some(JobStatus::Pending) => {
                insert_job(&mut self.jobs, id, status);
                true
            },
            _ => false,
        }
    }
}

/// The shard that holds the job `id` where the jobs are spread over `shards`
/// registries, each behind a lock of its own: the identifier modulo the
/// number of shards. Every job has one shard, and it never changes.
pub open spec fn shard_index(id: u128, shards: usize) -> int {
    if shards > 0 {
        id as int % shards as int
    } else {
        0
    }
}

/// Finds the shard of a job among `shards` registries.
pub fn shard_of(id: u128, shards: usize) -> (shard: usize)
    ensures
        shard == shard_index(id, shards),
        shards > 0 ==> shard < shards,
{
    if shards > 0 {
        (id % (shards as u128)) as usize
    } else {
        0
    }
}

/// A registry follows itself.
pub proof fn lemma_follows_reflexive(entries: Map<u128, StatusView>)
    ensures
        follows(entries, entries),
{
}

/// What follows a follower follows: over any number of operations, every
/// job stays and every terminal state is kept.
pub proof fn lemma_follows_transitive(
    first: Map<u128, StatusView>,
    second: Map<u128, StatusView>,
    third: Map<u128, StatusView>,
)
    requires
        follows(first, second),
        follows(second, third),
    ensures
        follows(first, third),
{
    assert forall|id: u128| #[trigger] first.contains_key(id) implies third.contains_key(id) && (
    first[id].is_terminal() ==> third[id] == first[id]) by {
        assert(second.contains_key(id));
    }
}

/// Once a job is `Done` or `Failed`, a lookup in any later registry gives
/// that same state: never `Pending`, never another terminal state, never
/// nothing.
pub proof fn lemma_terminal_is_final(
    before: Map<u128, StatusView>,
    after: Map<u128, StatusView>,
    id: u128,
)
    requires
        follows(before, after),
        before.contains_key(id),
        before[id].is_terminal(),
    ensures
        lookup(after, id) == Some(before[id]),
{
}

} // verus!
