//! In-memory stores that implement the store traits without a database:
//! every operation is exact, and a missing record is reported by name.
use vstd::prelude::*;
use crate::dag::{
    DAGExecution, DAGExecutionStats, DAGExecutionView, DAGNode, DAGNodeExecution,
    DAGNodeExecutionView, DAGNodeStatus, DAGNodeView, DAGStatus, NodeExecutionUpdate,
};
use crate::dag_store::{
    node_update_view, nodes_in_status, nodes_of, stats_match, DAGExecutionRepository, DAGTemplateRepository,
    ExecutionStatusWrite, NodeStatusWrite,
};
use crate::database::{
    enqueued_job, no_duplicate_strings, some_job_has_topic, Database, HistoryEntry, HistoryEntryView, ImageInfo, ImageInfoView,
    ImageRegistryRepository, JobExecutionHistoryRepository, JobQueueRepository,
};
use crate::json::JsonValue;
use crate::strmap::{distinct_keys, Duplicate, StrMap};
use crate::system::{new_uuid, now, v4_uuid_text};
use crate::text::str_eq;
use crate::types::{
    JobStatusInfo, JobRequest, JobRequestView, JobStatus, JobStatusUpdate, JobView, QueuedJob, Timestamp,
};
use crate::views::{contains_string, dup_opt_map, dup_opt_str_vec, has_string, opt_str_view, owned, str_vec_view};

verus! {

// ---------------------------------------------------------------------------
// Database
// ---------------------------------------------------------------------------

/// A database whose health check gives a fixed answer.
#[derive(Debug, Clone, PartialEq, Eq)]
pub struct MockDatabase {
    /// What `health_check` answers.
    pub health_check_result: bool,
}

impl MockDatabase {
    /// A healthy database.
    pub fn new() -> (d: Self)
        ensures
            d.health_check_result,
    {
        MockDatabase { health_check_result: true }
    }

    /// A database whose health check fails.
    pub fn with_failed_health_check() -> (d: Self)
        ensures
            !d.health_check_result,
    {
        MockDatabase { health_check_result: false }
    }
}

impl Default for MockDatabase {
    fn default() -> (d: Self)
        ensures
            d.health_check_result,
    {
        MockDatabase::new()
    }
}

impl Database for MockDatabase {
    fn health_check(&self) -> (b: bool)
        ensures
            b == self.health_check_result,
    {
        self.health_check_result
    }

    fn close(&self) {
    }
}

// ---------------------------------------------------------------------------
// Image registry
// ---------------------------------------------------------------------------

pub open spec fn image_views(m: Map<Seq<char>, ImageInfo>) -> Map<Seq<char>, ImageInfoView> {
    m.map_values(|i: ImageInfo| i@)
}

/// An image registry in memory.
#[derive(Debug)]
pub struct MockImageRegistryRepository {
    images: StrMap<ImageInfo>,
}

impl MockImageRegistryRepository {
    pub closed spec fn stored(&self) -> Map<Seq<char>, ImageInfoView> {
        image_views(self.images@)
    }

    /// An empty registry.
    pub fn new() -> (r: Self)
        ensures
            r.images() == Map::<Seq<char>, ImageInfoView>::empty(),
    {
        let r = MockImageRegistryRepository { images: StrMap::new() };
        assert(r.images() =~= Map::<Seq<char>, ImageInfoView>::empty());
        r
    }

    /// Registers an image under its id (replacing one with the same id).
    pub fn add_image(&mut self, image: ImageInfo)
        ensures
            final(self).images() == old(self).images().insert(image.id@, image@),
    {
        let ghost v = image@;
        let id = image.id.clone();
        self.images.insert(id, image);
        assert(self.images() =~= old(self).images().insert(v.id, v));
    }

    /// Forgets every image.
    pub fn clear(&mut self)
        ensures
            final(self).images() == Map::<Seq<char>, ImageInfoView>::empty(),
    {
        self.images = StrMap::new();
        assert(self.images() =~= Map::<Seq<char>, ImageInfoView>::empty());
    }
}

impl Default for MockImageRegistryRepository {
    fn default() -> (r: Self)
        ensures
            r.images() == Map::<Seq<char>, ImageInfoView>::empty(),
    {
        MockImageRegistryRepository::new()
    }
}

impl ImageRegistryRepository for MockImageRegistryRepository {
    open spec fn images(&self) -> Map<Seq<char>, ImageInfoView> {
        self.stored()
    }

    open spec fn answers(&self) -> bool {
        true
    }

    fn get_image(&self, image_id: &str) -> (r: Result<ImageInfo, String>)
        ensures
            r is Ok <==> self.images().contains_key(image_id@),
            r matches Err(e) ==> e@ == "Image not found: "@ + image_id@,
    {
        match self.images.get(image_id) {
            Some(i) => Ok(i.duplicate()),
            None => Err(String::from_str("Image not found: ").concat(image_id)),
        }
    }
}

// ---------------------------------------------------------------------------
// Execution history
// ---------------------------------------------------------------------------

/// An execution history in memory.
#[derive(Debug)]
pub struct MockJobExecutionHistoryRepository {
    entries: Vec<HistoryEntry>,
}

impl MockJobExecutionHistoryRepository {
    pub closed spec fn stored(&self) -> Seq<HistoryEntryView> {
        self.entries@.map_values(|e: HistoryEntry| e@)
    }

    /// An empty history.
    pub fn new() -> (r: Self)
        ensures
            r.entries() == Seq::<HistoryEntryView>::empty(),
    {
        let r = MockJobExecutionHistoryRepository { entries: Vec::new() };
        assert(r.entries() =~= Seq::<HistoryEntryView>::empty());
        r
    }

    /// Every entry, oldest first.
    pub fn get_all_entries(&self) -> (v: Vec<HistoryEntry>)
        ensures
            v@.map_values(|e: HistoryEntry| e@) == self.entries(),
    {
        let mut v: Vec<HistoryEntry> = Vec::new();
        let mut i: usize = 0;
        while i < self.entries.len()
            invariant
                i <= self.entries.len(),
                v@.map_values(|e: HistoryEntry| e@) == self.entries().take(i as int),
            decreases self.entries.len() - i,
        {
            v.push(self.entries[i].duplicate());
            assert(self.entries().take(i + 1) =~= self.entries().take(i as int).push(self.entries[i as int]@));
            assert(v@.map_values(|e: HistoryEntry| e@) =~= self.entries().take(i + 1));
            i = i + 1;
        }
        assert(self.entries().take(i as int) =~= self.entries());
        v
    }

    /// The entries of one job, oldest first.
    pub fn get_entries_for_job(&self, job_id: &str) -> (v: Vec<HistoryEntry>)
        ensures
            v@.map_values(|e: HistoryEntry| e@) == self.entries().filter(|e: HistoryEntryView| e.job_id == job_id@),
    {
        let ghost p = |e: HistoryEntryView| e.job_id == job_id@;
        let mut v: Vec<HistoryEntry> = Vec::new();
        let mut i: usize = 0;
        while i < self.entries.len()
            invariant
                i <= self.entries.len(),
                p == (|e: HistoryEntryView| e.job_id == job_id@),
                v@.map_values(|e: HistoryEntry| e@) == self.entries().take(i as int).filter(p),
            decreases self.entries.len() - i,
        {
            let ghost before = self.entries().take(i as int);
            assert(self.entries().take(i + 1) =~= before.push(self.entries[i as int]@));
            assert(before.push(self.entries[i as int]@).filter(p) == if p(self.entries[i as int]@) {
                before.filter(p).push(self.entries[i as int]@)
            } else {
                before.filter(p)
            }) by {
                reveal(Seq::filter);
                assert(before.push(self.entries[i as int]@).drop_last() =~= before);
            }
            if str_eq(self.entries[i].job_id.as_str(), job_id) {
                v.push(self.entries[i].duplicate());
            }
            assert(v@.map_values(|e: HistoryEntry| e@) =~= self.entries().take(i + 1).filter(p));
            i = i + 1;
        }
        assert(self.entries().take(i as int) =~= self.entries());
        v
    }

    /// Forgets every entry.
    pub fn clear(&mut self)
        ensures
            final(self).entries() == Seq::<HistoryEntryView>::empty(),
    {
        self.entries = Vec::new();
        assert(self.entries() =~= Seq::<HistoryEntryView>::empty());
    }
}

impl Default for MockJobExecutionHistoryRepository {
    fn default() -> (r: Self)
        ensures
            r.entries() == Seq::<HistoryEntryView>::empty(),
    {
        MockJobExecutionHistoryRepository::new()
    }
}

impl JobExecutionHistoryRepository for MockJobExecutionHistoryRepository {
    open spec fn entries(&self) -> Seq<HistoryEntryView> {
        self.stored()
    }

    open spec fn answers(&self) -> bool {
        true
    }

    fn create_entry(&mut self, entry: &HistoryEntry) -> (r: Result<(), String>)
        ensures
            r is Ok,
    {
        self.entries.push(entry.duplicate());
        assert(self.entries() =~= old(self).entries().push(entry@));
        Ok(())
    }
}


// ---------------------------------------------------------------------------
// Job queue
// ---------------------------------------------------------------------------

pub open spec fn job_views(m: Map<Seq<char>, QueuedJob>) -> Map<Seq<char>, JobView> {
    m.map_values(|j: QueuedJob| j@)
}

/// The job `after` is `before` with the update `u` applied: the status and
/// the claim, start, completion, error and result fields are those of the
/// update; the retry count changes only when the update sets it. Only the
/// time of the last update may change besides.
pub open spec fn applied_update(before: JobView, u: JobStatusUpdate, after: JobView) -> bool {
    after == JobView {
        status: u.status,
        k8s_job_name: opt_str_view(u.k8s_job_name),
        claimed_by: opt_str_view(u.claimed_by),
        claimed_at: u.claimed_at,
        started_at: u.started_at,
        completed_at: u.completed_at,
        error_message: opt_str_view(u.error_message),
        result_data: u.result_data,
        retry_count: match u.retry_count {
            Some(c) => c,
            None => before.retry_count,
        },
        updated_at: after.updated_at,
        ..before
    }
}

/// `j` is one of the values of `m`.
pub open spec fn is_stored<V>(m: Map<Seq<char>, V>, j: V) -> bool {
    exists|k: Seq<char>| #[trigger] m.contains_key(k) && m[k] == j
}

/// The topics of the jobs of `m` under the keys `ks`, in the keys' order,
/// each at its first occurrence.
pub open spec fn first_topics(ks: Seq<Seq<char>>, m: Map<Seq<char>, JobView>) -> Seq<Seq<char>>
    decreases ks.len(),
{
    if ks.len() == 0 {
        Seq::empty()
    } else {
        let d = first_topics(ks.drop_last(), m);
        if d.contains(m[ks.last()].topic) {
            d
        } else {
            d.push(m[ks.last()].topic)
        }
    }
}

/// A job queue in memory. Tests may script the next answer of
/// `enqueue_job` and of `claim_jobs`.
pub struct MockJobQueueRepository {
    jobs: StrMap<QueuedJob>,
    enqueue_result: Option<Result<String, String>>,
    claim_result: Option<Result<Vec<QueuedJob>, String>>,
    /// The ids given so far, with their requests.
    given: Ghost<Seq<(Seq<char>, JobRequestView)>>,
}

impl MockJobQueueRepository {
    pub closed spec fn stored(&self) -> Map<Seq<char>, JobView> {
        job_views(self.jobs@)
    }

    /// The topics of the stored jobs in the order the jobs were stored, each
    /// at its first occurrence.
    pub closed spec fn stored_topics(&self) -> Seq<Seq<char>> {
        first_topics(self.jobs.key_seq(), self.stored())
    }

    /// The ids given so far, with their requests.
    pub closed spec fn given_ids(&self) -> Seq<(Seq<char>, JobRequestView)> {
        self.given@
    }

    /// The scripted answer of the next `enqueue_job`, if any.
    pub closed spec fn scripted_enqueue(&self) -> Option<Result<String, String>> {
        self.enqueue_result
    }

    /// The scripted answer of the next `claim_jobs`, if any.
    pub closed spec fn scripted_claim(&self) -> Option<Result<Vec<QueuedJob>, String>> {
        self.claim_result
    }

    /// An empty queue with nothing scripted.
    pub fn new() -> (r: Self)
        ensures
            r.jobs() == Map::<Seq<char>, JobView>::empty(),
            r.scripted_enqueue() is None,
            r.scripted_claim() is None,
    {
        let r = MockJobQueueRepository {
            jobs: StrMap::new(),
            enqueue_result: None,
            claim_result: None,
            given: Ghost(Seq::empty()),
        };
        assert(r.jobs() =~= Map::<Seq<char>, JobView>::empty());
        r
    }

    /// Stores a job under its id (replacing one with the same id).
    pub fn add_job(&mut self, job: QueuedJob)
        ensures
            final(self).jobs() == old(self).jobs().insert(job.id@, job@),
            final(self).scripted_enqueue() == old(self).scripted_enqueue(),
            final(self).scripted_claim() == old(self).scripted_claim(),
    {
        let ghost v = job@;
        let id = job.id.clone();
        self.jobs.insert(id, job);
        assert(self.jobs() =~= old(self).jobs().insert(v.id, v));
    }

    /// Scripts the answer of the next `enqueue_job`.
    pub fn set_enqueue_result(&mut self, result: Result<String, String>)
        ensures
            final(self).jobs() == old(self).jobs(),
            final(self).scripted_enqueue() == Some(result),
            final(self).scripted_claim() == old(self).scripted_claim(),
    {
        self.enqueue_result = Some(result);
    }

    /// Scripts the answer of the next `claim_jobs`.
    pub fn set_claim_result(&mut self, result: Result<Vec<QueuedJob>, String>)
        ensures
            final(self).jobs() == old(self).jobs(),
            final(self).scripted_enqueue() == old(self).scripted_enqueue(),
            final(self).scripted_claim() == Some(result),
    {
        self.claim_result = Some(result);
    }

    /// Every stored job, once each.
    pub fn get_all_jobs(&self) -> (v: Vec<QueuedJob>)
        ensures
            forall|i: int| 0 <= i < v.len() ==> #[trigger] is_stored(self.jobs(), v[i]@),
            forall|k: Seq<char>| #[trigger] self.jobs().contains_key(k) ==> exists|i: int|
                0 <= i < v.len() && v[i]@ == self.jobs()[k],
    {
        let n = self.jobs.len();
        let ghost ks = self.jobs.key_seq();
        let mut v: Vec<QueuedJob> = Vec::new();
        let mut i: usize = 0;
        while i < n
            invariant
                n == ks.len(),
                ks == self.jobs.key_seq(),
                i <= n,
                v.len() == i,
                forall|j: int| 0 <= j < i ==> (#[trigger] v[j])@ == self.jobs()[ks[j]],
                forall|j: int| 0 <= j < n ==> #[trigger] self.jobs@.contains_key(ks[j]),
            decreases n - i,
        {
            let job = self.jobs.value_at(i);
            v.push(job.duplicate());
            i = i + 1;
        }
        assert forall|j: int| 0 <= j < v.len() implies #[trigger] is_stored(self.jobs(), v[j]@) by {
            assert(self.jobs().contains_key(ks[j]));
        }
        assert forall|k: Seq<char>| #[trigger] self.jobs().contains_key(k) implies exists|j: int|
            0 <= j < v.len() && v[j]@ == self.jobs()[k] by {
            assert(self.jobs@.contains_key(k));
            assert(ks.contains(k));
            let j = choose|j: int| 0 <= j < ks.len() && ks[j] == k;
            assert(v[j]@ == self.jobs()[k]);
        }
        v
    }

    /// Forgets every job (the scripts stay).
    pub fn clear(&mut self)
        ensures
            final(self).jobs() == Map::<Seq<char>, JobView>::empty(),
            final(self).scripted_enqueue() == old(self).scripted_enqueue(),
            final(self).scripted_claim() == old(self).scripted_claim(),
    {
        self.jobs = StrMap::new();
        assert(self.jobs() =~= Map::<Seq<char>, JobView>::empty());
    }

    fn job_from_request(request: &JobRequest, id: String, at: Timestamp) -> (j: QueuedJob)
        ensures
            enqueued_job(j@, request@, id@),
    {
        JobStatusInfo {
            id,
            topic: request.topic.clone(),
            status: JobStatus::Pending,
            image_id: request.image_id.clone(),
            job_name: request.job_name.duplicate(),
            k8s_job_name: None,
            k8s_namespace: None,
            claimed_by: None,
            claimed_at: None,
            started_at: None,
            completed_at: None,
            retry_count: 0,
            max_retries: match request.max_retries {
                Some(m) => m,
                None => 3,
            },
            priority: match request.priority {
                Some(p) => p,
                None => 0,
            },
            error_message: None,
            result_data: None,
            created_at: at,
            updated_at: at,
            created_by: request.created_by.clone(),
            command: dup_opt_str_vec(&request.command),
            args: dup_opt_str_vec(&request.args),
            environment_variables: dup_opt_map(&request.environment_variables),
            resource_overrides: request.resource_overrides.duplicate(),
            labels: dup_opt_map(&request.labels),
            inputs: dup_opt_map(&request.inputs),
            outputs: None,
            dag_execution_id: None,
            dag_node_execution_id: None,
        }
    }

    fn not_found(job_id: &str) -> (e: String)
        ensures
            e@ == "Job not found: "@ + job_id@,
    {
        String::from_str("Job not found: ").concat(job_id)
    }
}

impl Default for MockJobQueueRepository {
    fn default() -> (r: Self)
        ensures
            r.jobs() == Map::<Seq<char>, JobView>::empty(),
            r.scripted_enqueue() is None,
            r.scripted_claim() is None,
    {
        MockJobQueueRepository::new()
    }
}

/// In the in-memory queue, a job read back right after it was enqueued is
/// the pending job that the request describes, and enqueuing leaves every
/// other job as it was. `before` and `after` are the queue around the
/// write; `read` is what reading `id` gives after it.
pub proof fn law_read_after_enqueue(
    before: Map<Seq<char>, JobView>,
    after: Map<Seq<char>, JobView>,
    id: Seq<char>,
    request: JobRequestView,
    read: JobView,
)
    requires
        after == before.insert(id, after[id]),
        enqueued_job(after[id], request, id),
        read == after[id],
    ensures
        enqueued_job(read, request, id),
        read.status == JobStatus::Pending,
        forall|k: Seq<char>| #[trigger] before.contains_key(k) && k != id ==> after[k] == before[k],
{
}

/// In the in-memory queue, a job read back right after an update shows the
/// update: its status, claim, Kubernetes name and times are the update's;
/// other jobs are as they were.
pub proof fn law_read_after_update(
    before: Map<Seq<char>, JobView>,
    after: Map<Seq<char>, JobView>,
    u: JobStatusUpdate,
    read: JobView,
)
    requires
        before.contains_key(u.id@),
        after == before.insert(u.id@, after[u.id@]),
        applied_update(before[u.id@], u, after[u.id@]),
        read == after[u.id@],
    ensures
        read.status == u.status,
        read.claimed_by == opt_str_view(u.claimed_by),
        read.claimed_at == u.claimed_at,
        read.k8s_job_name == opt_str_view(u.k8s_job_name),
        read.started_at == u.started_at,
        read.completed_at == u.completed_at,
        read.id == before[u.id@].id,
        read.topic == before[u.id@].topic,
        forall|k: Seq<char>| #[trigger] before.contains_key(k) && k != u.id@ ==> after[k] == before[k],
{
}

/// In the in-memory queue, a job read back right after it was requeued is
/// pending and unclaimed and keeps everything else, its retry count
/// included; other jobs are as they were.
pub proof fn law_read_after_requeue(
    before: Map<Seq<char>, JobView>,
    after: Map<Seq<char>, JobView>,
    id: Seq<char>,
    read: JobView,
)
    requires
        before.contains_key(id),
        after == before.insert(
            id,
            JobView { status: JobStatus::Pending, claimed_by: None, claimed_at: None, ..before[id] },
        ),
        read == after[id],
    ensures
        read.status == JobStatus::Pending,
        read.claimed_by is None,
        read.claimed_at is None,
        read.retry_count == before[id].retry_count,
        read.started_at == before[id].started_at,
        forall|k: Seq<char>| #[trigger] before.contains_key(k) && k != id ==> after[k] == before[k],
{
}

impl JobQueueRepository for MockJobQueueRepository {
    open spec fn jobs(&self) -> Map<Seq<char>, JobView> {
        self.stored()
    }

    /// The queue answers from its records unless an answer is scripted.
    open spec fn answers(&self) -> bool {
        self.scripted_enqueue() is None
    }

    open spec fn enqueued(&self) -> Seq<(Seq<char>, JobRequestView)> {
        self.given_ids()
    }

    open spec fn listed_topics(&self) -> Seq<Seq<char>> {
        self.stored_topics()
    }

    /// The scripted error, when the next answer is one.
    open spec fn refusal(&self) -> Option<Seq<char>> {
        match self.scripted_enqueue() {
            Some(Err(e)) => Some(e@),
            _ => None,
        }
    }

    fn enqueue_job(&mut self, request: &JobRequest) -> (r: Result<String, String>)
        ensures
            old(self).scripted_enqueue() is Some ==> r == old(self).scripted_enqueue()->0 && final(self).jobs() == old(self).jobs()
                && final(self).scripted_enqueue() is None,
            old(self).scripted_enqueue() is None ==> r is Ok && final(self).scripted_enqueue() is None,
            old(self).scripted_enqueue() is None ==> (r matches Ok(id) && final(self).jobs() == old(self).jobs().insert(
                id@,
                final(self).jobs()[id@],
            ) && enqueued_job(final(self).jobs()[id@], request@, id@)),
            old(self).scripted_enqueue() is None ==> (r matches Ok(id) && v4_uuid_text(id@)),
            final(self).scripted_claim() == old(self).scripted_claim(),
    {
        let ghost refused = self.refusal();
        proof {
            if self.enqueue_result is None {
                assert(refused is None);
            }
            if self.enqueue_result matches Some(Ok(_)) {
                assert(refused is None);
            }
        }
        if let Some(result) = self.enqueue_result.take() {
            return result;
        }
        let job_id = new_uuid();
        let at = now();
        let job = Self::job_from_request(request, job_id.clone(), at);
        let ghost v = job@;
        self.jobs.insert(job_id.clone(), job);
        self.given = Ghost(self.given@.push((job_id@, request@)));
        assert(self.jobs() =~= old(self).jobs().insert(job_id@, v));
        Ok(job_id)
    }

    fn claim_jobs(&mut self, topics: &Vec<String>, batch_size: usize, executor_id: &str) -> (r: Result<
        Vec<QueuedJob>,
        String,
    >)
        ensures
            final(self).jobs() == old(self).jobs(),
            final(self).scripted_enqueue() == old(self).scripted_enqueue(),
            final(self).scripted_claim() is None,
            old(self).scripted_claim() is Some ==> r == old(self).scripted_claim()->0,
            old(self).scripted_claim() is None ==> (r matches Ok(v) && v.len() == 0),
    {
        if let Some(result) = self.claim_result.take() {
            return result;
        }
        Ok(Vec::new())
    }

    fn get_job(&self, job_id: &str) -> (r: Result<QueuedJob, String>)
        ensures
            r is Ok <==> self.jobs().contains_key(job_id@),
            r matches Err(e) ==> e@ == "Job not found: "@ + job_id@,
    {
        match self.jobs.get(job_id) {
            Some(j) => Ok(j.duplicate()),
            None => Err(Self::not_found(job_id)),
        }
    }

    fn update_job_status(&mut self, update: &JobStatusUpdate) -> (r: Result<(), String>)
        ensures
            r is Ok <==> old(self).jobs().contains_key(update.id@),
            r is Ok ==> final(self).jobs() == old(self).jobs().insert(update.id@, final(self).jobs()[update.id@]),
            r is Ok ==> applied_update(old(self).jobs()[update.id@], *update, final(self).jobs()[update.id@]),
            r matches Err(e) ==> e@ == "Job not found: "@ + update.id@,
            final(self).scripted_enqueue() == old(self).scripted_enqueue(),
            final(self).scripted_claim() == old(self).scripted_claim(),
    {
        let mut job = match self.jobs.get(update.id.as_str()) {
            Some(j) => j.duplicate(),
            None => {
                return Err(Self::not_found(update.id.as_str()));
            },
        };
        job.status = update.status;
        job.k8s_job_name = update.k8s_job_name.duplicate();
        job.claimed_by = update.claimed_by.duplicate();
        job.claimed_at = update.claimed_at;
        job.started_at = update.started_at;
        job.completed_at = update.completed_at;
        job.error_message = update.error_message.duplicate();
        job.result_data = update.result_data.duplicate();
        if let Some(retry_count) = update.retry_count {
            job.retry_count = retry_count;
        }
        job.updated_at = now();
        let ghost v = job@;
        assert(applied_update(old(self).jobs()[update.id@], *update, v));
        self.jobs.insert(update.id.clone(), job);
        assert(self.jobs() =~= old(self).jobs().insert(update.id@, v));
        assert(self.jobs().dom() =~= old(self).jobs().dom());
        Ok(())
    }

    fn requeue_job(&mut self, job_id: &str) -> (r: Result<(), String>)
        ensures
            r is Ok <==> old(self).jobs().contains_key(job_id@),
            r is Ok ==> final(self).jobs() == old(self).jobs().insert(
                job_id@,
                JobView { status: JobStatus::Pending, claimed_by: None, claimed_at: None, ..old(self).jobs()[job_id@] },
            ),
            r matches Err(e) ==> e@ == "Job not found: "@ + job_id@,
            r is Err ==> final(self).jobs() == old(self).jobs(),
            final(self).scripted_enqueue() == old(self).scripted_enqueue(),
            final(self).scripted_claim() == old(self).scripted_claim(),
    {
        let mut job = match self.jobs.get(job_id) {
            Some(j) => j.duplicate(),
            None => {
                return Err(Self::not_found(job_id));
            },
        };
        job.status = JobStatus::Pending;
        job.claimed_by = None;
        job.claimed_at = None;
        let ghost v = job@;
        self.jobs.insert(owned(job_id), job);
        assert(self.jobs() =~= old(self).jobs().insert(job_id@, v));
        assert(self.jobs().dom() =~= old(self).jobs().dom());
        Ok(())
    }

    fn get_distinct_topics(&self) -> (r: Result<Vec<String>, String>)
        ensures
            r matches Ok(v) && no_duplicate_strings(v@) && (forall|k: Seq<char>| #[trigger]
                self.jobs().contains_key(k) ==> has_string(v@, self.jobs()[k].topic)) && str_vec_view(v)
                == self.stored_topics(),
    {
        let n = self.jobs.len();
        let ghost ks = self.jobs.key_seq();
        let mut topics: Vec<String> = Vec::new();
        let mut i: usize = 0;
        while i < n
            invariant
                n == ks.len(),
                ks == self.jobs.key_seq(),
                i <= n,
                forall|j: int| 0 <= j < n ==> #[trigger] self.jobs@.contains_key(ks[j]),
                no_duplicate_strings(topics@),
                forall|t: int| 0 <= t < topics.len() ==> #[trigger] some_job_has_topic(self.jobs(), topics@[t]@),
                forall|j: int| 0 <= j < i ==> has_string(topics@, self.jobs()[#[trigger] ks[j]].topic),
                str_vec_view(topics) == first_topics(ks.take(i as int), self.jobs()),
            decreases n - i,
        {
            let job = self.jobs.value_at(i);
            assert(self.jobs().contains_key(ks[i as int]));
            assert(job@ == self.jobs()[ks[i as int]]);
            let ghost d = str_vec_view(topics);
            proof {
                assert(ks.take(i + 1).drop_last() =~= ks.take(i as int));
                assert(ks.take(i + 1).last() == ks[i as int]);
                if has_string(topics@, job.topic@) {
                    let u = choose|u: int| 0 <= u < topics@.len() && (#[trigger] topics@[u])@ == job.topic@;
                    assert(d[u] == job.topic@);
                }
                if d.contains(job.topic@) {
                    let u = choose|u: int| 0 <= u < d.len() && d[u] == job.topic@;
                    assert(topics@[u]@ == job.topic@);
                }
            }
            if !contains_string(&topics, job.topic.as_str()) {
                let ghost old_topics = topics@;
                topics.push(job.topic.clone());
                assert(some_job_has_topic(self.jobs(), job.topic@));
                assert(forall|t: int| 0 <= t < old_topics.len() ==> topics@[t] == old_topics[t]);
                assert forall|j: int| 0 <= j < i + 1 implies has_string(topics@, self.jobs()[#[trigger] ks[j]].topic) by {
                    if j < i {
                        let w = choose|w: int| 0 <= w < old_topics.len() && (#[trigger] old_topics[w])@ == self.jobs()[ks[j]].topic;
                        assert(topics@[w] == old_topics[w]);
                    } else {
                        assert(topics@[old_topics.len() as int]@ == self.jobs()[ks[j]].topic);
                    }
                }
            }
            assert(str_vec_view(topics) =~= first_topics(ks.take(i + 1), self.jobs()));
            i = i + 1;
        }
        assert(ks.take(n as int) =~= ks);
        assert forall|k: Seq<char>| #[trigger] self.jobs().contains_key(k) implies has_string(topics@, self.jobs()[k].topic) by {
            assert(self.jobs@.contains_key(k));
            assert(ks.contains(k));
            let j = choose|j: int| 0 <= j < ks.len() && ks[j] == k;
            assert(has_string(topics@, self.jobs()[ks[j]].topic));
        }
        Ok(topics)
    }
}


// ---------------------------------------------------------------------------
// DAG executions
// ---------------------------------------------------------------------------

/// How many of the keys `ks` satisfy `p`.
pub open spec fn count_keys(ks: Seq<Seq<char>>, p: spec_fn(Seq<char>) -> bool) -> nat
    decreases ks.len(),
{
    if ks.len() == 0 {
        0
    } else {
        count_keys(ks.drop_last(), p) + if p(ks.last()) {
            1nat
        } else {
            0nat
        }
    }
}

proof fn lemma_count_keys(ks: Seq<Seq<char>>, p: spec_fn(Seq<char>) -> bool, s: Set<Seq<char>>)
    requires
        distinct_keys(ks),
        forall|k: Seq<char>| #[trigger] s.contains(k) <==> ks.contains(k) && p(k),
    ensures
        s.finite(),
        s.len() == count_keys(ks, p),
    decreases ks.len(),
{
    if ks.len() == 0 {
        assert(s =~= Set::<Seq<char>>::empty());
    } else {
        let x = ks.last();
        let rest = ks.drop_last();
        let s2 = if p(x) {
            s.remove(x)
        } else {
            s
        };
        assert forall|k: Seq<char>| #[trigger] s2.contains(k) <==> rest.contains(k) && p(k) by {
            if rest.contains(k) {
                let j = choose|j: int| 0 <= j < rest.len() && rest[j] == k;
                assert(ks[j] == k);
                assert(k != x);
            }
            if s.contains(k) && k != x {
                let j = choose|j: int| 0 <= j < ks.len() && ks[j] == k;
                assert(j != ks.len() - 1);
                assert(rest[j] == k);
            }
        }
        lemma_count_keys(rest, p, s2);
        if p(x) {
            assert(ks.contains(x));
            assert(s.contains(x));
            assert(s =~= s2.insert(x));
        }
    }
}

proof fn lemma_count_keys_push(ks: Seq<Seq<char>>, x: Seq<char>, p: spec_fn(Seq<char>) -> bool)
    ensures
        count_keys(ks.push(x), p) == count_keys(ks, p) + if p(x) {
            1nat
        } else {
            0nat
        },
{
    assert(ks.push(x).drop_last() =~= ks);
}

pub open spec fn execution_views(m: Map<Seq<char>, DAGExecution>) -> Map<Seq<char>, DAGExecutionView> {
    m.map_values(|e: DAGExecution| e@)
}

pub open spec fn node_execution_views(m: Map<Seq<char>, DAGNodeExecution>) -> Map<
    Seq<char>,
    DAGNodeExecutionView,
> {
    m.map_values(|n: DAGNodeExecution| n@)
}

/// The node execution `n` belongs to the DAG execution `dag` and the node `node`.
pub open spec fn node_execution_of(n: DAGNodeExecutionView, dag: Seq<char>, node: Seq<char>) -> bool {
    n.dag_execution_id == dag && n.dag_node_id == node
}

/// DAG executions and node executions in memory, each stored under its id.
pub struct MockDAGExecutionRepository {
    executions: StrMap<DAGExecution>,
    node_executions: StrMap<DAGNodeExecution>,
    /// The status changes of node executions accepted so far.
    node_log: Ghost<Seq<NodeStatusWrite>>,
    /// The status changes of DAG executions accepted so far.
    execution_log: Ghost<Seq<ExecutionStatusWrite>>,
}

impl MockDAGExecutionRepository {
    #[verifier::type_invariant]
    closed spec fn keyed_by_id(self) -> bool {
        &&& forall|k: Seq<char>| #[trigger] self.executions@.contains_key(k) ==> self.executions@[k].id@ == k
        &&& forall|k: Seq<char>| #[trigger] self.node_executions@.contains_key(k) ==> self.node_executions@[k].id@ == k
    }

    pub closed spec fn stored_executions(&self) -> Map<Seq<char>, DAGExecutionView> {
        execution_views(self.executions@)
    }

    pub closed spec fn stored_node_executions(&self) -> Map<Seq<char>, DAGNodeExecutionView> {
        node_execution_views(self.node_executions@)
    }

    /// The status changes of node executions accepted so far.
    pub closed spec fn accepted_node_writes(&self) -> Seq<NodeStatusWrite> {
        self.node_log@
    }

    /// The status changes of DAG executions accepted so far.
    pub closed spec fn accepted_execution_writes(&self) -> Seq<ExecutionStatusWrite> {
        self.execution_log@
    }

    /// An empty store.
    pub fn new() -> (r: Self)
        ensures
            r.executions() == Map::<Seq<char>, DAGExecutionView>::empty(),
            r.node_executions() == Map::<Seq<char>, DAGNodeExecutionView>::empty(),
    {
        let r = MockDAGExecutionRepository {
            executions: StrMap::new(),
            node_executions: StrMap::new(),
            node_log: Ghost(Seq::empty()),
            execution_log: Ghost(Seq::empty()),
        };
        assert(r.executions() =~= Map::<Seq<char>, DAGExecutionView>::empty());
        assert(r.node_executions() =~= Map::<Seq<char>, DAGNodeExecutionView>::empty());
        r
    }

    /// Stores a DAG execution under its id (replacing one with the same id).
    pub fn add_execution(&mut self, execution: DAGExecution)
        ensures
            final(self).executions() == old(self).executions().insert(execution.id@, execution@),
            final(self).node_executions() == old(self).node_executions(),
    {
        proof {
            use_type_invariant(&*self);
        }
        let ghost v = execution@;
        let id = execution.id.clone();
        let mut tmp = MockDAGExecutionRepository::new();
        core::mem::swap(self, &mut tmp);
        proof {
            use_type_invariant(&tmp);
        }
        let MockDAGExecutionRepository { mut executions, node_executions, node_log, execution_log } = tmp;
        executions.insert(id, execution);
        *self = MockDAGExecutionRepository { executions, node_executions, node_log, execution_log };
        assert(self.executions() =~= old(self).executions().insert(v.id, v));
    }

    /// Stores a node execution under its id (replacing one with the same id).
    pub fn add_node_execution(&mut self, node_execution: DAGNodeExecution)
        ensures
            final(self).node_executions() == old(self).node_executions().insert(node_execution.id@, node_execution@),
            final(self).executions() == old(self).executions(),
    {
        proof {
            use_type_invariant(&*self);
        }
        let ghost v = node_execution@;
        let id = node_execution.id.clone();
        let mut tmp = MockDAGExecutionRepository::new();
        core::mem::swap(self, &mut tmp);
        proof {
            use_type_invariant(&tmp);
        }
        let MockDAGExecutionRepository { executions, mut node_executions, node_log, execution_log } = tmp;
        node_executions.insert(id, node_execution);
        *self = MockDAGExecutionRepository { executions, node_executions, node_log, execution_log };
        assert(self.node_executions() =~= old(self).node_executions().insert(v.id, v));
    }

    /// Forgets every record.
    pub fn clear(&mut self)
        ensures
            final(self).executions() == Map::<Seq<char>, DAGExecutionView>::empty(),
            final(self).node_executions() == Map::<Seq<char>, DAGNodeExecutionView>::empty(),
    {
        *self = MockDAGExecutionRepository::new();
        assert(self.executions() =~= Map::<Seq<char>, DAGExecutionView>::empty());
        assert(self.node_executions() =~= Map::<Seq<char>, DAGNodeExecutionView>::empty());
    }
}

impl Default for MockDAGExecutionRepository {
    fn default() -> (r: Self)
        ensures
            r.executions() == Map::<Seq<char>, DAGExecutionView>::empty(),
            r.node_executions() == Map::<Seq<char>, DAGNodeExecutionView>::empty(),
    {
        MockDAGExecutionRepository::new()
    }
}

impl DAGExecutionRepository for MockDAGExecutionRepository {
    open spec fn executions(&self) -> Map<Seq<char>, DAGExecutionView> {
        self.stored_executions()
    }

    open spec fn node_executions(&self) -> Map<Seq<char>, DAGNodeExecutionView> {
        self.stored_node_executions()
    }

    open spec fn answers(&self) -> bool {
        true
    }

    open spec fn node_writes(&self) -> Seq<NodeStatusWrite> {
        self.accepted_node_writes()
    }

    open spec fn execution_writes(&self) -> Seq<ExecutionStatusWrite> {
        self.accepted_execution_writes()
    }

    fn get_execution(&self, dag_execution_id: &str, include_nodes: bool) -> (r: Result<DAGExecution, String>)
        ensures
            r is Ok <==> self.executions().contains_key(dag_execution_id@),
            r matches Err(e) ==> e@ == "DAG execution not found: "@ + dag_execution_id@,
    {
        match self.executions.get(dag_execution_id) {
            Some(e) => Ok(e.duplicate()),
            None => Err(String::from_str("DAG execution not found: ").concat(dag_execution_id)),
        }
    }

    fn get_node_execution(&self, node_execution_id: &str) -> (r: Result<DAGNodeExecution, String>)
        ensures
            r is Ok <==> self.node_executions().contains_key(node_execution_id@),
            r matches Err(e) ==> e@ == "Node execution not found: "@ + node_execution_id@,
    {
        match self.node_executions.get(node_execution_id) {
            Some(n) => Ok(n.duplicate()),
            None => Err(String::from_str("Node execution not found: ").concat(node_execution_id)),
        }
    }

    fn get_node_execution_by_dag_and_node(&self, dag_execution_id: &str, node_id: &str) -> (r: Result<
        DAGNodeExecution,
        String,
    >)
        ensures
            r is Ok <==> exists|k: Seq<char>| #[trigger]
                self.node_executions().contains_key(k) && node_execution_of(
                    self.node_executions()[k],
                    dag_execution_id@,
                    node_id@,
                ),
            r matches Err(e) ==> e@ == "Node execution not found for DAG "@ + dag_execution_id@ + " and node "@
                + node_id@,
    {
        proof {
            use_type_invariant(self);
        }
        let n = self.node_executions.len();
        let ghost ks = self.node_executions.key_seq();
        let mut i: usize = 0;
        while i < n
            invariant
                n == ks.len(),
                ks == self.node_executions.key_seq(),
                i <= n,
                forall|j: int| 0 <= j < n ==> #[trigger] self.node_executions@.contains_key(ks[j]),
                forall|k: Seq<char>| #[trigger] self.node_executions@.contains_key(k) <==> ks.contains(k),
                forall|j: int| 0 <= j < i ==> !node_execution_of(#[trigger] self.node_executions()[ks[j]], dag_execution_id@, node_id@),
                forall|k: Seq<char>| #[trigger] self.node_executions@.contains_key(k) ==> self.node_executions@[k].id@ == k,
            decreases n - i,
        {
            let ne = self.node_executions.value_at(i);
            if str_eq(ne.dag_execution_id.as_str(), dag_execution_id) && str_eq(ne.dag_node_id.as_str(), node_id) {
                assert(self.node_executions@.contains_key(ks[i as int]));
                assert(ne@ == self.node_executions()[ks[i as int]]);
                assert(self.node_executions().contains_key(ks[i as int]) && node_execution_of(
                    self.node_executions()[ks[i as int]],
                    dag_execution_id@,
                    node_id@,
                ));
                return Ok(ne.duplicate());
            }
            i = i + 1;
        }
        proof {
            assert forall|k: Seq<char>| #[trigger] self.node_executions().contains_key(k) implies !node_execution_of(
                self.node_executions()[k],
                dag_execution_id@,
                node_id@,
            ) by {
                assert(ks.contains(k));
                let j = choose|j: int| 0 <= j < ks.len() && ks[j] == k;
                assert(!node_execution_of(self.node_executions()[ks[j]], dag_execution_id@, node_id@));
            }
        }
        let e = String::from_str("Node execution not found for DAG ").concat(dag_execution_id);
        let e = e.concat(" and node ");
        Err(e.concat(node_id))
    }

    fn update_execution_status(
        &mut self,
        dag_execution_id: &str,
        status: DAGStatus,
        error_message: Option<&str>,
    ) -> (r: Result<(), String>)
        ensures
            r is Ok <==> old(self).executions().contains_key(dag_execution_id@),
            r matches Err(e) ==> e@ == "DAG execution not found: "@ + dag_execution_id@,
    {
        proof {
            use_type_invariant(&*self);
        }
        let mut execution = match self.executions.get(dag_execution_id) {
            Some(e) => e.duplicate(),
            None => {
                return Err(String::from_str("DAG execution not found: ").concat(dag_execution_id));
            },
        };
        execution.status = status;
        let ghost v = execution@;
        let id = execution.id.clone();
        let mut tmp = MockDAGExecutionRepository::new();
        core::mem::swap(self, &mut tmp);
        proof {
            use_type_invariant(&tmp);
        }
        let MockDAGExecutionRepository { mut executions, node_executions, node_log, execution_log } = tmp;
        executions.insert(id, execution);
        let execution_log = Ghost(
            execution_log@.push(
                ExecutionStatusWrite {
                    id: dag_execution_id@,
                    status,
                    error_message: match error_message {
                        Some(m) => Some(m@),
                        None => None,
                    },
                },
            ),
        );
        *self = MockDAGExecutionRepository { executions, node_executions, node_log, execution_log };
        assert(self.executions() =~= old(self).executions().insert(
            dag_execution_id@,
            DAGExecutionView { status, ..old(self).executions()[dag_execution_id@] },
        ));
        Ok(())
    }

    fn update_node_execution_status(
        &mut self,
        node_execution_id: &str,
        status: DAGNodeStatus,
        data: Option<NodeExecutionUpdate>,
    ) -> (r: Result<(), String>)
        ensures
            r is Ok <==> old(self).node_executions().contains_key(node_execution_id@),
            r is Ok ==> final(self).node_executions() == old(self).node_executions().insert(
                node_execution_id@,
                DAGNodeExecutionView { status, ..old(self).node_executions()[node_execution_id@] },
            ),
            r matches Err(e) ==> e@ == "Node execution not found: "@ + node_execution_id@,
    {
        proof {
            use_type_invariant(&*self);
        }
        let mut ne = match self.node_executions.get(node_execution_id) {
            Some(n) => n.duplicate(),
            None => {
                return Err(String::from_str("Node execution not found: ").concat(node_execution_id));
            },
        };
        ne.status = status;
        let ghost v = ne@;
        let id = ne.id.clone();
        let mut tmp = MockDAGExecutionRepository::new();
        core::mem::swap(self, &mut tmp);
        proof {
            use_type_invariant(&tmp);
        }
        let MockDAGExecutionRepository { executions, mut node_executions, node_log, execution_log } = tmp;
        node_executions.insert(id, ne);
        let node_log = Ghost(
            node_log@.push(NodeStatusWrite { id: node_execution_id@, status, data: node_update_view(data) }),
        );
        *self = MockDAGExecutionRepository { executions, node_executions, node_log, execution_log };
        assert(self.node_executions() =~= old(self).node_executions().insert(node_execution_id@, v));
        assert(self.node_executions().dom() =~= old(self).node_executions().dom());
        Ok(())
    }

    fn get_execution_stats(&self, dag_execution_id: &str) -> (r: Result<DAGExecutionStats, String>)
        ensures
            r is Ok,
    {
        let n = self.node_executions.len();
        let ghost ks = self.node_executions.key_seq();
        let ghost m = self.node_executions();
        let ghost dag = dag_execution_id@;
        let ghost p_all = |k: Seq<char>| m[k].dag_execution_id == dag;
        let ghost p_completed = |k: Seq<char>| m[k].dag_execution_id == dag && m[k].status == DAGNodeStatus::Completed;
        let ghost p_failed = |k: Seq<char>| m[k].dag_execution_id == dag && m[k].status == DAGNodeStatus::Failed;
        let ghost p_running = |k: Seq<char>| m[k].dag_execution_id == dag && m[k].status == DAGNodeStatus::Running;
        let ghost p_pending = |k: Seq<char>| m[k].dag_execution_id == dag && m[k].status == DAGNodeStatus::Pending;
        let ghost p_waiting = |k: Seq<char>| m[k].dag_execution_id == dag && m[k].status == DAGNodeStatus::Waiting;
        let ghost p_skipped = |k: Seq<char>| m[k].dag_execution_id == dag && m[k].status == DAGNodeStatus::Skipped;
        let mut total: usize = 0;
        let mut completed: usize = 0;
        let mut failed: usize = 0;
        let mut running: usize = 0;
        let mut pending: usize = 0;
        let mut waiting: usize = 0;
        let mut skipped: usize = 0;
        let mut i: usize = 0;
        while i < n
            invariant
                n == ks.len(),
                ks == self.node_executions.key_seq(),
                m == self.node_executions(),
                dag == dag_execution_id@,
                p_all == (|k: Seq<char>| m[k].dag_execution_id == dag),
                p_completed == (|k: Seq<char>| m[k].dag_execution_id == dag && m[k].status == DAGNodeStatus::Completed),
                p_failed == (|k: Seq<char>| m[k].dag_execution_id == dag && m[k].status == DAGNodeStatus::Failed),
                p_running == (|k: Seq<char>| m[k].dag_execution_id == dag && m[k].status == DAGNodeStatus::Running),
                p_pending == (|k: Seq<char>| m[k].dag_execution_id == dag && m[k].status == DAGNodeStatus::Pending),
                p_waiting == (|k: Seq<char>| m[k].dag_execution_id == dag && m[k].status == DAGNodeStatus::Waiting),
                p_skipped == (|k: Seq<char>| m[k].dag_execution_id == dag && m[k].status == DAGNodeStatus::Skipped),
                i <= n,
                total == count_keys(ks.take(i as int), p_all),
                completed == count_keys(ks.take(i as int), p_completed),
                failed == count_keys(ks.take(i as int), p_failed),
                running == count_keys(ks.take(i as int), p_running),
                pending == count_keys(ks.take(i as int), p_pending),
                waiting == count_keys(ks.take(i as int), p_waiting),
                skipped == count_keys(ks.take(i as int), p_skipped),
                total <= i && completed <= i && failed <= i && running <= i,
                pending <= i && waiting <= i && skipped <= i,
                forall|j: int| 0 <= j < n ==> #[trigger] self.node_executions@.contains_key(ks[j]),
            decreases n - i,
        {
            let ne = self.node_executions.value_at(i);
            let ghost k = ks[i as int];
            assert(ks.take(i + 1) =~= ks.take(i as int).push(k));
            proof {
                lemma_count_keys_push(ks.take(i as int), k, p_all);
                lemma_count_keys_push(ks.take(i as int), k, p_completed);
                lemma_count_keys_push(ks.take(i as int), k, p_failed);
                lemma_count_keys_push(ks.take(i as int), k, p_running);
                lemma_count_keys_push(ks.take(i as int), k, p_pending);
                lemma_count_keys_push(ks.take(i as int), k, p_waiting);
                lemma_count_keys_push(ks.take(i as int), k, p_skipped);
            }
            assert(ne@ == m[k]);
            assert(p_all(k) == (ne.dag_execution_id@ == dag));
            assert(p_completed(k) == (ne.dag_execution_id@ == dag && ne.status == DAGNodeStatus::Completed));
            assert(p_failed(k) == (ne.dag_execution_id@ == dag && ne.status == DAGNodeStatus::Failed));
            assert(p_running(k) == (ne.dag_execution_id@ == dag && ne.status == DAGNodeStatus::Running));
            assert(p_pending(k) == (ne.dag_execution_id@ == dag && ne.status == DAGNodeStatus::Pending));
            assert(p_waiting(k) == (ne.dag_execution_id@ == dag && ne.status == DAGNodeStatus::Waiting));
            assert(p_skipped(k) == (ne.dag_execution_id@ == dag && ne.status == DAGNodeStatus::Skipped));
            if str_eq(ne.dag_execution_id.as_str(), dag_execution_id) {
                total = total + 1;
                match ne.status {
                    DAGNodeStatus::Completed => {
                        completed = completed + 1;
                    },
                    DAGNodeStatus::Failed => {
                        failed = failed + 1;
                    },
                    DAGNodeStatus::Running => {
                        running = running + 1;
                    },
                    DAGNodeStatus::Pending => {
                        pending = pending + 1;
                    },
                    DAGNodeStatus::Waiting => {
                        waiting = waiting + 1;
                    },
                    DAGNodeStatus::Skipped => {
                        skipped = skipped + 1;
                    },
                    DAGNodeStatus::Ready => {},
                }
            }
            i = i + 1;
        }
        proof {
            assert(ks.take(n as int) =~= ks);
            let len = self.node_executions.key_seq().len();
            assert(forall|k: Seq<char>| #[trigger] m.contains_key(k) <==> ks.contains(k));
            lemma_count_keys(ks, p_all, nodes_of(m, dag));
            lemma_count_keys(ks, p_completed, nodes_in_status(m, dag, DAGNodeStatus::Completed));
            lemma_count_keys(ks, p_failed, nodes_in_status(m, dag, DAGNodeStatus::Failed));
            lemma_count_keys(ks, p_running, nodes_in_status(m, dag, DAGNodeStatus::Running));
            lemma_count_keys(ks, p_pending, nodes_in_status(m, dag, DAGNodeStatus::Pending));
            lemma_count_keys(ks, p_waiting, nodes_in_status(m, dag, DAGNodeStatus::Waiting));
            lemma_count_keys(ks, p_skipped, nodes_in_status(m, dag, DAGNodeStatus::Skipped));
        }
        Ok(
            DAGExecutionStats {
                dag_execution_id: owned(dag_execution_id),
                total_nodes: total as i32,
                completed_nodes: completed as i32,
                failed_nodes: failed as i32,
                running_nodes: running as i32,
                pending_nodes: pending as i32,
                waiting_nodes: waiting as i32,
                skipped_nodes: skipped as i32,
            },
        )
    }
}


// ---------------------------------------------------------------------------
// DAG templates
// ---------------------------------------------------------------------------

pub open spec fn node_views(m: Map<Seq<char>, DAGNode>) -> Map<Seq<char>, DAGNodeView> {
    m.map_values(|n: DAGNode| n@)
}

/// The ids of `ids` that name nodes of `nodes`, in order.
pub open spec fn present_ids(ids: Seq<Seq<char>>, nodes: Map<Seq<char>, DAGNodeView>) -> Seq<Seq<char>>
    decreases ids.len(),
{
    if ids.len() == 0 {
        Seq::empty()
    } else {
        let rest = present_ids(ids.drop_last(), nodes);
        if nodes.contains_key(ids.last()) {
            rest.push(ids.last())
        } else {
            rest
        }
    }
}

/// DAG template nodes in memory, each stored under its id, with the ids of
/// each node's children in the order they were added.
#[derive(Debug)]
pub struct MockDAGTemplateRepository {
    nodes: StrMap<DAGNode>,
    child_relationships: StrMap<Vec<String>>,
}

impl MockDAGTemplateRepository {
    #[verifier::type_invariant]
    closed spec fn keyed_by_id(self) -> bool {
        forall|k: Seq<char>| #[trigger] self.nodes@.contains_key(k) ==> self.nodes@[k].id@ == k
    }

    pub closed spec fn stored_nodes(&self) -> Map<Seq<char>, DAGNodeView> {
        node_views(self.nodes@)
    }

    /// The child ids recorded for `parent`, whether or not they name stored
    /// nodes.
    pub closed spec fn child_ids(&self, parent: Seq<char>) -> Seq<Seq<char>> {
        if self.child_relationships@.contains_key(parent) {
            crate::views::str_vec_view(self.child_relationships@[parent])
        } else {
            Seq::empty()
        }
    }

    /// An empty store.
    pub fn new() -> (r: Self)
        ensures
            r.nodes() == Map::<Seq<char>, DAGNodeView>::empty(),
            forall|p: Seq<char>| r.child_ids(p) == Seq::<Seq<char>>::empty(),
    {
        let r = MockDAGTemplateRepository { nodes: StrMap::new(), child_relationships: StrMap::new() };
        assert(r.nodes() =~= Map::<Seq<char>, DAGNodeView>::empty());
        r
    }

    /// Stores a node under its id (replacing one with the same id).
    pub fn add_node(&mut self, node: DAGNode)
        ensures
            final(self).nodes() == old(self).nodes().insert(node.id@, node@),
            forall|p: Seq<char>| final(self).child_ids(p) == old(self).child_ids(p),
    {
        let ghost v = node@;
        let id = node.id.clone();
        let mut tmp = MockDAGTemplateRepository::new();
        core::mem::swap(self, &mut tmp);
        proof {
            use_type_invariant(&tmp);
        }
        let MockDAGTemplateRepository { mut nodes, child_relationships } = tmp;
        nodes.insert(id, node);
        *self = MockDAGTemplateRepository { nodes, child_relationships };
        assert(self.nodes() =~= old(self).nodes().insert(v.id, v));
    }

    /// Records `child_id` as the next child of `parent_id`.
    pub fn add_child_relationship(&mut self, parent_id: String, child_id: String)
        ensures
            final(self).nodes() == old(self).nodes(),
            final(self).child_ids(parent_id@) == old(self).child_ids(parent_id@).push(child_id@),
            forall|p: Seq<char>| p != parent_id@ ==> final(self).child_ids(p) == old(self).child_ids(p),
    {
        let mut list = match self.child_relationships.get(parent_id.as_str()) {
            Some(v) => crate::views::dup_str_vec(v),
            None => Vec::new(),
        };
        let ghost before = crate::views::str_vec_view(list);
        assert(before == old(self).child_ids(parent_id@));
        list.push(child_id);
        assert(crate::views::str_vec_view(list) =~= before.push(child_id@));
        let mut tmp = MockDAGTemplateRepository::new();
        core::mem::swap(self, &mut tmp);
        proof {
            use_type_invariant(&tmp);
        }
        let MockDAGTemplateRepository { nodes, mut child_relationships } = tmp;
        child_relationships.insert(parent_id, list);
        *self = MockDAGTemplateRepository { nodes, child_relationships };
    }

    /// Forgets every node and every child relation.
    pub fn clear(&mut self)
        ensures
            final(self).nodes() == Map::<Seq<char>, DAGNodeView>::empty(),
            forall|p: Seq<char>| final(self).child_ids(p) == Seq::<Seq<char>>::empty(),
    {
        *self = MockDAGTemplateRepository::new();
    }
}

impl Default for MockDAGTemplateRepository {
    fn default() -> (r: Self)
        ensures
            r.nodes() == Map::<Seq<char>, DAGNodeView>::empty(),
    {
        MockDAGTemplateRepository::new()
    }
}

impl DAGTemplateRepository for MockDAGTemplateRepository {
    open spec fn nodes(&self) -> Map<Seq<char>, DAGNodeView> {
        self.stored_nodes()
    }

    /// The recorded children of a node that are stored nodes, in the order
    /// they were added.
    open spec fn children(&self, node_id: Seq<char>) -> Seq<Seq<char>> {
        present_ids(self.child_ids(node_id), self.nodes())
    }

    open spec fn answers(&self) -> bool {
        true
    }

    fn get_node(&self, node_id: &str) -> (r: Result<DAGNode, String>)
        ensures
            r is Ok <==> self.nodes().contains_key(node_id@),
            r matches Err(e) ==> e@ == "Node not found: "@ + node_id@,
    {
        proof {
            use_type_invariant(self);
        }
        match self.nodes.get(node_id) {
            Some(n) => Ok(n.duplicate()),
            None => Err(String::from_str("Node not found: ").concat(node_id)),
        }
    }

    fn get_child_nodes(&self, node_id: &str) -> (r: Result<Vec<DAGNode>, String>)
        ensures
            r is Ok,
    {
        proof {
            use_type_invariant(self);
        }
        let mut children: Vec<DAGNode> = Vec::new();
        let ids = match self.child_relationships.get(node_id) {
            Some(v) => v,
            None => {
                assert(self.children(node_id@) =~= Seq::<Seq<char>>::empty());
                return Ok(children);
            },
        };
        let ghost idv = crate::views::str_vec_view(*ids);
        assert(idv == self.child_ids(node_id@));
        let mut j: usize = 0;
        while j < ids.len()
            invariant
                j <= ids.len(),
                idv == crate::views::str_vec_view(*ids),
                children@.map_values(|n: DAGNode| n.id@) == present_ids(idv.take(j as int), self.nodes()),
                forall|t: int| 0 <= t < children.len() ==> self.nodes().contains_key((#[trigger] children[t]).id@)
                    && children[t]@ == self.nodes()[children[t].id@],
                forall|k: Seq<char>| #[trigger] self.nodes@.contains_key(k) ==> self.nodes@[k].id@ == k,
            decreases ids.len() - j,
        {
            let ghost prev = idv.take(j as int);
            assert(idv.take(j + 1) =~= prev.push(idv[j as int]));
            assert(idv.take(j + 1).drop_last() =~= prev);
            match self.nodes.get(ids[j].as_str()) {
                Some(n) => {
                    children.push(n.duplicate());
                    assert(children@.map_values(|n: DAGNode| n.id@) =~= present_ids(idv.take(j + 1), self.nodes()));
                },
                None => {
                    assert(children@.map_values(|n: DAGNode| n.id@) =~= present_ids(idv.take(j + 1), self.nodes()));
                },
            }
            j = j + 1;
        }
        assert(idv.take(ids.len() as int) =~= idv);
        assert forall|t: int| 0 <= t < children.len() implies (#[trigger] children[t]).id@ == self.children(node_id@)[t] by {
            assert(children@.map_values(|n: DAGNode| n.id@)[t] == children[t].id@);
        }
        Ok(children)
    }
}

} // verus!
