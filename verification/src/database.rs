//! The stores that the executor reads and writes: the job queue, the image
//! registry and the execution history. Each store is described by the
//! records it holds; each operation says what it does to them. The
//! in-memory stores of `mocks` implement these traits; the PostgreSQL ones
//! run outside this crate.
use vstd::prelude::*;
use crate::json::JsonValue;
use crate::strmap::{Duplicate, StrMap};
use crate::types::{
    JobRequest, JobRequestView, JobStatus, JobStatusUpdate, JobView, K8sJobCondition, QueuedJob,
    ResourceRequirements,
};
use crate::views::{dup_opt_map, has_string, opt_map_view, opt_str_view, str_vec_view};

verus! {

/// Whether the list of strings holds no string twice.
pub open spec fn no_duplicate_strings(v: Seq<String>) -> bool {
    forall|i: int, j: int| 0 <= i < v.len() && 0 <= j < v.len() && i != j ==> v[i]@ != v[j]@
}

/// `after` has the keys of `before`, and holds what `before` holds at every
/// key but `key`.
pub open spec fn only_key_changed<V>(before: Map<Seq<char>, V>, after: Map<Seq<char>, V>, key: Seq<char>) -> bool {
    &&& after.dom() == before.dom()
    &&& forall|k: Seq<char>| k != key && #[trigger] before.contains_key(k) ==> after[k] == before[k]
}

/// Some job of `m` has the topic `t`.
pub open spec fn some_job_has_topic(m: Map<Seq<char>, JobView>, t: Seq<char>) -> bool {
    exists|k: Seq<char>| #[trigger] m.contains_key(k) && m[k].topic == t
}

/// The job that enqueuing `req` under the id `id` records: pending, not
/// claimed or started, with no retries, priority 0 and 3 retries allowed
/// unless the request says otherwise.
pub open spec fn enqueued_job(j: JobView, req: JobRequestView, id: Seq<char>) -> bool {
    &&& j.id == id
    &&& j.topic == req.topic
    &&& j.status == JobStatus::Pending
    &&& j.image_id == req.image_id
    &&& j.job_name == req.job_name
    &&& j.k8s_job_name is None
    &&& j.k8s_namespace is None
    &&& j.claimed_by is None
    &&& j.claimed_at is None
    &&& j.started_at is None
    &&& j.completed_at is None
    &&& j.retry_count == 0
    &&& j.max_retries == (match req.max_retries {
        Some(m) => m,
        None => 3,
    })
    &&& j.priority == (match req.priority {
        Some(p) => p,
        None => 0,
    })
    &&& j.error_message is None
    &&& j.result_data is None
    &&& j.created_at == j.updated_at
    &&& j.created_by == req.created_by
    &&& j.command == req.command
    &&& j.args == req.args
    &&& j.environment_variables == req.environment_variables
    &&& j.resource_overrides == req.resource_overrides
    &&& j.labels == req.labels
    &&& j.inputs == req.inputs
    &&& j.outputs is None
    &&& j.dag_execution_id is None
    &&& j.dag_node_execution_id is None
}

/// The ids and requests of the jobs put in a queue, one per successful
/// `enqueue_jobs_batch` entry: `ids[i]` was given for `requests[i]`.
pub open spec fn batch_entries(ids: Seq<String>, requests: Seq<JobRequest>) -> Seq<(Seq<char>, JobRequestView)> {
    Seq::new(ids.len(), |i: int| (ids[i]@, requests[i]@))
}

/// A database connection.
pub trait Database {
    fn health_check(&self) -> bool;

    fn close(&self);
}

/// The job queue.
pub trait JobQueueRepository {
    /// The queued jobs, by id.
    ///
    /// The contracts below speak of this model only for a store that
    /// answers (`answers`), as the in-memory stores do. A store kept outside
    /// the program, such as a database, has no model here: it keeps this
    /// default and `answers` false, so the contracts claim nothing of it and
    /// nothing proved over the model describes it.
    open spec fn jobs(&self) -> Map<Seq<char>, JobView> {
        Map::empty()
    }

    /// Whether the queue answers from its records: it records every job put
    /// in it and lists the topic of every job it holds (so the in-memory
    /// queue when no answer is scripted). A queue kept outside the program
    /// keeps this default, `false`: its calls may fail.
    open spec fn answers(&self) -> bool {
        false
    }

    /// The ids given by the queue and the requests they were given for,
    /// oldest first (same model rule as `jobs`).
    open spec fn enqueued(&self) -> Seq<(Seq<char>, JobRequestView)> {
        Seq::empty()
    }

    /// The error that the next `enqueue_job` gives, for a queue set to
    /// refuse it (the in-memory queue with a scripted error); `None` for any
    /// other queue, which is what a queue kept outside the program keeps.
    open spec fn refusal(&self) -> Option<Seq<char>> {
        None
    }

    /// Puts a job in the queue and gives its id. A failed call changes
    /// nothing. A queue that answers does not fail, keeps answering, and
    /// records under the id it gives the pending job that the request
    /// describes. A queue set to refuse gives its refusal.
    fn enqueue_job(&mut self, request: &JobRequest) -> (r: Result<String, String>)
        ensures
            old(self).refusal() matches Some(e) ==> (r matches Err(x) && x@ == e),
            old(self).answers() ==> r is Ok && final(self).answers(),
            old(self).answers() ==> (r matches Ok(id) && final(self).jobs() == old(self).jobs().insert(
                id@,
                final(self).jobs()[id@],
            ) && enqueued_job(final(self).jobs()[id@], request@, id@) && final(self).enqueued()
                == old(self).enqueued().push((id@, request@))),
    ;

    /// Enqueues the requests in order and gives their ids, stopping at the
    /// first failure. In a queue that answers, the job stored under the
    /// `i`-th id is the pending job of the `i`-th request (when the ids it
    /// gave are all different; a repeated id holds the later job).
    fn enqueue_jobs_batch(&mut self, requests: &Vec<JobRequest>) -> (r: Result<Vec<String>, String>)
        ensures
            r matches Ok(ids) ==> ids.len() == requests.len(),
            old(self).answers() ==> (r matches Ok(ids) && final(self).enqueued() == old(self).enqueued()
                + batch_entries(ids@, requests@)),
            old(self).answers() ==> (r matches Ok(ids) && (no_duplicate_strings(ids@) ==> forall|i: int|
                0 <= i < ids.len() ==> final(self).jobs().contains_key(#[trigger] ids@[i]@) && enqueued_job(
                    final(self).jobs()[ids@[i]@],
                    requests@[i]@,
                    ids@[i]@,
                ))),
    {
        let ghost answered = self.answers();
        let mut job_ids: Vec<String> = Vec::new();
        let mut i: usize = 0;
        while i < requests.len()
            invariant
                i <= requests.len(),
                job_ids.len() == i,
                answered == old(self).answers(),
                answered ==> self.answers(),
                answered ==> self.enqueued() == old(self).enqueued() + batch_entries(
                    job_ids@,
                    requests@.take(i as int),
                ),
                answered && no_duplicate_strings(job_ids@) ==> forall|j: int|
                    0 <= j < i ==> self.jobs().contains_key(#[trigger] job_ids@[j]@) && enqueued_job(
                        self.jobs()[job_ids@[j]@],
                        requests@[j]@,
                        job_ids@[j]@,
                    ),
            decreases requests.len() - i,
        {
            let ghost before = self.enqueued();
            let ghost prev_ids = job_ids@;
            let ghost old_jobs = self.jobs();
            let id = self.enqueue_job(&requests[i]);
            match id {
                Ok(id) => {
                    let ghost idv = id@;
                    let ghost jobs_before = old_jobs;
                    job_ids.push(id);
                    proof {
                        if answered && no_duplicate_strings(job_ids@) {
                            assert(job_ids@.drop_last() =~= prev_ids);
                            assert(no_duplicate_strings(prev_ids)) by {
                                assert forall|a: int, b: int|
                                    0 <= a < prev_ids.len() && 0 <= b < prev_ids.len() && a != b implies prev_ids[a]@
                                    != prev_ids[b]@ by {
                                    assert(prev_ids[a] == job_ids@[a]);
                                    assert(prev_ids[b] == job_ids@[b]);
                                }
                            }
                            assert forall|j: int| 0 <= j < i + 1 implies self.jobs().contains_key(
                                #[trigger] job_ids@[j]@,
                            ) && enqueued_job(self.jobs()[job_ids@[j]@], requests@[j]@, job_ids@[j]@) by {
                                if j < i {
                                    assert(job_ids@[j] == prev_ids[j]);
                                    assert(job_ids@[j]@ != job_ids@[i as int]@);
                                    assert(jobs_before.contains_key(prev_ids[j]@));
                                }
                            }
                        }
                        assert(batch_entries(job_ids@, requests@.take(i + 1)) =~= batch_entries(
                            prev_ids,
                            requests@.take(i as int),
                        ).push((idv, requests@[i as int]@)));
                    }
                },
                Err(e) => {
                    return Err(e);
                },
            }
            i = i + 1;
        }
        assert(requests@.take(requests.len() as int) =~= requests@);
        Ok(job_ids)
    }

    /// Claims up to `batch_size` pending jobs of the given topics for an
    /// executor. A failed call changes nothing.
    fn claim_jobs(&mut self, topics: &Vec<String>, batch_size: usize, executor_id: &str) -> (r: Result<
        Vec<QueuedJob>,
        String,
    >)
        ensures
            old(self).answers() && r is Err ==> final(self).jobs() == old(self).jobs(),
    ;

    /// The job with the given id.
    fn get_job(&self, job_id: &str) -> (r: Result<QueuedJob, String>)
        ensures
            self.answers() ==> (r matches Ok(j) ==> self.jobs().contains_key(job_id@) && j@ == self.jobs()[job_id@]),
    ;

    /// Sets the status of the job `update.id` (with the fields that go with
    /// it); no other job changes. A failed call changes nothing.
    fn update_job_status(&mut self, update: &JobStatusUpdate) -> (r: Result<(), String>)
        ensures
            old(self).answers() ==> (r is Ok ==> old(self).jobs().contains_key(update.id@)),
            old(self).answers() ==> (r is Ok ==> only_key_changed(old(self).jobs(), final(self).jobs(), update.id@)),
            old(self).answers() ==> (r is Ok ==> final(self).jobs()[update.id@].status == update.status),
            old(self).answers() ==> (r is Err ==> final(self).jobs() == old(self).jobs()),
    ;

    /// Puts a job back in the queue: pending and unclaimed; no other job
    /// changes. A failed call changes nothing.
    fn requeue_job(&mut self, job_id: &str) -> (r: Result<(), String>)
        ensures
            old(self).answers() ==> (r is Ok ==> old(self).jobs().contains_key(job_id@)),
            old(self).answers() ==> (r is Ok ==> only_key_changed(old(self).jobs(), final(self).jobs(), job_id@)),
            old(self).answers() ==> (r is Ok ==> final(self).jobs()[job_id@].status == JobStatus::Pending),
            old(self).answers() ==> (r is Ok ==> final(self).jobs()[job_id@].claimed_by is None),
            old(self).answers() ==> (r is Ok ==> final(self).jobs()[job_id@].claimed_at is None),
            old(self).answers() ==> (r is Err ==> final(self).jobs() == old(self).jobs()),
    ;

    /// The topics the queue lists when asked for the topics of its jobs, in
    /// the order it lists them (same model rule as `jobs`).
    open spec fn listed_topics(&self) -> Seq<Seq<char>> {
        Seq::empty()
    }

    /// Topics that queued jobs have, each once. A queue that answers lists
    /// `listed_topics`.
    fn get_distinct_topics(&self) -> (r: Result<Vec<String>, String>)
        ensures
            self.answers() ==> (r matches Ok(v) && str_vec_view(v) == self.listed_topics()),
            self.answers() ==> (r matches Ok(v) ==> no_duplicate_strings(v@) && forall|i: int|
                0 <= i < v.len() ==> #[trigger] some_job_has_topic(self.jobs(), v@[i]@)),
            self.answers() ==> (r matches Ok(v) && forall|k: Seq<char>| #[trigger]
                self.jobs().contains_key(k) ==> has_string(v@, self.jobs()[k].topic)),
    ;
}

/// What the image registry knows of one image.
#[derive(Debug)]
pub struct ImageInfo {
    pub id: String,
    pub full_image_path: String,
    pub is_active: bool,
    pub environment_variables: StrMap<String>,
    pub default_resources: Option<ResourceRequirements>,
    pub labels: StrMap<String>,
}

pub struct ImageInfoView {
    pub id: Seq<char>,
    pub full_image_path: Seq<char>,
    pub is_active: bool,
    pub environment_variables: Map<Seq<char>, String>,
    pub default_resources: Option<ResourceRequirements>,
    pub labels: Map<Seq<char>, String>,
}

impl View for ImageInfo {
    type V = ImageInfoView;

    open spec fn view(&self) -> ImageInfoView {
        ImageInfoView {
            id: self.id@,
            full_image_path: self.full_image_path@,
            is_active: self.is_active,
            environment_variables: self.environment_variables@,
            default_resources: self.default_resources,
            labels: self.labels@,
        }
    }
}

impl ImageInfo {
    pub fn new(
        id: String,
        full_image_path: String,
        is_active: bool,
        environment_variables: StrMap<String>,
        default_resources: Option<ResourceRequirements>,
        labels: StrMap<String>,
    ) -> (r: Self)
        ensures
            r.id == id,
            r.full_image_path == full_image_path,
            r.is_active == is_active,
            r.environment_variables@ == environment_variables@,
            r.default_resources == default_resources,
            r.labels@ == labels@,
    {
        ImageInfo { id, full_image_path, is_active, environment_variables, default_resources, labels }
    }

    /// A copy of the record.
    pub fn duplicate(&self) -> (r: Self)
        ensures
            r@ == self@,
    {
        ImageInfo {
            id: self.id.clone(),
            full_image_path: self.full_image_path.clone(),
            is_active: self.is_active,
            environment_variables: self.environment_variables.duplicate(),
            default_resources: self.default_resources.duplicate(),
            labels: self.labels.duplicate(),
        }
    }
}

/// The image registry.
pub trait ImageRegistryRepository {
    /// The registered images, by id.
    ///
    /// The contracts below speak of this model only for a store that
    /// answers (`answers`), as the in-memory stores do. A store kept outside
    /// the program, such as a database, has no model here: it keeps this
    /// default and `answers` false, so the contracts claim nothing of it and
    /// nothing proved over the model describes it.
    open spec fn images(&self) -> Map<Seq<char>, ImageInfoView> {
        Map::empty()
    }

    /// Whether the registry answers from the records of `images` (so the
    /// in-memory registry). A registry kept outside the program keeps this
    /// default, `false`, and the contracts below say nothing of it.
    open spec fn answers(&self) -> bool {
        false
    }

    /// The image with the given id.
    fn get_image(&self, image_id: &str) -> (r: Result<ImageInfo, String>)
        ensures
            self.answers() ==> (r matches Ok(i) ==> self.images().contains_key(image_id@) && i@ == self.images()[
                image_id@
            ]),
    ;
}

/// One entry of a job's execution history.
#[derive(Debug)]
pub struct HistoryEntry {
    pub job_id: String,
    pub job_topic: String,
    pub status: JobStatus,
    pub message: Option<String>,
    pub pod_logs: Option<String>,
    /// The Kubernetes job conditions at the time of the entry.
    pub k8s_events: Option<Vec<K8sJobCondition>>,
    /// Details of the entry, as JSON values by name.
    pub metadata: Option<StrMap<JsonValue>>,
}

pub struct HistoryEntryView {
    pub job_id: Seq<char>,
    pub job_topic: Seq<char>,
    pub status: JobStatus,
    pub message: Option<Seq<char>>,
    pub pod_logs: Option<Seq<char>>,
    pub k8s_events: Option<Seq<K8sJobCondition>>,
    pub metadata: Option<Map<Seq<char>, JsonValue>>,
}

impl View for HistoryEntry {
    type V = HistoryEntryView;

    open spec fn view(&self) -> HistoryEntryView {
        HistoryEntryView {
            job_id: self.job_id@,
            job_topic: self.job_topic@,
            status: self.status,
            message: opt_str_view(self.message),
            pod_logs: opt_str_view(self.pod_logs),
            k8s_events: match self.k8s_events {
                Some(v) => Some(v@),
                None => None,
            },
            metadata: opt_map_view(self.metadata),
        }
    }
}

/// A copy of a list of job conditions.
pub fn dup_conditions(v: &Vec<K8sJobCondition>) -> (r: Vec<K8sJobCondition>)
    ensures
        r@ == v@,
{
    let mut r: Vec<K8sJobCondition> = Vec::new();
    let mut i: usize = 0;
    while i < v.len()
        invariant
            i <= v.len(),
            r.len() == i,
            forall|j: int| 0 <= j < i ==> #[trigger] r@[j] == v@[j],
        decreases v.len() - i,
    {
        r.push(v[i].duplicate());
        i = i + 1;
    }
    assert(r@ =~= v@);
    r
}

impl HistoryEntry {
    /// A copy of the entry.
    pub fn duplicate(&self) -> (r: Self)
        ensures
            r@ == self@,
    {
        HistoryEntry {
            job_id: self.job_id.clone(),
            job_topic: self.job_topic.clone(),
            status: self.status,
            message: self.message.duplicate(),
            pod_logs: self.pod_logs.duplicate(),
            k8s_events: match &self.k8s_events {
                Some(v) => Some(dup_conditions(v)),
                None => None,
            },
            metadata: dup_opt_map(&self.metadata),
        }
    }
}

/// The execution history of jobs.
pub trait JobExecutionHistoryRepository {
    /// The entries, oldest first.
    ///
    /// The contracts below speak of this model only for a store that
    /// answers (`answers`), as the in-memory stores do. A store kept outside
    /// the program, such as a database, has no model here: it keeps this
    /// default and `answers` false, so the contracts claim nothing of it and
    /// nothing proved over the model describes it.
    open spec fn entries(&self) -> Seq<HistoryEntryView> {
        Seq::empty()
    }

    /// Whether the history keeps the records of `entries` (so the in-memory
    /// history). A history kept outside the program keeps this default,
    /// `false`, and the contracts below say nothing of it.
    open spec fn answers(&self) -> bool {
        false
    }

    /// Records an entry after all others. A failed call records nothing.
    fn create_entry(&mut self, entry: &HistoryEntry) -> (r: Result<(), String>)
        ensures
            old(self).answers() ==> (r is Ok ==> final(self).entries() == old(self).entries().push(entry@)),
            old(self).answers() ==> (r is Err ==> final(self).entries() == old(self).entries()),
            final(self).answers() == old(self).answers(),
    ;
}

} // verus!
