//! The records that the executor, the job queue and the DAG orchestrator
//! exchange: jobs and their statuses, execution modes, resources, and the
//! specification of a Kubernetes job.
use vstd::prelude::*;
use crate::json::{JobInputs, JobOutputs, JsonValue};
use crate::strmap::{Duplicate, StrMap};
use crate::text::{
    chars_from, i32_to_decimal, int_decimal, parse_i32, spec_parse_i32, starts_with, str_eq,
    lemma_parse_i32_in_range, lemma_parse_int_decimal, IntErrorKind,
};
use crate::views::{dup_opt_map, dup_opt_str_vec, opt_map_view, opt_str_vec_view, opt_str_view};

verus! {

// ---------------------------------------------------------------------------
// Time
// ---------------------------------------------------------------------------

/// A point in time, in milliseconds since the Unix epoch (UTC).
#[derive(Debug, Clone, Copy, PartialEq, Eq, Structural)]
pub struct Timestamp {
    pub millis: i64,
}

// ---------------------------------------------------------------------------
// Job status
// ---------------------------------------------------------------------------

/// Where a queued job stands.
#[derive(Debug, Clone, Copy, PartialEq, Eq, Structural)]
pub enum JobStatus {
    Pending,
    Claimed,
    Running,
    Completed,
    Failed,
    Cancelled,
}

/// The lower-case name under which a job status is stored and serialized.
pub open spec fn job_status_text(s: JobStatus) -> Seq<char> {
    match s {
        JobStatus::Pending => "pending"@,
        JobStatus::Claimed => "claimed"@,
        JobStatus::Running => "running"@,
        JobStatus::Completed => "completed"@,
        JobStatus::Failed => "failed"@,
        JobStatus::Cancelled => "cancelled"@,
    }
}

/// The job status whose stored name is `t`, if any.
pub open spec fn job_status_from_text(t: Seq<char>) -> Option<JobStatus> {
    if t == "pending"@ {
        Some(JobStatus::Pending)
    } else if t == "claimed"@ {
        Some(JobStatus::Claimed)
    } else if t == "running"@ {
        Some(JobStatus::Running)
    } else if t == "completed"@ {
        Some(JobStatus::Completed)
    } else if t == "failed"@ {
        Some(JobStatus::Failed)
    } else if t == "cancelled"@ {
        Some(JobStatus::Cancelled)
    } else {
        None
    }
}

/// The stored name of a job status.
pub fn job_status_to_string(status: JobStatus) -> (s: &'static str)
    ensures
        s@ == job_status_text(status),
{
    match status {
        JobStatus::Pending => "pending",
        JobStatus::Claimed => "claimed",
        JobStatus::Running => "running",
        JobStatus::Completed => "completed",
        JobStatus::Failed => "failed",
        JobStatus::Cancelled => "cancelled",
    }
}

/// Reads a stored job status; an unknown name is an error that quotes it.
pub fn parse_job_status(s: String) -> (r: Result<JobStatus, String>)
    ensures
        match r {
            Ok(st) => job_status_from_text(s@) == Some(st),
            Err(e) => job_status_from_text(s@) is None && e@ == "Unknown job status: "@ + s@,
        },
{
    let t = s.as_str();
    if str_eq(t, "pending") {
        Ok(JobStatus::Pending)
    } else if str_eq(t, "claimed") {
        Ok(JobStatus::Claimed)
    } else if str_eq(t, "running") {
        Ok(JobStatus::Running)
    } else if str_eq(t, "completed") {
        Ok(JobStatus::Completed)
    } else if str_eq(t, "failed") {
        Ok(JobStatus::Failed)
    } else if str_eq(t, "cancelled") {
        Ok(JobStatus::Cancelled)
    } else {
        Err(String::from_str("Unknown job status: ").concat(t))
    }
}

/// Every job status reads back from its stored name, and no two statuses
/// share a name.
pub proof fn lemma_job_status_text_roundtrip(s: JobStatus)
    ensures
        job_status_from_text(job_status_text(s)) == Some(s),
{
    reveal_strlit("pending");
    reveal_strlit("claimed");
    reveal_strlit("running");
    reveal_strlit("completed");
    reveal_strlit("failed");
    reveal_strlit("cancelled");
    assert("claimed"@[0] != "pending"@[0]);
    assert("running"@[0] != "pending"@[0] && "running"@[0] != "claimed"@[0]);
    assert("completed"@.len() != "pending"@.len() && "completed"@.len() != "claimed"@.len());
    assert("completed"@.len() != "running"@.len());
    assert("failed"@.len() != "pending"@.len() && "failed"@.len() != "claimed"@.len());
    assert("failed"@.len() != "running"@.len() && "failed"@.len() != "completed"@.len());
    assert("cancelled"@.len() != "pending"@.len() && "cancelled"@.len() != "claimed"@.len());
    assert("cancelled"@.len() != "running"@.len() && "cancelled"@.len() != "failed"@.len());
    assert("cancelled"@[1] != "completed"@[1]);
}

/// A stored name that reads as a status is exactly that status's name.
pub proof fn lemma_job_status_text_canonical(t: Seq<char>)
    ensures
        job_status_from_text(t) matches Some(s) ==> job_status_text(s) == t,
{
}

// ---------------------------------------------------------------------------
// Error categories, execution modes, priorities
// ---------------------------------------------------------------------------

/// How an error of a job execution is to be treated.
#[derive(Debug, Clone, Copy, PartialEq, Eq, Structural)]
pub enum ErrorCategory {
    Transient,
    Recoverable,
    Permanent,
    Unknown,
}

/// Execution mode for DAG sibling nodes.
#[derive(Debug, Clone, Copy, PartialEq, Eq, Structural)]
pub enum ExecutionMode {
    /// Execute siblings one at a time.
    Sequential,
    /// Execute all siblings concurrently (the default).
    Parallel,
    /// Execute N siblings at a time.
    Limited(i32),
}

/// The stored form of an execution mode: `sequential`, `parallel`, or
/// `limited:` followed by the limit in decimal.
pub open spec fn execution_mode_text(m: ExecutionMode) -> Seq<char> {
    match m {
        ExecutionMode::Sequential => "sequential"@,
        ExecutionMode::Parallel => "parallel"@,
        ExecutionMode::Limited(n) => "limited:"@ + int_decimal(n as int),
    }
}

/// What reading the stored form `s` of an execution mode gives: the mode,
/// or the error text.
pub open spec fn execution_mode_from_text(s: Seq<char>) -> Result<ExecutionMode, Seq<char>> {
    if s == "sequential"@ {
        Ok(ExecutionMode::Sequential)
    } else if s == "parallel"@ {
        Ok(ExecutionMode::Parallel)
    } else if "limited:"@.is_prefix_of(s) {
        match spec_parse_i32(s.skip(8)) {
            Ok(n) => Ok(ExecutionMode::Limited(n as i32)),
            Err(k) => Err("Failed to parse limit: "@ + k.spec_message()),
        }
    } else {
        Err("Unknown execution mode: "@ + s)
    }
}

impl Default for ExecutionMode {
    fn default() -> (m: Self)
        ensures
            m == ExecutionMode::Parallel,
    {
        ExecutionMode::Parallel
    }
}

impl ExecutionMode {
    /// The default execution mode: `Parallel`.
    pub fn default() -> (m: Self)
        ensures
            m == ExecutionMode::Parallel,
    {
        ExecutionMode::Parallel
    }

    /// The stored form of this mode.
    pub fn to_db_string(&self) -> (s: String)
        ensures
            s@ == execution_mode_text(*self),
    {
        match self {
            ExecutionMode::Sequential => String::from_str("sequential"),
            ExecutionMode::Parallel => String::from_str("parallel"),
            ExecutionMode::Limited(n) => {
                let digits = i32_to_decimal(*n);
                String::from_str("limited:").concat(digits.as_str())
            },
        }
    }

    /// Reads the stored form of a mode. The limit of `limited:` is read as
    /// `str::parse::<i32>` reads it; its failure is reported with the
    /// standard library's message.
    pub fn from_db_string(s: &str) -> (r: Result<Self, String>)
        ensures
            match r {
                Ok(m) => execution_mode_from_text(s@) == Ok::<ExecutionMode, Seq<char>>(m),
                Err(e) => execution_mode_from_text(s@) == Err::<ExecutionMode, Seq<char>>(e@),
            },
    {
        proof {
            reveal_strlit("limited:");
        }
        if str_eq(s, "sequential") {
            Ok(ExecutionMode::Sequential)
        } else if str_eq(s, "parallel") {
            Ok(ExecutionMode::Parallel)
        } else if starts_with(s, "limited:") {
            let rest = chars_from(s, 8);
            match parse_i32(rest) {
                Ok(n) => Ok(ExecutionMode::Limited(n)),
                Err(k) => Err(String::from_str("Failed to parse limit: ").concat(k.message())),
            }
        } else {
            Err(String::from_str("Unknown execution mode: ").concat(s))
        }
    }
}

impl ExecutionMode {
    /// The mode of a stored node: the stored form read as by
    /// `from_db_string`, or `Parallel` when nothing is stored or the text
    /// does not read.
    pub fn from_stored(s: Option<String>) -> (m: Self)
        ensures
            m == (match s {
                Some(t) => match execution_mode_from_text(t@) {
                    Ok(mode) => mode,
                    Err(_) => ExecutionMode::Parallel,
                },
                None => ExecutionMode::Parallel,
            }),
    {
        match s {
            Some(t) => match ExecutionMode::from_db_string(t.as_str()) {
                Ok(mode) => mode,
                Err(_) => ExecutionMode::Parallel,
            },
            None => ExecutionMode::Parallel,
        }
    }
}

/// Reading the stored form of any execution mode gives that mode back.
pub proof fn lemma_execution_mode_roundtrip(m: ExecutionMode)
    ensures
        execution_mode_from_text(execution_mode_text(m)) == Ok::<ExecutionMode, Seq<char>>(m),
{
    reveal_strlit("sequential");
    reveal_strlit("parallel");
    reveal_strlit("limited:");
    match m {
        ExecutionMode::Limited(n) => {
            let t = execution_mode_text(m);
            assert(t[0] == 'l');
            assert(t != "sequential"@);
            assert(t != "parallel"@);
            assert("limited:"@.is_prefix_of(t));
            assert(t.skip(8) =~= int_decimal(n as int));
            lemma_parse_int_decimal(n);
        },
        _ => {},
    }
}

/// A stored form that reads as a mode reads as one whose limit fits in an
/// `i32`; a successful read of `limited:…` keeps the number it read.
pub proof fn lemma_execution_mode_limit_read(s: Seq<char>)
    ensures
        execution_mode_from_text(s) matches Ok(ExecutionMode::Limited(n)) ==> spec_parse_i32(s.skip(8))
            == Ok::<int, IntErrorKind>(n as int),
{
    lemma_parse_i32_in_range(s.skip(8));
}

/// Priority of a job-readiness notification; `High` orders first.
#[derive(Debug, Clone, Copy, PartialEq, Eq, PartialOrd, Ord, Structural)]
pub enum Priority {
    /// A new DAG started.
    High,
    /// A sibling group is ready.
    Normal,
    /// Background cleanup or recovery.
    Low,
}

/// Notification sent when jobs become ready for execution.
#[derive(Debug, Clone, PartialEq, Eq)]
pub struct ReadyNotification {
    /// Number of jobs ready to be claimed.
    pub job_count: usize,
    /// Priority of this notification.
    pub priority: Priority,
    /// The sibling group, when the ready jobs are one.
    pub sibling_group_id: Option<String>,
}

// ---------------------------------------------------------------------------
// Configuration and resources
// ---------------------------------------------------------------------------

/// How an executor instance runs.
#[derive(Debug, Clone)]
pub struct ExecutorConfig {
    pub topics: Vec<String>,
    pub poll_interval: u64,
    pub batch_size: usize,
    pub kubernetes_namespace: String,
    pub instance_id: String,
}

/// CPU and memory that a job container requests (and is limited to).
#[derive(Debug, Clone, PartialEq, Eq)]
pub struct ResourceRequirements {
    pub cpu: String,
    pub memory: String,
}

impl ResourceRequirements {
    pub fn new(cpu: &str, memory: &str) -> (r: Self)
        ensures
            r.cpu@ == cpu@,
            r.memory@ == memory@,
    {
        ResourceRequirements { cpu: String::from_str(cpu), memory: String::from_str(memory) }
    }
}

impl Duplicate for ResourceRequirements {
    fn duplicate(&self) -> (r: Self) {
        ResourceRequirements { cpu: self.cpu.clone(), memory: self.memory.clone() }
    }
}

/// Resource values that a job overrides; an absent one keeps the default.
#[derive(Debug, Clone, PartialEq, Eq)]
pub struct PartialResourceRequirements {
    pub cpu: Option<String>,
    pub memory: Option<String>,
}

impl Duplicate for PartialResourceRequirements {
    fn duplicate(&self) -> (r: Self) {
        PartialResourceRequirements { cpu: self.cpu.duplicate(), memory: self.memory.duplicate() }
    }
}

// ---------------------------------------------------------------------------
// Jobs
// ---------------------------------------------------------------------------

/// A request to put a job in the queue.
#[derive(Debug)]
pub struct JobRequest {
    pub topic: String,
    pub image_id: String,
    pub job_name: Option<String>,
    pub command: Option<Vec<String>>,
    pub args: Option<Vec<String>>,
    pub environment_variables: Option<StrMap<String>>,
    pub resource_overrides: Option<PartialResourceRequirements>,
    pub priority: Option<i32>,
    pub max_retries: Option<i32>,
    pub labels: Option<StrMap<String>>,
    pub created_by: String,
    pub inputs: Option<JobInputs>,
}

/// The abstract contents of a job request.
pub struct JobRequestView {
    pub topic: Seq<char>,
    pub image_id: Seq<char>,
    pub job_name: Option<Seq<char>>,
    pub command: Option<Seq<Seq<char>>>,
    pub args: Option<Seq<Seq<char>>>,
    pub environment_variables: Option<Map<Seq<char>, String>>,
    pub resource_overrides: Option<PartialResourceRequirements>,
    pub priority: Option<i32>,
    pub max_retries: Option<i32>,
    pub labels: Option<Map<Seq<char>, String>>,
    pub created_by: Seq<char>,
    pub inputs: Option<Map<Seq<char>, JsonValue>>,
}

impl View for JobRequest {
    type V = JobRequestView;

    open spec fn view(&self) -> JobRequestView {
        JobRequestView {
            topic: self.topic@,
            image_id: self.image_id@,
            job_name: opt_str_view(self.job_name),
            command: opt_str_vec_view(self.command),
            args: opt_str_vec_view(self.args),
            environment_variables: opt_map_view(self.environment_variables),
            resource_overrides: self.resource_overrides,
            priority: self.priority,
            max_retries: self.max_retries,
            labels: opt_map_view(self.labels),
            created_by: self.created_by@,
            inputs: opt_map_view(self.inputs),
        }
    }
}

impl JobRequest {
    /// A copy of the request.
    pub fn duplicate(&self) -> (r: Self)
        ensures
            r@ == self@,
    {
        JobRequest {
            topic: self.topic.clone(),
            image_id: self.image_id.clone(),
            job_name: self.job_name.duplicate(),
            command: dup_opt_str_vec(&self.command),
            args: dup_opt_str_vec(&self.args),
            environment_variables: dup_opt_map(&self.environment_variables),
            resource_overrides: self.resource_overrides.duplicate(),
            priority: self.priority,
            max_retries: self.max_retries,
            labels: dup_opt_map(&self.labels),
            created_by: self.created_by.clone(),
            inputs: dup_opt_map(&self.inputs),
        }
    }
}

/// A job as the queue records it.
#[derive(Debug)]
pub struct JobStatusInfo {
    pub id: String,
    pub topic: String,
    pub status: JobStatus,
    pub image_id: String,
    pub job_name: Option<String>,
    pub k8s_job_name: Option<String>,
    pub k8s_namespace: Option<String>,
    pub claimed_by: Option<String>,
    pub claimed_at: Option<Timestamp>,
    pub started_at: Option<Timestamp>,
    pub completed_at: Option<Timestamp>,
    pub retry_count: i32,
    pub max_retries: i32,
    pub priority: i32,
    pub error_message: Option<String>,
    pub result_data: Option<JsonValue>,
    pub created_at: Timestamp,
    pub updated_at: Timestamp,
    pub created_by: String,
    pub command: Option<Vec<String>>,
    pub args: Option<Vec<String>>,
    pub environment_variables: Option<StrMap<String>>,
    pub resource_overrides: Option<PartialResourceRequirements>,
    pub labels: Option<StrMap<String>>,
    pub inputs: Option<JobInputs>,
    pub outputs: Option<JobOutputs>,
    pub dag_execution_id: Option<String>,
    pub dag_node_execution_id: Option<String>,
}

/// A job taken from the queue.
pub type QueuedJob = JobStatusInfo;

/// The abstract contents of a queued job.
pub struct JobView {
    pub id: Seq<char>,
    pub topic: Seq<char>,
    pub status: JobStatus,
    pub image_id: Seq<char>,
    pub job_name: Option<Seq<char>>,
    pub k8s_job_name: Option<Seq<char>>,
    pub k8s_namespace: Option<Seq<char>>,
    pub claimed_by: Option<Seq<char>>,
    pub claimed_at: Option<Timestamp>,
    pub started_at: Option<Timestamp>,
    pub completed_at: Option<Timestamp>,
    pub retry_count: i32,
    pub max_retries: i32,
    pub priority: i32,
    pub error_message: Option<Seq<char>>,
    pub result_data: Option<JsonValue>,
    pub created_at: Timestamp,
    pub updated_at: Timestamp,
    pub created_by: Seq<char>,
    pub command: Option<Seq<Seq<char>>>,
    pub args: Option<Seq<Seq<char>>>,
    pub environment_variables: Option<Map<Seq<char>, String>>,
    pub resource_overrides: Option<PartialResourceRequirements>,
    pub labels: Option<Map<Seq<char>, String>>,
    pub inputs: Option<Map<Seq<char>, JsonValue>>,
    pub outputs: Option<Map<Seq<char>, JsonValue>>,
    pub dag_execution_id: Option<Seq<char>>,
    pub dag_node_execution_id: Option<Seq<char>>,
}

impl View for JobStatusInfo {
    type V = JobView;

    open spec fn view(&self) -> JobView {
        JobView {
            id: self.id@,
            topic: self.topic@,
            status: self.status,
            image_id: self.image_id@,
            job_name: opt_str_view(self.job_name),
            k8s_job_name: opt_str_view(self.k8s_job_name),
            k8s_namespace: opt_str_view(self.k8s_namespace),
            claimed_by: opt_str_view(self.claimed_by),
            claimed_at: self.claimed_at,
            started_at: self.started_at,
            completed_at: self.completed_at,
            retry_count: self.retry_count,
            max_retries: self.max_retries,
            priority: self.priority,
            error_message: opt_str_view(self.error_message),
            result_data: self.result_data,
            created_at: self.created_at,
            updated_at: self.updated_at,
            created_by: self.created_by@,
            command: opt_str_vec_view(self.command),
            args: opt_str_vec_view(self.args),
            environment_variables: opt_map_view(self.environment_variables),
            resource_overrides: self.resource_overrides,
            labels: opt_map_view(self.labels),
            inputs: opt_map_view(self.inputs),
            outputs: opt_map_view(self.outputs),
            dag_execution_id: opt_str_view(self.dag_execution_id),
            dag_node_execution_id: opt_str_view(self.dag_node_execution_id),
        }
    }
}

impl JobStatusInfo {
    /// A copy of the job.
    pub fn duplicate(&self) -> (r: Self)
        ensures
            r@ == self@,
    {
        JobStatusInfo {
            id: self.id.clone(),
            topic: self.topic.clone(),
            status: self.status,
            image_id: self.image_id.clone(),
            job_name: self.job_name.duplicate(),
            k8s_job_name: self.k8s_job_name.duplicate(),
            k8s_namespace: self.k8s_namespace.duplicate(),
            claimed_by: self.claimed_by.duplicate(),
            claimed_at: self.claimed_at,
            started_at: self.started_at,
            completed_at: self.completed_at,
            retry_count: self.retry_count,
            max_retries: self.max_retries,
            priority: self.priority,
            error_message: self.error_message.duplicate(),
            result_data: self.result_data.duplicate(),
            created_at: self.created_at,
            updated_at: self.updated_at,
            created_by: self.created_by.clone(),
            command: dup_opt_str_vec(&self.command),
            args: dup_opt_str_vec(&self.args),
            environment_variables: dup_opt_map(&self.environment_variables),
            resource_overrides: self.resource_overrides.duplicate(),
            labels: dup_opt_map(&self.labels),
            inputs: dup_opt_map(&self.inputs),
            outputs: dup_opt_map(&self.outputs),
            dag_execution_id: self.dag_execution_id.duplicate(),
            dag_node_execution_id: self.dag_node_execution_id.duplicate(),
        }
    }
}

/// A change to a queued job's status and the fields that go with it.
#[derive(Debug, Clone, PartialEq, Eq)]
pub struct JobStatusUpdate {
    pub id: String,
    pub status: JobStatus,
    pub k8s_job_name: Option<String>,
    pub claimed_by: Option<String>,
    pub claimed_at: Option<Timestamp>,
    pub started_at: Option<Timestamp>,
    pub completed_at: Option<Timestamp>,
    pub error_message: Option<String>,
    pub result_data: Option<JsonValue>,
    pub retry_count: Option<i32>,
}

impl Default for JobStatusUpdate {
    /// An update of no job (empty id) to `Pending` that sets nothing else.
    fn default() -> (u: Self)
        ensures
            u.id@ == Seq::<char>::empty(),
            u.status == JobStatus::Pending,
            u.k8s_job_name is None,
            u.claimed_by is None,
            u.claimed_at is None,
            u.started_at is None,
            u.completed_at is None,
            u.error_message is None,
            u.result_data is None,
            u.retry_count is None,
    {
        JobStatusUpdate {
            id: String::new(),
            status: JobStatus::Pending,
            k8s_job_name: None,
            claimed_by: None,
            claimed_at: None,
            started_at: None,
            completed_at: None,
            error_message: None,
            result_data: None,
            retry_count: None,
        }
    }
}

/// Everything needed to create one Kubernetes job.
#[derive(Debug)]
pub struct JobExecutionSpec {
    pub job_id: String,
    pub image_path: String,
    pub command: Option<Vec<String>>,
    pub args: Option<Vec<String>>,
    pub environment_variables: StrMap<String>,
    pub resources: ResourceRequirements,
    pub labels: StrMap<String>,
    pub namespace: String,
    pub job_name: String,
}

/// Counts and times that Kubernetes reports for a job.
#[derive(Debug, Clone, PartialEq, Eq)]
pub struct K8sJobStatus {
    pub active: i32,
    pub succeeded: i32,
    pub failed: i32,
    pub start_time: Option<String>,
    pub completion_time: Option<String>,
    pub conditions: Option<Vec<K8sJobCondition>>,
}

/// One condition of a Kubernetes job.
#[derive(Debug, Clone, PartialEq, Eq)]
pub struct K8sJobCondition {
    pub condition_type: String,
    pub status: String,
    pub last_probe_time: Option<String>,
    pub last_transition_time: Option<String>,
    pub reason: Option<String>,
    pub message: Option<String>,
}

impl Duplicate for K8sJobCondition {
    fn duplicate(&self) -> (r: Self) {
        K8sJobCondition {
            condition_type: self.condition_type.clone(),
            status: self.status.clone(),
            last_probe_time: self.last_probe_time.duplicate(),
            last_transition_time: self.last_transition_time.duplicate(),
            reason: self.reason.duplicate(),
            message: self.message.duplicate(),
        }
    }
}

} // verus!
