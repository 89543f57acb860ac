//! The Kubernetes job that runs one job of the queue: the manifest that is
//! submitted for it, and how Kubernetes' answers are read back.
use vstd::prelude::*;
use crate::config::{or_default, parse_i32_or, text_or};
use crate::error::KubernetesError;
use crate::strmap::StrMap;
use crate::text::spec_parse_i32;
use crate::types::{JobExecutionSpec, K8sJobCondition, K8sJobStatus};
use crate::views::{dup_opt_str_vec, opt_str_vec_view, opt_str_view, owned};

verus! {

// ---------------------------------------------------------------------------
// Settings of the job manifest
// ---------------------------------------------------------------------------

/// The settings of every submitted job that come from the environment.
#[derive(Debug, Clone, PartialEq, Eq)]
pub struct JobSettings {
    pub output_collector_image: String,
    pub api_service_url: String,
    pub ttl_seconds: i32,
    pub backoff_limit: i32,
}

/// The number that `s` writes as an `i32`, or `default`.
pub open spec fn i32_or(s: Seq<char>, default: int) -> int {
    match spec_parse_i32(s) {
        Ok(v) => v,
        Err(_) => default,
    }
}

impl JobSettings {
    /// The settings from the values of `OUTPUT_COLLECTOR_IMAGE`,
    /// `API_SERVICE_URL` (default `http://job-orchestrator-api`),
    /// `K8S_JOB_TTL_SECONDS` (default 3600) and `K8S_JOB_BACKOFF_LIMIT`
    /// (default 0). A number that does not read keeps its default.
    pub fn from_env_values(
        output_collector_image: Option<String>,
        api_service_url: Option<String>,
        ttl_seconds: Option<String>,
        backoff_limit: Option<String>,
    ) -> (s: Self)
        ensures
            s.output_collector_image@ == or_default(
                output_collector_image,
                "us-docker.pkg.dev/sonic-glazing-475623-j4/job-orchestrator/output-collector:latest"@,
            ),
            s.api_service_url@ == or_default(api_service_url, "http://job-orchestrator-api"@),
            s.ttl_seconds as int == i32_or(or_default(ttl_seconds, "3600"@), 3600),
            s.backoff_limit as int == i32_or(or_default(backoff_limit, "0"@), 0),
    {
        let ttl_text = text_or(&ttl_seconds, "3600");
        let backoff_text = text_or(&backoff_limit, "0");
        JobSettings {
            output_collector_image: text_or(
                &output_collector_image,
                "us-docker.pkg.dev/sonic-glazing-475623-j4/job-orchestrator/output-collector:latest",
            ),
            api_service_url: text_or(&api_service_url, "http://job-orchestrator-api"),
            ttl_seconds: parse_i32_or(ttl_text.as_str(), 3600),
            backoff_limit: parse_i32_or(backoff_text.as_str(), 0),
        }
    }
}

// ---------------------------------------------------------------------------
// The manifest
// ---------------------------------------------------------------------------

/// An environment variable of a container.
#[derive(Debug, Clone, PartialEq, Eq)]
pub struct EnvVarSpec {
    pub name: String,
    pub value: String,
}

/// A volume mounted into a container.
#[derive(Debug, Clone, PartialEq, Eq)]
pub struct VolumeMountSpec {
    pub name: String,
    pub mount_path: String,
    pub read_only: Option<bool>,
}

/// CPU and memory amounts, in Kubernetes quantity notation.
#[derive(Debug, Clone, PartialEq, Eq)]
pub struct ResourceAmounts {
    pub cpu: String,
    pub memory: String,
}

/// One container of the job's pod.
#[derive(Debug, Clone, PartialEq, Eq)]
pub struct ContainerSpec {
    pub name: String,
    pub image: String,
    pub image_pull_policy: Option<String>,
    pub command: Option<Vec<String>>,
    pub args: Option<Vec<String>>,
    pub env: Vec<EnvVarSpec>,
    pub requests: ResourceAmounts,
    pub limits: ResourceAmounts,
    pub volume_mounts: Vec<VolumeMountSpec>,
}

/// The Kubernetes job to submit: its metadata, its job settings and its
/// pod (which carries the same labels, restarts `Never`, and has the listed
/// empty-directory volumes and the containers).
#[derive(Debug)]
pub struct JobManifest {
    pub name: String,
    pub namespace: String,
    pub labels: StrMap<String>,
    pub ttl_seconds_after_finished: i32,
    pub backoff_limit: i32,
    pub restart_policy: String,
    pub empty_dir_volumes: Vec<String>,
    pub containers: Vec<ContainerSpec>,
}

pub open spec fn string_map_view(m: Map<Seq<char>, String>) -> Map<Seq<char>, Seq<char>> {
    m.map_values(|s: String| s@)
}

pub open spec fn env_view(env: Seq<EnvVarSpec>) -> Seq<(Seq<char>, Seq<char>)> {
    env.map_values(|e: EnvVarSpec| (e.name@, e.value@))
}

pub open spec fn mounts_view(m: Seq<VolumeMountSpec>) -> Seq<(Seq<char>, Seq<char>, Option<bool>)> {
    m.map_values(|v: VolumeMountSpec| (v.name@, v.mount_path@, v.read_only))
}

pub open spec fn amounts_view(a: ResourceAmounts) -> (Seq<char>, Seq<char>) {
    (a.cpu@, a.memory@)
}

/// The entries of a string map as name/value pairs, in key order.
pub open spec fn entries_in_order(m: StrMap<String>) -> Seq<(Seq<char>, Seq<char>)> {
    m.key_seq().map_values(|k: Seq<char>| (k, m@[k]@))
}

/// The labels of the job and of its pod: the two labels that mark it as
/// the orchestrator's, under the labels of the spec.
pub open spec fn manifest_labels(spec: JobExecutionSpec) -> Map<Seq<char>, Seq<char>> {
    map![
        "app.kubernetes.io/managed-by"@ => "job-orchestrator"@,
        "job-orchestrator.io/job-id"@ => spec.job_id@,
    ].union_prefer_right(string_map_view(spec.labels@))
}

/// The labels of a job's manifest: every label of the specification with
/// its value; `app.kubernetes.io/managed-by` set to `job-orchestrator` and
/// `job-orchestrator.io/job-id` set to the job's id, unless the
/// specification sets them itself; and no other label.
pub proof fn law_manifest_labels(spec: JobExecutionSpec)
    ensures
        forall|k: Seq<char>| #[trigger] spec.labels@.contains_key(k) ==> manifest_labels(spec).contains_key(k)
            && manifest_labels(spec)[k] == spec.labels@[k]@,
        !spec.labels@.contains_key("app.kubernetes.io/managed-by"@) ==> manifest_labels(spec).contains_key(
            "app.kubernetes.io/managed-by"@,
        ) && manifest_labels(spec)["app.kubernetes.io/managed-by"@] == "job-orchestrator"@,
        !spec.labels@.contains_key("job-orchestrator.io/job-id"@) ==> manifest_labels(spec).contains_key(
            "job-orchestrator.io/job-id"@,
        ) && manifest_labels(spec)["job-orchestrator.io/job-id"@] == spec.job_id@,
        forall|k: Seq<char>| #[trigger] manifest_labels(spec).contains_key(k) ==> k == "app.kubernetes.io/managed-by"@
            || k == "job-orchestrator.io/job-id"@ || spec.labels@.contains_key(k),
{
    reveal_strlit("app.kubernetes.io/managed-by");
    reveal_strlit("job-orchestrator.io/job-id");
    assert("app.kubernetes.io/managed-by"@[0] != "job-orchestrator.io/job-id"@[0]);
}

/// The container that runs the job's image.
pub open spec fn is_job_container(c: ContainerSpec, spec: JobExecutionSpec) -> bool {
    &&& c.name@ == "job"@
    &&& c.image@ == spec.image_path@
    &&& c.image_pull_policy is None
    &&& opt_str_vec_view(c.command) == opt_str_vec_view(spec.command)
    &&& opt_str_vec_view(c.args) == opt_str_vec_view(spec.args)
    &&& env_view(c.env@) == entries_in_order(spec.environment_variables)
    &&& amounts_view(c.requests) == (spec.resources.cpu@, spec.resources.memory@)
    &&& amounts_view(c.limits) == (spec.resources.cpu@, spec.resources.memory@)
    &&& mounts_view(c.volume_mounts@) == seq![("job-output"@, "/output"@, None::<bool>)]
}

/// The container that hands the job's output file to the API.
pub open spec fn is_collector_container(c: ContainerSpec, spec: JobExecutionSpec, settings: JobSettings) -> bool {
    &&& c.name@ == "output-collector"@
    &&& c.image@ == settings.output_collector_image@
    &&& opt_str_view(c.image_pull_policy) == Some("IfNotPresent"@)
    &&& c.command is None
    &&& c.args is None
    &&& env_view(c.env@) == seq![
        ("JOB_ID"@, spec.job_id@),
        ("API_URL"@, settings.api_service_url@),
        ("OUTPUT_FILE"@, "/output/result.json"@),
        ("MAX_WAIT_SECONDS"@, "300"@),
        ("POLL_INTERVAL_MS"@, "2000"@),
    ]
    &&& amounts_view(c.requests) == ("10m"@, "32Mi"@)
    &&& amounts_view(c.limits) == ("50m"@, "64Mi"@)
    &&& mounts_view(c.volume_mounts@) == seq![("job-output"@, "/output"@, Some(true))]
}

fn env_var(name: &str, value: &str) -> (e: EnvVarSpec)
    ensures
        e.name@ == name@,
        e.value@ == value@,
{
    EnvVarSpec { name: owned(name), value: owned(value) }
}

fn amounts(cpu: &str, memory: &str) -> (a: ResourceAmounts)
    ensures
        amounts_view(a) == (cpu@, memory@),
{
    ResourceAmounts { cpu: owned(cpu), memory: owned(memory) }
}

fn output_mount(read_only: Option<bool>) -> (m: Vec<VolumeMountSpec>)
    ensures
        mounts_view(m@) == seq![("job-output"@, "/output"@, read_only)],
{
    let v = vec![VolumeMountSpec { name: owned("job-output"), mount_path: owned("/output"), read_only }];
    assert(mounts_view(v@) =~= seq![("job-output"@, "/output"@, read_only)]);
    v
}

/// The environment variables of a string map, in key order.
fn env_of(m: &StrMap<String>) -> (env: Vec<EnvVarSpec>)
    ensures
        env_view(env@) == entries_in_order(*m),
{
    let n = m.len();
    let mut env: Vec<EnvVarSpec> = Vec::new();
    let mut i: usize = 0;
    while i < n
        invariant
            n == m.key_seq().len(),
            i <= n,
            env_view(env@) == entries_in_order(*m).take(i as int),
        decreases n - i,
    {
        let k = m.key_at(i);
        let v = m.value_at(i);
        let ghost before = env_view(env@);
        env.push(EnvVarSpec { name: k.clone(), value: v.clone() });
        assert(env_view(env@) =~= before.push((k@, v@)));
        assert(entries_in_order(*m).take(i + 1) =~= entries_in_order(*m).take(i as int).push((k@, v@)));
        i = i + 1;
    }
    assert(entries_in_order(*m).take(n as int) =~= entries_in_order(*m));
    env
}

/// The labels of the manifest.
fn labels_of(spec: &JobExecutionSpec) -> (labels: StrMap<String>)
    ensures
        string_map_view(labels@) == manifest_labels(*spec),
{
    let mut labels: StrMap<String> = StrMap::new();
    labels.insert(owned("app.kubernetes.io/managed-by"), owned("job-orchestrator"));
    labels.insert(owned("job-orchestrator.io/job-id"), spec.job_id.clone());
    let ghost base = labels@;
    labels.extend(spec.labels.duplicate());
    assert(string_map_view(base) =~= map![
        "app.kubernetes.io/managed-by"@ => "job-orchestrator"@,
        "job-orchestrator.io/job-id"@ => spec.job_id@,
    ]);
    assert(string_map_view(labels@) =~= string_map_view(base).union_prefer_right(string_map_view(spec.labels@)));
    labels
}

/// The manifest of the Kubernetes job that runs `spec`: a container `job`
/// that runs the image with the spec's command, arguments and environment,
/// whose CPU and memory requests and limits are the spec's, and which
/// writes to the shared volume `job-output` at `/output`; and a container
/// `output-collector` that reads that volume and reports the result to the
/// API.
pub fn build_job_manifest(spec: &JobExecutionSpec, settings: &JobSettings) -> (m: JobManifest)
    ensures
        m.name@ == spec.job_name@,
        m.namespace@ == spec.namespace@,
        string_map_view(m.labels@) == manifest_labels(*spec),
        m.ttl_seconds_after_finished == settings.ttl_seconds,
        m.backoff_limit == settings.backoff_limit,
        m.restart_policy@ == "Never"@,
        m.empty_dir_volumes@.map_values(|v: String| v@) == seq!["job-output"@],
        m.containers.len() == 2,
        is_job_container(m.containers@[0], *spec),
        is_collector_container(m.containers@[1], *spec, *settings),
{
    let job = ContainerSpec {
        name: owned("job"),
        image: spec.image_path.clone(),
        image_pull_policy: None,
        command: dup_opt_str_vec(&spec.command),
        args: dup_opt_str_vec(&spec.args),
        env: env_of(&spec.environment_variables),
        requests: amounts(spec.resources.cpu.as_str(), spec.resources.memory.as_str()),
        limits: amounts(spec.resources.cpu.as_str(), spec.resources.memory.as_str()),
        volume_mounts: output_mount(None),
    };
    let collector_env = vec![
        env_var("JOB_ID", spec.job_id.as_str()),
        env_var("API_URL", settings.api_service_url.as_str()),
        env_var("OUTPUT_FILE", "/output/result.json"),
        env_var("MAX_WAIT_SECONDS", "300"),
        env_var("POLL_INTERVAL_MS", "2000"),
    ];
    assert(env_view(collector_env@) =~= seq![
        ("JOB_ID"@, spec.job_id@),
        ("API_URL"@, settings.api_service_url@),
        ("OUTPUT_FILE"@, "/output/result.json"@),
        ("MAX_WAIT_SECONDS"@, "300"@),
        ("POLL_INTERVAL_MS"@, "2000"@),
    ]);
    let collector = ContainerSpec {
        name: owned("output-collector"),
        image: settings.output_collector_image.clone(),
        image_pull_policy: Some(owned("IfNotPresent")),
        command: None,
        args: None,
        env: collector_env,
        requests: amounts("10m", "32Mi"),
        limits: amounts("50m", "64Mi"),
        volume_mounts: output_mount(Some(true)),
    };
    let volumes = vec![owned("job-output")];
    assert(volumes@.map_values(|v: String| v@) =~= seq!["job-output"@]);
    let containers = vec![job, collector];
    JobManifest {
        name: spec.job_name.clone(),
        namespace: spec.namespace.clone(),
        labels: labels_of(spec),
        ttl_seconds_after_finished: settings.ttl_seconds,
        backoff_limit: settings.backoff_limit,
        restart_policy: owned("Never"),
        empty_dir_volumes: volumes,
        containers,
    }
}

// ---------------------------------------------------------------------------
// Reading Kubernetes' answers
// ---------------------------------------------------------------------------

impl K8sJobStatus {
    /// The status from what Kubernetes reported: a count it left out is 0.
    pub fn from_reported(
        active: Option<i32>,
        succeeded: Option<i32>,
        failed: Option<i32>,
        start_time: Option<String>,
        completion_time: Option<String>,
        conditions: Option<Vec<K8sJobCondition>>,
    ) -> (s: Self)
        ensures
            s.active == (match active {
                Some(n) => n,
                None => 0,
            }),
            s.succeeded == (match succeeded {
                Some(n) => n,
                None => 0,
            }),
            s.failed == (match failed {
                Some(n) => n,
                None => 0,
            }),
            s.start_time == start_time,
            s.completion_time == completion_time,
            s.conditions == conditions,
    {
        K8sJobStatus {
            active: match active {
                Some(n) => n,
                None => 0,
            },
            succeeded: match succeeded {
                Some(n) => n,
                None => 0,
            },
            failed: match failed {
                Some(n) => n,
                None => 0,
            },
            start_time,
            completion_time,
            conditions,
        }
    }
}

/// Why deleting a job failed: the HTTP status code of an answer of the API,
/// if the API answered, and the error's text.
#[derive(Debug, Clone, PartialEq, Eq)]
pub struct DeleteFailure {
    pub api_status_code: Option<u16>,
    pub message: String,
}

/// The outcome of deleting a job: a job that is already gone (the API
/// answers 404) counts as deleted.
pub fn delete_outcome(r: Result<(), DeleteFailure>) -> (o: Result<(), KubernetesError>)
    ensures
        match r {
            Ok(()) => o is Ok,
            Err(f) => if f.api_status_code == Some(404u16) {
                o is Ok
            } else {
                o matches Err(KubernetesError::DeleteJobError(m)) && m@ == f.message@
            },
        },
{
    match r {
        Ok(()) => Ok(()),
        Err(f) => {
            if f.api_status_code == Some(404u16) {
                Ok(())
            } else {
                Err(KubernetesError::DeleteJobError(f.message))
            }
        },
    }
}

/// The label selector of the pods of the job `job_name`.
pub fn pod_label_selector(job_name: &str) -> (s: String)
    ensures
        s@ == "job-name="@ + job_name@,
{
    String::from_str("job-name=").concat(job_name)
}

/// The pod whose logs are read: the name of the first pod listed, if it
/// has one.
pub fn first_pod_name(names: Vec<Option<String>>) -> (r: Option<String>)
    ensures
        opt_str_view(r) == (if names.len() > 0 {
            opt_str_view(names@[0])
        } else {
            None
        }),
{
    let mut names = names;
    if names.len() > 0 {
        names.swap_remove(0)
    } else {
        None
    }
}

} // verus!
