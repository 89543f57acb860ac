//! The decisions of the job executor: which topics it serves, how many jobs
//! it claims, how a claimed job becomes a Kubernetes job specification,
//! what each step records, and what the status of a running Kubernetes job
//! means for the queued job.
use vstd::prelude::*;
use vstd::utf8::{decode_utf8, encode_utf8, encode_utf8_decode_utf8, is_char_boundary};
use vstd::string::StringSliceAdditionalSpecFns;
use crate::database::{HistoryEntry, ImageInfo, JobQueueRepository, no_duplicate_strings, some_job_has_topic};
use crate::error::{spec_is_permanent, ExecutorError};
use crate::json::{json_string_literal, json_values, spec_env_text, JobOutputs, JsonValue};
use crate::views::{contains_string, has_string, str_vec_view};
use crate::strmap::{Duplicate, StrMap};
use crate::text::{i32_to_decimal, int_decimal};
use crate::types::{
    ExecutorConfig, JobExecutionSpec, JobStatus, JobStatusUpdate, K8sJobCondition, K8sJobStatus,
    Priority, QueuedJob, ReadyNotification, ResourceRequirements, Timestamp,
};
use crate::views::{dup_opt_str_vec, dup_str_vec, opt_map_view, opt_str_vec_view, opt_str_view, owned};

verus! {

// ---------------------------------------------------------------------------
// Limits and topics
// ---------------------------------------------------------------------------

/// How many jobs an executor runs at once: ten per claimed batch.
pub fn concurrency_limit(batch_size: usize) -> (limit: usize)
    requires
        batch_size * 10 <= usize::MAX,
    ensures
        limit == batch_size * 10,
{
    batch_size * 10
}

/// How many jobs to claim for a readiness notification: as many as are
/// ready, but no more than a batch.
pub fn claim_limit(job_count: usize, batch_size: usize) -> (n: usize)
    ensures
        n <= job_count,
        n <= batch_size,
        n == job_count || n == batch_size,
{
    if job_count < batch_size {
        job_count
    } else {
        batch_size
    }
}

/// The topics an executor serves: those it is configured with, or, when
/// they include `ALL`, every topic that the queue holds.
pub fn get_effective_topics<J: JobQueueRepository>(config: &ExecutorConfig, job_repo: &J) -> (r: Result<
    Vec<String>,
    ExecutorError,
>)
    ensures
        !has_string(config.topics@, "ALL"@) ==> (r matches Ok(v) && v@ == config.topics@),
        has_string(config.topics@, "ALL"@) ==> (r matches Err(e) ==> e is DatabaseError),
        has_string(config.topics@, "ALL"@) && job_repo.answers() ==> (r matches Ok(v) && no_duplicate_strings(v@)
            && forall|i: int| 0 <= i < v.len() ==> #[trigger] some_job_has_topic(job_repo.jobs(), v@[i]@)),
        has_string(config.topics@, "ALL"@) && job_repo.answers() ==> (r matches Ok(v) && forall|k: Seq<char>|
            #[trigger] job_repo.jobs().contains_key(k) ==> has_string(v@, job_repo.jobs()[k].topic)),
        has_string(config.topics@, "ALL"@) && job_repo.answers() ==> (r matches Ok(v) && str_vec_view(v)
            == job_repo.listed_topics()),
{
    if !contains_string(&config.topics, "ALL") {
        return Ok(dup_str_vec(&config.topics));
    }
    topics_from_answer(job_repo.get_distinct_topics())
}

/// What the executor makes of the queue's answer to `get_distinct_topics`:
/// the topics it listed, or its error as a database error.
pub fn topics_from_answer(answer: Result<Vec<String>, String>) -> (r: Result<Vec<String>, ExecutorError>)
    ensures
        match answer {
            Ok(v) => r matches Ok(w) && w@ == v@,
            Err(e) => r matches Err(x) && x == ExecutorError::DatabaseError(e),
        },
{
    match answer {
        Ok(v) => Ok(v),
        Err(e) => Err(ExecutorError::DatabaseError(e)),
    }
}

/// The notification the executor sends itself at start-up, given the topics
/// the queue listed: a batch at low priority when some topic has jobs,
/// nothing when the queue is empty.
pub fn startup_notification(topics: &Vec<String>, batch_size: usize) -> (n: Option<ReadyNotification>)
    ensures
        topics.len() == 0 ==> n is None,
        topics.len() > 0 ==> n == Some(
            ReadyNotification { job_count: batch_size, priority: Priority::Low, sibling_group_id: None },
        ),
{
    if topics.len() == 0 {
        None
    } else {
        Some(ReadyNotification { job_count: batch_size, priority: Priority::Low, sibling_group_id: None })
    }
}

/// Whether a failed job is tried again: only while it has retries left, and
/// never after a permanent error.
pub fn should_retry_job(job: &QueuedJob, error: &ExecutorError) -> (b: bool)
    ensures
        b == (job.retry_count < job.max_retries && !spec_is_permanent(*error)),
{
    if job.retry_count >= job.max_retries {
        return false;
    }
    if error.is_permanent() {
        return false;
    }
    true
}

// ---------------------------------------------------------------------------
// The Kubernetes job of a queued job
// ---------------------------------------------------------------------------

/// What `str::to_uppercase` gives for `s` (the Unicode upper-case mapping).
pub uninterp spec fn upper_case(s: Seq<char>) -> Seq<char>;

/// `str::to_uppercase`. Its result is named by `upper_case`.
#[verifier::external_body]
fn to_uppercase(s: &str) -> (r: String)
    ensures
        r@ == upper_case(s@),
{
    s.to_uppercase()
}

/// The texts of a map to strings.
pub open spec fn text_values(m: Map<Seq<char>, String>) -> Map<Seq<char>, Seq<char>> {
    m.map_values(|s: String| s@)
}

/// `env` with each input of `keys` (in that order) set under its key in
/// upper case, to the input's text as an environment variable.
pub open spec fn with_inputs(
    env: Map<Seq<char>, Seq<char>>,
    keys: Seq<Seq<char>>,
    inputs: Map<Seq<char>, JsonValue>,
) -> Map<Seq<char>, Seq<char>>
    decreases keys.len(),
{
    if keys.len() == 0 {
        env
    } else {
        with_inputs(env, keys.drop_last(), inputs).insert(
            upper_case(keys.last()),
            spec_env_text(inputs[keys.last()]@),
        )
    }
}

/// The environment of a job's container: the image's variables, overridden
/// by the job's, then `JOB_ID` and `TOPIC`, then the job's inputs.
pub open spec fn job_environment(job: QueuedJob, image: ImageInfo) -> Map<Seq<char>, Seq<char>> {
    let base = match job.environment_variables {
        Some(e) => text_values(image.environment_variables@).union_prefer_right(text_values(e@)),
        None => text_values(image.environment_variables@),
    };
    let with_ids = base.insert("JOB_ID"@, job.id@).insert("TOPIC"@, job.topic@);
    match job.inputs {
        Some(inputs) => with_inputs(with_ids, inputs.key_seq(), inputs@),
        None => with_ids,
    }
}

/// The labels of a job's pods: the image's, overridden by the job's, and
/// `topic`.
pub open spec fn job_labels(job: QueuedJob, image: ImageInfo) -> Map<Seq<char>, Seq<char>> {
    let base = match job.labels {
        Some(l) => text_values(image.labels@).union_prefer_right(text_values(l@)),
        None => text_values(image.labels@),
    };
    base.insert("topic"@, job.topic@)
}

/// The CPU of a job: the job's override, else the image's default, else
/// `100m`.
pub open spec fn job_cpu(job: QueuedJob, image: ImageInfo) -> Seq<char> {
    let default = match image.default_resources {
        Some(r) => r.cpu@,
        None => "100m"@,
    };
    match job.resource_overrides {
        Some(o) => match o.cpu {
            Some(c) => c@,
            None => default,
        },
        None => default,
    }
}

/// The memory of a job: the job's override, else the image's default, else
/// `128Mi`.
pub open spec fn job_memory(job: QueuedJob, image: ImageInfo) -> Seq<char> {
    let default = match image.default_resources {
        Some(r) => r.memory@,
        None => "128Mi"@,
    };
    match job.resource_overrides {
        Some(o) => match o.memory {
            Some(m) => m@,
            None => default,
        },
        None => default,
    }
}

/// The first `n` bytes of the UTF-8 text `s`, read back as characters.
pub open spec fn byte_prefix(s: Seq<char>, n: int) -> Seq<char> {
    decode_utf8(encode_utf8(s).subrange(0, n))
}

/// How many bytes of the id name a job that has no Kubernetes job name.
pub open spec fn id_cut(id: Seq<char>) -> int {
    if encode_utf8(id).len() < 8 {
        encode_utf8(id).len() as int
    } else {
        8
    }
}

/// The name of a job's Kubernetes job: the one it has, else `job-`
/// followed by the first eight bytes of its id.
pub open spec fn job_k8s_name(job: QueuedJob) -> Seq<char> {
    match job.k8s_job_name {
        Some(n) => n@,
        None => "job-"@ + byte_prefix(job.id@, id_cut(job.id@)),
    }
}

/// Whether the default Kubernetes job name of `job` can be cut from its id:
/// the eighth byte ends a character (or the id is shorter).
pub open spec fn job_name_cuttable(job: QueuedJob) -> bool {
    job.k8s_job_name is Some || is_char_boundary(encode_utf8(job.id@), id_cut(job.id@))
}

/// The error of a job whose image is not active: a permanent job-execution
/// error.
pub open spec fn is_inactive_image_error(e: ExecutorError) -> bool {
    e matches ExecutorError::JobExecutionError { message, category } && message@ == "Image is not active"@
        && category@ == "permanent"@
}

/// `spec` is the Kubernetes job specification of `job` with `image` under
/// `config`.
pub open spec fn built_spec(spec: JobExecutionSpec, job: QueuedJob, image: ImageInfo, config: ExecutorConfig) -> bool {
    &&& spec.job_id@ == job.id@
    &&& spec.image_path@ == image.full_image_path@
    &&& opt_str_vec_view(spec.command) == job@.command
    &&& opt_str_vec_view(spec.args) == job@.args
    &&& text_values(spec.environment_variables@) == job_environment(job, image)
    &&& spec.resources.cpu@ == job_cpu(job, image)
    &&& spec.resources.memory@ == job_memory(job, image)
    &&& text_values(spec.labels@) == job_labels(job, image)
    &&& spec.namespace@ == config.kubernetes_namespace@
    &&& spec.job_name@ == job_k8s_name(job)
}

/// The text `s` cut to at most `max` bytes.
pub fn truncate_bytes(s: &str, max: usize) -> (r: &str)
    requires
        encode_utf8(s@).len() <= max || is_char_boundary(encode_utf8(s@), max as int),
    ensures
        r@ == (if encode_utf8(s@).len() <= max {
            s@
        } else {
            byte_prefix(s@, max as int)
        }),
{
    let len = s.as_bytes().len();
    assert(len == encode_utf8(s@).len());
    if len <= max {
        s
    } else {
        let (head, _) = s.split_at(max);
        proof {
            encode_utf8_decode_utf8(head@);
            assert(head.spec_bytes() == encode_utf8(s@).subrange(0, max as int));
            assert(head@ == decode_utf8(head.spec_bytes()));
        }
        head
    }
}

fn default_job_name(id: &str) -> (name: String)
    requires
        is_char_boundary(encode_utf8(id@), id_cut(id@)),
    ensures
        name@ == "job-"@ + byte_prefix(id@, id_cut(id@)),
{
    let len = id.as_bytes().len();
    assert(len == encode_utf8(id@).len());
    let cut: usize = if len < 8 {
        len
    } else {
        8
    };
    assert(cut as int == id_cut(id@));
    assert(is_char_boundary(id.spec_bytes(), cut as int));
    let (head, _) = id.split_at(cut);
    proof {
        encode_utf8_decode_utf8(head@);
        assert(head.spec_bytes() == encode_utf8(id@).subrange(0, cut as int));
        assert(head@ == decode_utf8(head.spec_bytes()));
        reveal_strlit("job-");
    }
    String::from_str("job-").concat(head)
}

fn copy_strings(m: &StrMap<String>) -> (r: StrMap<String>)
    ensures
        r@ == m@,
        text_values(r@) == text_values(m@),
{
    m.duplicate()
}

/// The resources `res` of a job's Kubernetes job, told apart by case: an
/// amount the job overrides is the job's, whatever the image's defaults; an
/// amount it does not override is the image's default, or `100m` of CPU and
/// `128Mi` of memory when the image has none.
pub open spec fn resources_follow_overrides(res: ResourceRequirements, job: QueuedJob, image: ImageInfo) -> bool {
    &&& (job.resource_overrides is Some && job.resource_overrides->0.cpu is Some
        ==> res.cpu@ == job.resource_overrides->0.cpu->0@)
    &&& (job.resource_overrides is Some && job.resource_overrides->0.memory is Some
        ==> res.memory@ == job.resource_overrides->0.memory->0@)
    &&& ((job.resource_overrides is None || job.resource_overrides->0.cpu is None)
        && image.default_resources is Some ==> res.cpu@ == image.default_resources->0.cpu@)
    &&& ((job.resource_overrides is None || job.resource_overrides->0.memory is None)
        && image.default_resources is Some ==> res.memory@ == image.default_resources->0.memory@)
    &&& ((job.resource_overrides is None || job.resource_overrides->0.cpu is None)
        && image.default_resources is None ==> res.cpu@ == "100m"@)
    &&& ((job.resource_overrides is None || job.resource_overrides->0.memory is None)
        && image.default_resources is None ==> res.memory@ == "128Mi"@)
}

/// The labels `l` of a job's pods, key by key: `topic` is the job's topic;
/// any other key has the job's label when the job sets it, else the image's
/// label when the image sets it, and is absent otherwise.
pub open spec fn labels_follow_job_then_image(l: Map<Seq<char>, Seq<char>>, job: QueuedJob, image: ImageInfo) -> bool {
    &&& l.contains_key("topic"@) && l["topic"@] == job.topic@
    &&& forall|k: Seq<char>|
        k != "topic"@ ==> {
            &&& (job.labels is Some && #[trigger] job.labels->0@.contains_key(k) ==> l.contains_key(k) && l[k]
                == job.labels->0@[k]@)
            &&& ((job.labels is None || !job.labels->0@.contains_key(k)) && image.labels@.contains_key(k)
                ==> l.contains_key(k) && l[k] == image.labels@[k]@)
            &&& ((job.labels is None || !job.labels->0@.contains_key(k)) && !image.labels@.contains_key(k)
                ==> !l.contains_key(k))
        }
}

/// The labels of a job's pods are its topic under `topic` and otherwise the
/// job's labels over the image's.
pub proof fn law_job_labels(spec: JobExecutionSpec, job: QueuedJob, image: ImageInfo, config: ExecutorConfig)
    requires
        built_spec(spec, job, image, config),
    ensures
        labels_follow_job_then_image(text_values(spec.labels@), job, image),
{
}

/// Some input of `job` is named `k` once upper-cased.
pub open spec fn set_by_input(job: QueuedJob, k: Seq<char>) -> bool {
    job.inputs is Some && exists|i: Seq<char>| #[trigger] job.inputs->0@.contains_key(i) && upper_case(i) == k
}

/// The environment `env` of a job's container, variable by variable:
/// `JOB_ID` is the job's id and `TOPIC` its topic, unless an input of the
/// job sets them; every input of the job is set under its name in upper
/// case; any other variable is the job's when the job sets it, else the
/// image's when the image sets it, and absent otherwise.
pub open spec fn environment_follows_job_then_image(
    env: Map<Seq<char>, Seq<char>>,
    job: QueuedJob,
    image: ImageInfo,
) -> bool {
    &&& (job.inputs is Some ==> forall|i: Seq<char>| #[trigger]
        job.inputs->0@.contains_key(i) ==> env.contains_key(upper_case(i)))
    &&& (!set_by_input(job, "JOB_ID"@) ==> env.contains_key("JOB_ID"@) && env["JOB_ID"@] == job.id@)
    &&& (!set_by_input(job, "TOPIC"@) ==> env.contains_key("TOPIC"@) && env["TOPIC"@] == job.topic@)
    &&& forall|k: Seq<char>|
        #![trigger env.contains_key(k)]
        k != "JOB_ID"@ && k != "TOPIC"@ && !set_by_input(job, k) ==> {
            &&& (job.environment_variables is Some && job.environment_variables->0@.contains_key(k)
                ==> env.contains_key(k) && env[k] == job.environment_variables->0@[k]@)
            &&& ((job.environment_variables is None || !job.environment_variables->0@.contains_key(k))
                && image.environment_variables@.contains_key(k) ==> env.contains_key(k) && env[k]
                == image.environment_variables@[k]@)
            &&& ((job.environment_variables is None || !job.environment_variables->0@.contains_key(k))
                && !image.environment_variables@.contains_key(k) ==> !env.contains_key(k))
        }
}

proof fn lemma_with_inputs_keys(env: Map<Seq<char>, Seq<char>>, keys: Seq<Seq<char>>, inputs: Map<Seq<char>, JsonValue>)
    ensures
        forall|j: int| 0 <= j < keys.len() ==> with_inputs(env, keys, inputs).contains_key(upper_case(#[trigger] keys[j])),
    decreases keys.len(),
{
    if keys.len() > 0 {
        lemma_with_inputs_keys(env, keys.drop_last(), inputs);
        assert forall|j: int| 0 <= j < keys.len() implies with_inputs(env, keys, inputs).contains_key(
            upper_case(#[trigger] keys[j]),
        ) by {
            if j < keys.len() - 1 {
                assert(keys[j] == keys.drop_last()[j]);
            }
        }
    }
}

proof fn lemma_with_inputs_other(
    env: Map<Seq<char>, Seq<char>>,
    keys: Seq<Seq<char>>,
    inputs: Map<Seq<char>, JsonValue>,
    k: Seq<char>,
)
    requires
        forall|j: int| 0 <= j < keys.len() ==> upper_case(#[trigger] keys[j]) != k,
    ensures
        with_inputs(env, keys, inputs).contains_key(k) == env.contains_key(k),
        env.contains_key(k) ==> with_inputs(env, keys, inputs)[k] == env[k],
    decreases keys.len(),
{
    if keys.len() > 0 {
        assert forall|j: int| 0 <= j < keys.drop_last().len() implies upper_case(#[trigger] keys.drop_last()[j])
            != k by {
            assert(keys.drop_last()[j] == keys[j]);
        }
        lemma_with_inputs_other(env, keys.drop_last(), inputs, k);
        assert(upper_case(keys[keys.len() - 1]) != k);
    }
}

/// The environment of a job's container is the job's variables over the
/// image's, then `JOB_ID` and `TOPIC`, then each input under its name in
/// upper case.
pub proof fn law_job_environment(spec: JobExecutionSpec, job: QueuedJob, image: ImageInfo, config: ExecutorConfig)
    requires
        built_spec(spec, job, image, config),
    ensures
        environment_follows_job_then_image(text_values(spec.environment_variables@), job, image),
{
    let env = text_values(spec.environment_variables@);
    let base = match job.environment_variables {
        Some(e) => text_values(image.environment_variables@).union_prefer_right(text_values(e@)),
        None => text_values(image.environment_variables@),
    };
    let with_ids = base.insert("JOB_ID"@, job.id@).insert("TOPIC"@, job.topic@);
    reveal_strlit("JOB_ID");
    reveal_strlit("TOPIC");
    assert("JOB_ID"@.len() != "TOPIC"@.len());
    match job.inputs {
        Some(inputs) => {
            let ks = inputs.key_seq();
            inputs.lemma_keys_in_order();
            lemma_with_inputs_keys(with_ids, ks, inputs@);
            assert forall|j: int| 0 <= j < ks.len() implies inputs@.contains_key(#[trigger] ks[j]) by {
                assert(ks.contains(ks[j]));
            }
            assert forall|i: Seq<char>| #[trigger] inputs@.contains_key(i) implies env.contains_key(upper_case(i)) by {
                assert(ks.contains(i));
                let j = choose|j: int| 0 <= j < ks.len() && ks[j] == i;
                assert(env.contains_key(upper_case(ks[j])));
            }
            if !set_by_input(job, "JOB_ID"@) {
                assert forall|j: int| 0 <= j < ks.len() implies upper_case(#[trigger] ks[j]) != "JOB_ID"@ by {
                    assert(inputs@.contains_key(ks[j]));
                }
                lemma_with_inputs_other(with_ids, ks, inputs@, "JOB_ID"@);
            }
            if !set_by_input(job, "TOPIC"@) {
                assert forall|j: int| 0 <= j < ks.len() implies upper_case(#[trigger] ks[j]) != "TOPIC"@ by {
                    assert(inputs@.contains_key(ks[j]));
                }
                lemma_with_inputs_other(with_ids, ks, inputs@, "TOPIC"@);
            }
            assert forall|k: Seq<char>|
                #![trigger env.contains_key(k)]
                k != "JOB_ID"@ && k != "TOPIC"@ && !set_by_input(job, k) implies {
                    &&& (job.environment_variables is Some && job.environment_variables->0@.contains_key(k)
                        ==> env.contains_key(k) && env[k] == job.environment_variables->0@[k]@)
                    &&& ((job.environment_variables is None || !job.environment_variables->0@.contains_key(k))
                        && image.environment_variables@.contains_key(k) ==> env.contains_key(k) && env[k]
                        == image.environment_variables@[k]@)
                    &&& ((job.environment_variables is None || !job.environment_variables->0@.contains_key(k))
                        && !image.environment_variables@.contains_key(k) ==> !env.contains_key(k))
                } by {
                assert forall|j: int| 0 <= j < ks.len() implies upper_case(#[trigger] ks[j]) != k by {
                    assert(inputs@.contains_key(ks[j]));
                }
                lemma_with_inputs_other(with_ids, ks, inputs@, k);
            }
        },
        None => {
            assert forall|k: Seq<char>|
                #![trigger env.contains_key(k)]
                k != "JOB_ID"@ && k != "TOPIC"@ && !set_by_input(job, k) implies {
                    &&& (job.environment_variables is Some && job.environment_variables->0@.contains_key(k)
                        ==> env.contains_key(k) && env[k] == job.environment_variables->0@[k]@)
                    &&& ((job.environment_variables is None || !job.environment_variables->0@.contains_key(k))
                        && image.environment_variables@.contains_key(k) ==> env.contains_key(k) && env[k]
                        == image.environment_variables@[k]@)
                    &&& ((job.environment_variables is None || !job.environment_variables->0@.contains_key(k))
                        && !image.environment_variables@.contains_key(k) ==> !env.contains_key(k))
                } by {
                assert(env == with_ids);
            }
        },
    }
}

/// The Kubernetes job specification of a job takes each resource amount the
/// job overrides from the job, whatever the image's defaults, and every
/// other amount from the image's defaults, or the built-in ones.
pub proof fn law_job_resources(spec: JobExecutionSpec, job: QueuedJob, image: ImageInfo, config: ExecutorConfig)
    requires
        built_spec(spec, job, image, config),
    ensures
        resources_follow_overrides(spec.resources, job, image),
{
}

/// Turns a claimed job into the specification of its Kubernetes job. An
/// inactive image is a permanent error.
pub fn build_job_spec(job: &QueuedJob, image: &ImageInfo, config: &ExecutorConfig) -> (r: Result<
    JobExecutionSpec,
    ExecutorError,
>)
    requires
        image.is_active ==> job_name_cuttable(*job),
    ensures
        !image.is_active ==> (r matches Err(e) && is_inactive_image_error(e)),
        image.is_active ==> (r matches Ok(spec) && built_spec(spec, *job, *image, *config)),
        image.is_active ==> (r matches Ok(spec) && resources_follow_overrides(spec.resources, *job, *image)),
{
    if !image.is_active {
        return Err(ExecutorError::job_execution_error("Image is not active", "permanent"));
    }
    // Environment: image, then job, then the job's identity, then its inputs.

    let mut env = copy_strings(&image.environment_variables);
    match &job.environment_variables {
        Some(job_env) => {
            let extra = copy_strings(job_env);
            env.extend(extra);
            assert(text_values(env@) =~= text_values(image.environment_variables@).union_prefer_right(
                text_values(job_env@),
            ));
        },
        None => {},
    }
    env.insert(owned("JOB_ID"), job.id.clone());
    env.insert(owned("TOPIC"), job.topic.clone());
    proof {
        reveal_strlit("JOB_ID");
        reveal_strlit("TOPIC");
    }
    let ghost with_ids = text_values(env@);
    assert(with_ids =~= (match job.environment_variables {
        Some(e) => text_values(image.environment_variables@).union_prefer_right(text_values(e@)),
        None => text_values(image.environment_variables@),
    }).insert("JOB_ID"@, job.id@).insert("TOPIC"@, job.topic@));
    match &job.inputs {
        Some(inputs) => {
            let n = inputs.len();
            let ghost ks = inputs.key_seq();
            let mut i: usize = 0;
            while i < n
                invariant
                    n == ks.len(),
                    ks == inputs.key_seq(),
                    i <= n,
                    text_values(env@) == with_inputs(with_ids, ks.take(i as int), inputs@),
                decreases n - i,
            {
                let key = inputs.key_at(i);
                let value = inputs.value_at(i);
                let env_key = to_uppercase(key.as_str());
                let env_value = value.env_text();
                env.insert(env_key, env_value);
                assert(ks.take(i + 1).drop_last() =~= ks.take(i as int));
                assert(text_values(env@) =~= with_inputs(with_ids, ks.take(i + 1), inputs@));
                i = i + 1;
            }
            assert(ks.take(n as int) =~= ks);
        },
        None => {},
    }
    // Resources: the image's defaults (or the built-in ones), then the job's overrides.

    let mut resources = match &image.default_resources {
        Some(r) => r.duplicate(),
        None => ResourceRequirements::new("100m", "128Mi"),
    };
    match &job.resource_overrides {
        Some(overrides) => {
            match &overrides.cpu {
                Some(cpu) => {
                    resources.cpu = cpu.clone();
                },
                None => {},
            }
            match &overrides.memory {
                Some(memory) => {
                    resources.memory = memory.clone();
                },
                None => {},
            }
        },
        None => {},
    }
    // Labels: the image's, then the job's, then the topic.

    let mut labels = copy_strings(&image.labels);
    match &job.labels {
        Some(job_labels) => {
            let extra = copy_strings(job_labels);
            labels.extend(extra);
        },
        None => {},
    }
    labels.insert(owned("topic"), job.topic.clone());
    proof {
        reveal_strlit("topic");
    }
    assert(text_values(labels@) =~= job_labels(*job, *image));
    let job_name = match &job.k8s_job_name {
        Some(name) => name.clone(),
        None => default_job_name(job.id.as_str()),
    };
    Ok(
        JobExecutionSpec {
            job_id: job.id.clone(),
            image_path: image.full_image_path.clone(),
            command: dup_opt_str_vec(&job.command),
            args: dup_opt_str_vec(&job.args),
            environment_variables: env,
            resources,
            labels,
            namespace: config.kubernetes_namespace.clone(),
            job_name,
        },
    )
}

// ---------------------------------------------------------------------------
// Records of the steps of an execution
// ---------------------------------------------------------------------------

/// The history entry of a job that an executor claimed.
pub fn claimed_history(job: &QueuedJob, instance_id: &str) -> (h: HistoryEntry)
    ensures
        h.job_id@ == job.id@,
        h.job_topic@ == job.topic@,
        h.status == JobStatus::Claimed,
        opt_str_view(h.message) == Some("Job claimed by executor "@ + instance_id@),
        h.pod_logs is None,
        h.k8s_events is None,
        h.metadata matches Some(m) && json_values(m@) == map!["executor_id"@ => json_string_literal(instance_id@)],
{
    let mut meta: StrMap<JsonValue> = StrMap::new();
    meta.insert(owned("executor_id"), JsonValue::from_string(instance_id));
    assert(json_values(meta@) =~= map!["executor_id"@ => json_string_literal(instance_id@)]);
    HistoryEntry {
        job_id: job.id.clone(),
        job_topic: job.topic.clone(),
        status: JobStatus::Claimed,
        message: Some(String::from_str("Job claimed by executor ").concat(instance_id)),
        pod_logs: None,
        k8s_events: None,
        metadata: Some(meta),
    }
}

/// The update that marks a job running in its Kubernetes job.
pub fn running_update(job: &QueuedJob, k8s_job_name: &str, started_at: Timestamp) -> (u: JobStatusUpdate)
    ensures
        u.id@ == job.id@,
        u.status == JobStatus::Running,
        opt_str_view(u.k8s_job_name) == Some(k8s_job_name@),
        u.started_at == Some(started_at),
        u.claimed_by is None,
        u.claimed_at is None,
        u.completed_at is None,
        u.error_message is None,
        u.result_data is None,
        u.retry_count is None,
{
    JobStatusUpdate {
        id: job.id.clone(),
        status: JobStatus::Running,
        k8s_job_name: Some(owned(k8s_job_name)),
        claimed_by: None,
        claimed_at: None,
        started_at: Some(started_at),
        completed_at: None,
        error_message: None,
        result_data: None,
        retry_count: None,
    }
}

/// The history entry of a job whose Kubernetes job was created.
pub fn job_created_history(job: &QueuedJob, spec: &JobExecutionSpec) -> (h: HistoryEntry)
    ensures
        h.job_id@ == job.id@,
        h.job_topic@ == job.topic@,
        h.status == JobStatus::Running,
        opt_str_view(h.message) == Some("Kubernetes Job created: "@ + spec.job_name@),
        h.pod_logs is None,
        h.k8s_events is None,
        h.metadata matches Some(m) && json_values(m@) == map![
            "k8s_job_name"@ => json_string_literal(spec.job_name@),
            "namespace"@ => json_string_literal(spec.namespace@),
            "image_path"@ => json_string_literal(spec.image_path@),
        ],
{
    let mut meta: StrMap<JsonValue> = StrMap::new();
    meta.insert(owned("k8s_job_name"), JsonValue::from_string(spec.job_name.as_str()));
    meta.insert(owned("namespace"), JsonValue::from_string(spec.namespace.as_str()));
    meta.insert(owned("image_path"), JsonValue::from_string(spec.image_path.as_str()));
    assert(json_values(meta@) =~= map![
        "k8s_job_name"@ => json_string_literal(spec.job_name@),
        "namespace"@ => json_string_literal(spec.namespace@),
        "image_path"@ => json_string_literal(spec.image_path@),
    ]);
    HistoryEntry {
        job_id: job.id.clone(),
        job_topic: job.topic.clone(),
        status: JobStatus::Running,
        message: Some(String::from_str("Kubernetes Job created: ").concat(spec.job_name.as_str())),
        pod_logs: None,
        k8s_events: None,
        metadata: Some(meta),
    }
}

// ---------------------------------------------------------------------------
// Monitoring a Kubernetes job
// ---------------------------------------------------------------------------

/// What the status of a Kubernetes job means for its queued job.
#[derive(Debug, Clone, Copy, PartialEq, Eq, Structural)]
pub enum MonitorDecision {
    /// A pod succeeded: the job is completed.
    Succeeded,
    /// A pod failed and the job has retries left: it goes back in the queue.
    Retry,
    /// A pod failed and the job has no retries left: it failed.
    FailedPermanently,
    /// Nothing finished yet: look again later.
    StillRunning,
}

pub open spec fn spec_monitor_decision(job: QueuedJob, status: K8sJobStatus) -> MonitorDecision {
    if status.succeeded > 0 {
        MonitorDecision::Succeeded
    } else if status.failed > 0 {
        if job.retry_count < job.max_retries {
            MonitorDecision::Retry
        } else {
            MonitorDecision::FailedPermanently
        }
    } else {
        MonitorDecision::StillRunning
    }
}

/// What a look at a Kubernetes job decides: a job with a succeeded pod
/// succeeded; a job with a failed pod and none succeeded is retried exactly
/// while it has retries left (`retry_count < max_retries`, as any transient
/// error is: `should_retry_job`), and otherwise failed for good; a job with
/// neither still runs.
pub proof fn law_monitor_decision(job: QueuedJob, status: K8sJobStatus, transient: ExecutorError)
    requires
        !spec_is_permanent(transient),
    ensures
        status.succeeded > 0 ==> spec_monitor_decision(job, status) == MonitorDecision::Succeeded,
        status.succeeded <= 0 && status.failed > 0 ==> (spec_monitor_decision(job, status) == MonitorDecision::Retry
            <==> job.retry_count < job.max_retries),
        status.succeeded <= 0 && status.failed > 0 ==> (spec_monitor_decision(job, status) == MonitorDecision::Retry
            <==> job.retry_count < job.max_retries && !spec_is_permanent(transient)),
        status.succeeded <= 0 && status.failed > 0 ==> (spec_monitor_decision(job, status) == MonitorDecision::Retry
            || spec_monitor_decision(job, status) == MonitorDecision::FailedPermanently),
        status.succeeded <= 0 && status.failed <= 0 ==> spec_monitor_decision(job, status)
            == MonitorDecision::StillRunning,
{
}

/// Decides from the status of a Kubernetes job: success wins over failure;
/// a failure (a transient error) is retried while the job has retries left.
pub fn monitor_decision(job: &QueuedJob, status: &K8sJobStatus) -> (d: MonitorDecision)
    ensures
        d == spec_monitor_decision(*job, *status),
        status.succeeded > 0 ==> d == MonitorDecision::Succeeded,
        status.succeeded <= 0 && status.failed > 0 ==> (d == MonitorDecision::Retry <==> job.retry_count
            < job.max_retries),
        status.succeeded <= 0 && status.failed > 0 ==> (d == MonitorDecision::Retry || d
            == MonitorDecision::FailedPermanently),
        status.succeeded <= 0 && status.failed <= 0 ==> d == MonitorDecision::StillRunning,
{
    if status.succeeded > 0 {
        return MonitorDecision::Succeeded;
    }
    if status.failed > 0 {
        let error = ExecutorError::job_execution_error("Kubernetes job failed", "transient");
        proof {
            reveal_strlit("transient");
            reveal_strlit("permanent");
            assert("transient"@[0] != "permanent"@[0]);
        }
        if should_retry_job(job, &error) {
            return MonitorDecision::Retry;
        } else {
            return MonitorDecision::FailedPermanently;
        }
    }
    MonitorDecision::StillRunning
}

/// How long a Kubernetes job is followed before the executor gives up on
/// it: 24 hours, in milliseconds.
pub const MONITOR_LIMIT_MILLIS: u64 = 86400000;

/// How long the executor waits between two looks at a running Kubernetes
/// job: 10 seconds, in milliseconds.
pub const MONITOR_POLL_MILLIS: u64 = 10000;

/// Whether a job followed for `elapsed_millis` milliseconds is still
/// followed; once this is false the job has timed out.
pub fn still_monitored(elapsed_millis: u64) -> (b: bool)
    ensures
        b == (elapsed_millis < MONITOR_LIMIT_MILLIS),
{
    elapsed_millis < MONITOR_LIMIT_MILLIS
}

/// The most log bytes kept in a history entry.
pub const HISTORY_LOG_LIMIT: usize = 50000;

/// The most log bytes kept in a failed job's result data.
pub const RESULT_LOG_LIMIT: usize = 10000;

/// The logs fit the limit of history entries, or can be cut there without
/// splitting a character.
pub open spec fn history_cuttable(logs: Seq<char>) -> bool {
    encode_utf8(logs).len() <= 50000 || is_char_boundary(encode_utf8(logs), 50000)
}

/// The logs fit the limit of result data, or can be cut there without
/// splitting a character.
pub open spec fn result_cuttable(logs: Seq<char>) -> bool {
    encode_utf8(logs).len() <= 10000 || is_char_boundary(encode_utf8(logs), 10000)
}

/// The logs cut to at most `max` bytes.
pub open spec fn cut_logs(logs: Seq<char>, max: int) -> Seq<char> {
    if encode_utf8(logs).len() <= max {
        logs
    } else {
        byte_prefix(logs, max)
    }
}

/// The update of a job whose Kubernetes job succeeded.
pub open spec fn completed_update(u: JobStatusUpdate, job: QueuedJob, at: Timestamp) -> bool {
    &&& u.id@ == job.id@
    &&& u.status == JobStatus::Completed
    &&& u.completed_at == Some(at)
    &&& u.k8s_job_name is None
    &&& u.claimed_by is None
    &&& u.claimed_at is None
    &&& u.started_at is None
    &&& u.error_message is None
    &&& u.result_data is None
    &&& u.retry_count is None
}

/// The result data of a failed job: its logs, cut to the result limit.
pub open spec fn logs_result(logs: Seq<char>) -> Seq<char> {
    "{\"logs\":"@ + json_string_literal(cut_logs(logs, 10000)) + "}"@
}

/// The update of a job that failed with the message `message` and, when
/// `with_logs`, its logs as result data.
pub open spec fn failed_update(
    u: JobStatusUpdate,
    job: QueuedJob,
    message: Seq<char>,
    logs: Seq<char>,
    with_logs: bool,
    at: Timestamp,
) -> bool {
    &&& u.id@ == job.id@
    &&& u.status == JobStatus::Failed
    &&& opt_str_view(u.error_message) == Some(message)
    &&& u.completed_at == Some(at)
    &&& (if with_logs {
        u.result_data matches Some(d) && d@ == logs_result(logs)
    } else {
        u.result_data is None
    })
    &&& u.k8s_job_name is None
    &&& u.claimed_by is None
    &&& u.claimed_at is None
    &&& u.started_at is None
    &&& u.retry_count is None
}

/// What the executor does once a Kubernetes job has finished (or its
/// monitoring timed out): put the job back in the queue, or update it; then
/// record the history entry; then, for a DAG job, report its completion
/// (after waiting for its outputs) or its failure.
#[derive(Debug)]
pub struct MonitorOutcome {
    pub requeue: bool,
    pub update: Option<JobStatusUpdate>,
    pub history: HistoryEntry,
    /// Wait for the job's outputs and report the completion.
    pub report_completion: bool,
    /// Report the failure with this message.
    pub report_failure: Option<String>,
}

fn history_entry(
    job: &QueuedJob,
    status: JobStatus,
    message: String,
    pod_logs: Option<String>,
    k8s_events: Option<Vec<K8sJobCondition>>,
) -> (h: HistoryEntry)
    ensures
        h.job_id@ == job.id@,
        h.job_topic@ == job.topic@,
        h.status == status,
        h.message == Some(message),
        h.pod_logs == pod_logs,
        h.k8s_events == k8s_events,
        h.metadata is None,
{
    HistoryEntry {
        job_id: job.id.clone(),
        job_topic: job.topic.clone(),
        status,
        message: Some(message),
        pod_logs,
        k8s_events,
        metadata: None,
    }
}

fn copy_conditions(status: &K8sJobStatus) -> (r: Option<Vec<K8sJobCondition>>)
    ensures
        match status.conditions {
            Some(c) => r matches Some(d) && d@ == c@,
            None => r is None,
        },
{
    match &status.conditions {
        Some(c) => Some(crate::database::dup_conditions(c)),
        None => None,
    }
}

/// The outcome of a Kubernetes job that finished with the decision `d`
/// (not `StillRunning`), given its logs and the time.
pub fn finished_outcome(
    job: &QueuedJob,
    status: &K8sJobStatus,
    decision: MonitorDecision,
    logs: &str,
    at: Timestamp,
) -> (o: MonitorOutcome)
    requires
        decision != MonitorDecision::StillRunning,
        decision == MonitorDecision::Retry ==> job.retry_count < job.max_retries,
        history_cuttable(logs@),
        decision == MonitorDecision::FailedPermanently ==> result_cuttable(logs@),
    ensures
        o.requeue == (decision == MonitorDecision::Retry),
        o.report_completion == (decision == MonitorDecision::Succeeded),
        o.history.job_id@ == job.id@,
        o.history.job_topic@ == job.topic@,
        opt_str_view(o.history.pod_logs) == Some(cut_logs(logs@, 50000)),
        o.history.metadata is None,
        match status.conditions {
            Some(c) => o.history.k8s_events matches Some(d) && d@ == c@,
            None => o.history.k8s_events is None,
        },
        decision == MonitorDecision::Succeeded ==> {
            &&& o.history.status == JobStatus::Completed
            &&& opt_str_view(o.history.message) == Some("Job completed successfully"@)
            &&& (o.update matches Some(u) && completed_update(u, *job, at))
            &&& o.report_failure is None
        },
        decision == MonitorDecision::Retry ==> {
            &&& o.history.status == JobStatus::Failed
            &&& opt_str_view(o.history.message) == Some(
                "Kubernetes Job failed, requeuing for retry (attempt "@ + int_decimal(job.retry_count + 1)
                    + "/"@ + int_decimal(job.max_retries as int) + ")"@,
            )
            &&& o.update is None
            &&& o.report_failure is None
        },
        decision == MonitorDecision::FailedPermanently ==> {
            &&& o.history.status == JobStatus::Failed
            &&& opt_str_view(o.history.message) == Some("Kubernetes Job permanently failed"@)
            &&& (o.update matches Some(u) && failed_update(u, *job, "Kubernetes job failed"@, logs@, true, at))
            &&& (o.report_failure matches Some(m) && m@ == "Kubernetes job failed"@)
        },
{
    let history_logs = owned(truncate_bytes(logs, HISTORY_LOG_LIMIT));
    let events = copy_conditions(status);
    match decision {
        MonitorDecision::Succeeded => {
            let mut update = JobStatusUpdate::default();
            update.id = job.id.clone();
            update.status = JobStatus::Completed;
            update.completed_at = Some(at);
            MonitorOutcome {
                requeue: false,
                update: Some(update),
                history: history_entry(
                    job,
                    JobStatus::Completed,
                    owned("Job completed successfully"),
                    Some(history_logs),
                    events,
                ),
                report_completion: true,
                report_failure: None,
            }
        },
        MonitorDecision::Retry => {
            let attempt = i32_to_decimal(job.retry_count + 1);
            let max = i32_to_decimal(job.max_retries);
            let message = String::from_str("Kubernetes Job failed, requeuing for retry (attempt ").concat(
                attempt.as_str(),
            );
            let message = message.concat("/");
            let message = message.concat(max.as_str());
            let message = message.concat(")");
            MonitorOutcome {
                requeue: true,
                update: None,
                history: history_entry(job, JobStatus::Failed, message, Some(history_logs), events),
                report_completion: false,
                report_failure: None,
            }
        },
        _ => {
            let result_logs = truncate_bytes(logs, RESULT_LOG_LIMIT);
            let mut update = JobStatusUpdate::default();
            update.id = job.id.clone();
            update.status = JobStatus::Failed;
            update.error_message = Some(owned("Kubernetes job failed"));
            update.completed_at = Some(at);
            update.result_data = Some(JsonValue::logs_object(result_logs));
            MonitorOutcome {
                requeue: false,
                update: Some(update),
                history: history_entry(
                    job,
                    JobStatus::Failed,
                    owned("Kubernetes Job permanently failed"),
                    Some(history_logs),
                    events,
                ),
                report_completion: false,
                report_failure: Some(owned("Kubernetes job failed")),
            }
        },
    }
}

/// The outcome of a job whose monitoring gave up after 24 hours: it failed;
/// its logs (or `No logs available`) go in the history, and, when there are
/// any, in its result data.
pub fn timeout_outcome(job: &QueuedJob, logs: &str, at: Timestamp) -> (o: MonitorOutcome)
    requires
        history_cuttable(logs@),
        result_cuttable(logs@),
    ensures
        !o.requeue,
        !o.report_completion,
        o.report_failure is None,
        o.history.job_id@ == job.id@,
        o.history.job_topic@ == job.topic@,
        o.history.status == JobStatus::Failed,
        opt_str_view(o.history.message) == Some("Job monitoring timeout after 24 hours"@),
        opt_str_view(o.history.pod_logs) == Some(
            if logs@.len() == 0 {
                "No logs available"@
            } else {
                cut_logs(logs@, 50000)
            },
        ),
        o.history.k8s_events is None,
        o.history.metadata is None,
        o.update matches Some(u) && failed_update(
            u,
            *job,
            "Job monitoring timeout after 24 hours"@,
            logs@,
            logs@.len() != 0,
            at,
        ),
{
    let empty = logs.is_empty();
    let mut update = JobStatusUpdate::default();
    update.id = job.id.clone();
    update.status = JobStatus::Failed;
    update.error_message = Some(owned("Job monitoring timeout after 24 hours"));
    update.completed_at = Some(at);
    if !empty {
        update.result_data = Some(JsonValue::logs_object(truncate_bytes(logs, RESULT_LOG_LIMIT)));
    }
    let pod_logs = if empty {
        owned("No logs available")
    } else {
        owned(truncate_bytes(logs, HISTORY_LOG_LIMIT))
    };
    MonitorOutcome {
        requeue: false,
        update: Some(update),
        history: history_entry(
            job,
            JobStatus::Failed,
            owned("Job monitoring timeout after 24 hours"),
            Some(pod_logs),
            None,
        ),
        report_completion: false,
        report_failure: None,
    }
}

/// The outputs that a job's output collector reported, once there are any.
pub fn reported_outputs(job: &QueuedJob) -> (r: Option<JobOutputs>)
    ensures
        match job.outputs {
            Some(o) => if o@ == Map::<Seq<char>, JsonValue>::empty() {
                r is None
            } else {
                r matches Some(v) && v@ == o@
            },
            None => r is None,
        },
{
    match &job.outputs {
        Some(outputs) => {
            if outputs.is_empty() {
                None
            } else {
                Some(outputs.duplicate())
            }
        },
        None => None,
    }
}

} // verus!
