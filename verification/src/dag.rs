//! DAG executions: their records, the stored names of their statuses, how a
//! child node's inputs are resolved, and what the statistics of an
//! execution decide about its status.
use vstd::prelude::*;
use crate::json::{JobInputs, JobOutputs, JsonValue};
use crate::strmap::{Duplicate, StrMap};
use crate::text::{i32_to_decimal, int_decimal, str_eq};
use crate::types::{ExecutionMode, PartialResourceRequirements, QueuedJob};
use crate::views::{dup_opt_map, dup_opt_str_vec, opt_map_view, opt_str_vec_view, opt_str_view};

verus! {

// ---------------------------------------------------------------------------
// Statuses
// ---------------------------------------------------------------------------

/// Where a DAG execution stands.
#[derive(Debug, Clone, Copy, PartialEq, Eq, Structural)]
pub enum DAGStatus {
    Pending,
    Running,
    Completed,
    Failed,
    Cancelled,
}

/// Where one node of a DAG execution stands.
#[derive(Debug, Clone, Copy, PartialEq, Eq, Structural)]
pub enum DAGNodeStatus {
    Pending,
    Waiting,
    Ready,
    Running,
    Completed,
    Failed,
    Skipped,
}

pub open spec fn dag_status_text(s: DAGStatus) -> Seq<char> {
    match s {
        DAGStatus::Pending => "pending"@,
        DAGStatus::Running => "running"@,
        DAGStatus::Completed => "completed"@,
        DAGStatus::Failed => "failed"@,
        DAGStatus::Cancelled => "cancelled"@,
    }
}

pub open spec fn dag_status_from_text(t: Seq<char>) -> Option<DAGStatus> {
    if t == "pending"@ {
        Some(DAGStatus::Pending)
    } else if t == "running"@ {
        Some(DAGStatus::Running)
    } else if t == "completed"@ {
        Some(DAGStatus::Completed)
    } else if t == "failed"@ {
        Some(DAGStatus::Failed)
    } else if t == "cancelled"@ {
        Some(DAGStatus::Cancelled)
    } else {
        None
    }
}

pub open spec fn dag_node_status_text(s: DAGNodeStatus) -> Seq<char> {
    match s {
        DAGNodeStatus::Pending => "pending"@,
        DAGNodeStatus::Waiting => "waiting"@,
        DAGNodeStatus::Ready => "ready"@,
        DAGNodeStatus::Running => "running"@,
        DAGNodeStatus::Completed => "completed"@,
        DAGNodeStatus::Failed => "failed"@,
        DAGNodeStatus::Skipped => "skipped"@,
    }
}

pub open spec fn dag_node_status_from_text(t: Seq<char>) -> Option<DAGNodeStatus> {
    if t == "pending"@ {
        Some(DAGNodeStatus::Pending)
    } else if t == "waiting"@ {
        Some(DAGNodeStatus::Waiting)
    } else if t == "ready"@ {
        Some(DAGNodeStatus::Ready)
    } else if t == "running"@ {
        Some(DAGNodeStatus::Running)
    } else if t == "completed"@ {
        Some(DAGNodeStatus::Completed)
    } else if t == "failed"@ {
        Some(DAGNodeStatus::Failed)
    } else if t == "skipped"@ {
        Some(DAGNodeStatus::Skipped)
    } else {
        None
    }
}

/// The stored name of a DAG status.
pub fn dag_status_to_string(status: DAGStatus) -> (s: &'static str)
    ensures
        s@ == dag_status_text(status),
{
    match status {
        DAGStatus::Pending => "pending",
        DAGStatus::Running => "running",
        DAGStatus::Completed => "completed",
        DAGStatus::Failed => "failed",
        DAGStatus::Cancelled => "cancelled",
    }
}

/// The stored name of a DAG node status.
pub fn dag_node_status_to_string(status: DAGNodeStatus) -> (s: &'static str)
    ensures
        s@ == dag_node_status_text(status),
{
    match status {
        DAGNodeStatus::Pending => "pending",
        DAGNodeStatus::Waiting => "waiting",
        DAGNodeStatus::Ready => "ready",
        DAGNodeStatus::Running => "running",
        DAGNodeStatus::Completed => "completed",
        DAGNodeStatus::Failed => "failed",
        DAGNodeStatus::Skipped => "skipped",
    }
}

/// Reads a stored DAG status; an unknown name is an error that quotes it.
pub fn parse_dag_status(s: String) -> (r: Result<DAGStatus, String>)
    ensures
        match r {
            Ok(st) => dag_status_from_text(s@) == Some(st),
            Err(e) => dag_status_from_text(s@) is None && e@ == "Unknown DAG status: "@ + s@,
        },
{
    let t = s.as_str();
    if str_eq(t, "pending") {
        Ok(DAGStatus::Pending)
    } else if str_eq(t, "running") {
        Ok(DAGStatus::Running)
    } else if str_eq(t, "completed") {
        Ok(DAGStatus::Completed)
    } else if str_eq(t, "failed") {
        Ok(DAGStatus::Failed)
    } else if str_eq(t, "cancelled") {
        Ok(DAGStatus::Cancelled)
    } else {
        Err(String::from_str("Unknown DAG status: ").concat(t))
    }
}

/// Reads a stored DAG node status; an unknown name is an error that quotes it.
pub fn parse_dag_node_status(s: String) -> (r: Result<DAGNodeStatus, String>)
    ensures
        match r {
            Ok(st) => dag_node_status_from_text(s@) == Some(st),
            Err(e) => dag_node_status_from_text(s@) is None && e@ == "Unknown DAG node status: "@ + s@,
        },
{
    let t = s.as_str();
    if str_eq(t, "pending") {
        Ok(DAGNodeStatus::Pending)
    } else if str_eq(t, "waiting") {
        Ok(DAGNodeStatus::Waiting)
    } else if str_eq(t, "ready") {
        Ok(DAGNodeStatus::Ready)
    } else if str_eq(t, "running") {
        Ok(DAGNodeStatus::Running)
    } else if str_eq(t, "completed") {
        Ok(DAGNodeStatus::Completed)
    } else if str_eq(t, "failed") {
        Ok(DAGNodeStatus::Failed)
    } else if str_eq(t, "skipped") {
        Ok(DAGNodeStatus::Skipped)
    } else {
        Err(String::from_str("Unknown DAG node status: ").concat(t))
    }
}

/// Every DAG status reads back from its stored name.
pub proof fn lemma_dag_status_text_roundtrip(s: DAGStatus)
    ensures
        dag_status_from_text(dag_status_text(s)) == Some(s),
{
    reveal_strlit("pending");
    reveal_strlit("running");
    reveal_strlit("completed");
    reveal_strlit("failed");
    reveal_strlit("cancelled");
    assert("running"@[0] != "pending"@[0]);
    assert("completed"@.len() != "pending"@.len() && "completed"@.len() != "running"@.len());
    assert("failed"@.len() != "pending"@.len() && "failed"@.len() != "running"@.len());
    assert("failed"@.len() != "completed"@.len());
    assert("cancelled"@.len() != "pending"@.len() && "cancelled"@.len() != "running"@.len());
    assert("cancelled"@.len() != "failed"@.len() && "cancelled"@[1] != "completed"@[1]);
}

/// Every DAG node status reads back from its stored name.
pub proof fn lemma_dag_node_status_text_roundtrip(s: DAGNodeStatus)
    ensures
        dag_node_status_from_text(dag_node_status_text(s)) == Some(s),
{
    reveal_strlit("pending");
    reveal_strlit("waiting");
    reveal_strlit("ready");
    reveal_strlit("running");
    reveal_strlit("completed");
    reveal_strlit("failed");
    reveal_strlit("skipped");
    assert("waiting"@[0] != "pending"@[0]);
    assert("ready"@.len() != "pending"@.len() && "ready"@.len() != "waiting"@.len());
    assert("running"@[1] != "pending"@[1] && "running"@[0] != "waiting"@[0]);
    assert("running"@.len() != "ready"@.len());
    assert("completed"@.len() != "pending"@.len() && "completed"@.len() != "waiting"@.len());
    assert("completed"@.len() != "ready"@.len() && "completed"@.len() != "running"@.len());
    assert("failed"@.len() != "pending"@.len() && "failed"@.len() != "waiting"@.len());
    assert("failed"@.len() != "ready"@.len() && "failed"@.len() != "running"@.len());
    assert("failed"@.len() != "completed"@.len());
    assert("skipped"@[0] != "pending"@[0] && "skipped"@[0] != "waiting"@[0]);
    assert("skipped"@.len() != "ready"@.len() && "skipped"@[0] != "running"@[0]);
    assert("skipped"@.len() != "completed"@.len() && "skipped"@.len() != "failed"@.len());
}

/// A stored name that reads as a status is that status's name.
pub proof fn lemma_dag_status_text_canonical(t: Seq<char>)
    ensures
        dag_status_from_text(t) matches Some(s) ==> dag_status_text(s) == t,
        dag_node_status_from_text(t) matches Some(s) ==> dag_node_status_text(s) == t,
{
}

// ---------------------------------------------------------------------------
// Records
// ---------------------------------------------------------------------------

/// One execution of a DAG template.
#[derive(Debug)]
pub struct DAGExecution {
    pub id: String,
    pub dag_template_id: String,
    pub topic: String,
    pub status: DAGStatus,
    pub priority: i32,
    pub execution_payload: StrMap<JsonValue>,
    pub created_by: String,
}

pub struct DAGExecutionView {
    pub id: Seq<char>,
    pub dag_template_id: Seq<char>,
    pub topic: Seq<char>,
    pub status: DAGStatus,
    pub priority: i32,
    pub execution_payload: Map<Seq<char>, JsonValue>,
    pub created_by: Seq<char>,
}

impl View for DAGExecution {
    type V = DAGExecutionView;

    open spec fn view(&self) -> DAGExecutionView {
        DAGExecutionView {
            id: self.id@,
            dag_template_id: self.dag_template_id@,
            topic: self.topic@,
            status: self.status,
            priority: self.priority,
            execution_payload: self.execution_payload@,
            created_by: self.created_by@,
        }
    }
}

impl DAGExecution {
    /// A copy of the record.
    pub fn duplicate(&self) -> (r: Self)
        ensures
            r@ == self@,
    {
        DAGExecution {
            id: self.id.clone(),
            dag_template_id: self.dag_template_id.clone(),
            topic: self.topic.clone(),
            status: self.status,
            priority: self.priority,
            execution_payload: self.execution_payload.duplicate(),
            created_by: self.created_by.clone(),
        }
    }
}

/// The record of one node within one DAG execution.
#[derive(Debug)]
pub struct DAGNodeExecution {
    pub id: String,
    pub dag_execution_id: String,
    pub dag_node_id: String,
    pub job_id: Option<String>,
    pub job_topic: Option<String>,
    pub status: DAGNodeStatus,
    pub inputs: Option<JobInputs>,
}

pub struct DAGNodeExecutionView {
    pub id: Seq<char>,
    pub dag_execution_id: Seq<char>,
    pub dag_node_id: Seq<char>,
    pub job_id: Option<Seq<char>>,
    pub job_topic: Option<Seq<char>>,
    pub status: DAGNodeStatus,
    pub inputs: Option<Map<Seq<char>, JsonValue>>,
}

impl View for DAGNodeExecution {
    type V = DAGNodeExecutionView;

    open spec fn view(&self) -> DAGNodeExecutionView {
        DAGNodeExecutionView {
            id: self.id@,
            dag_execution_id: self.dag_execution_id@,
            dag_node_id: self.dag_node_id@,
            job_id: opt_str_view(self.job_id),
            job_topic: opt_str_view(self.job_topic),
            status: self.status,
            inputs: opt_map_view(self.inputs),
        }
    }
}

impl DAGNodeExecution {
    /// A copy of the record.
    pub fn duplicate(&self) -> (r: Self)
        ensures
            r@ == self@,
    {
        DAGNodeExecution {
            id: self.id.clone(),
            dag_execution_id: self.dag_execution_id.clone(),
            dag_node_id: self.dag_node_id.clone(),
            job_id: self.job_id.duplicate(),
            job_topic: self.job_topic.duplicate(),
            status: self.status,
            inputs: dup_opt_map(&self.inputs),
        }
    }
}

/// Where the value of one input of a node comes from.
#[derive(Debug, Clone, Copy, PartialEq, Eq, Structural)]
pub enum InputSource {
    Parent,
    Payload,
    Constant,
}

impl InputSource {
    /// The source that a stored input mapping names: `parent`, `payload` or
    /// `constant`; any other text names none.
    pub fn from_text(s: &str) -> (r: Option<InputSource>)
        ensures
            r == (if s@ == "parent"@ {
                Some(InputSource::Parent)
            } else if s@ == "payload"@ {
                Some(InputSource::Payload)
            } else if s@ == "constant"@ {
                Some(InputSource::Constant)
            } else {
                None
            }),
    {
        if str_eq(s, "parent") {
            Some(InputSource::Parent)
        } else if str_eq(s, "payload") {
            Some(InputSource::Payload)
        } else if str_eq(s, "constant") {
            Some(InputSource::Constant)
        } else {
            None
        }
    }
}

/// How one input of a node is filled.
#[derive(Debug, Clone, PartialEq, Eq)]
pub struct InputMappingSpec {
    pub source: InputSource,
    pub output_key: Option<String>,
    pub payload_key: Option<String>,
    pub value: Option<JsonValue>,
}

impl Duplicate for InputMappingSpec {
    fn duplicate(&self) -> (r: Self) {
        InputMappingSpec {
            source: self.source,
            output_key: self.output_key.duplicate(),
            payload_key: self.payload_key.duplicate(),
            value: self.value.duplicate(),
        }
    }
}

/// A node of a DAG template.
#[derive(Debug)]
pub struct DAGNode {
    pub id: String,
    pub node_name: String,
    pub image_id: String,
    pub command: Option<Vec<String>>,
    pub args: Option<Vec<String>>,
    pub environment_variables: Option<StrMap<String>>,
    pub resource_overrides: Option<PartialResourceRequirements>,
    pub max_retries: i32,
    pub input_mapping: Option<StrMap<InputMappingSpec>>,
    /// The group of sibling nodes that run together, if any.
    pub sibling_group_id: Option<String>,
    /// How this node's siblings run.
    pub execution_mode: ExecutionMode,
    /// How many siblings run at once under `Limited`.
    pub max_parallel_siblings: Option<i32>,
}

pub struct DAGNodeView {
    pub id: Seq<char>,
    pub node_name: Seq<char>,
    pub image_id: Seq<char>,
    pub command: Option<Seq<Seq<char>>>,
    pub args: Option<Seq<Seq<char>>>,
    pub environment_variables: Option<Map<Seq<char>, String>>,
    pub resource_overrides: Option<PartialResourceRequirements>,
    pub max_retries: i32,
    pub input_mapping: Option<Map<Seq<char>, InputMappingSpec>>,
    pub sibling_group_id: Option<Seq<char>>,
    pub execution_mode: ExecutionMode,
    pub max_parallel_siblings: Option<i32>,
}

impl View for DAGNode {
    type V = DAGNodeView;

    open spec fn view(&self) -> DAGNodeView {
        DAGNodeView {
            id: self.id@,
            node_name: self.node_name@,
            image_id: self.image_id@,
            command: opt_str_vec_view(self.command),
            args: opt_str_vec_view(self.args),
            environment_variables: opt_map_view(self.environment_variables),
            resource_overrides: self.resource_overrides,
            max_retries: self.max_retries,
            input_mapping: opt_map_view(self.input_mapping),
            sibling_group_id: opt_str_view(self.sibling_group_id),
            execution_mode: self.execution_mode,
            max_parallel_siblings: self.max_parallel_siblings,
        }
    }
}

impl DAGNode {
    /// A copy of the node.
    pub fn duplicate(&self) -> (r: Self)
        ensures
            r@ == self@,
    {
        DAGNode {
            id: self.id.clone(),
            node_name: self.node_name.clone(),
            image_id: self.image_id.clone(),
            command: dup_opt_str_vec(&self.command),
            args: dup_opt_str_vec(&self.args),
            environment_variables: dup_opt_map(&self.environment_variables),
            resource_overrides: self.resource_overrides.duplicate(),
            max_retries: self.max_retries,
            input_mapping: dup_opt_map(&self.input_mapping),
            sibling_group_id: self.sibling_group_id.duplicate(),
            execution_mode: self.execution_mode,
            max_parallel_siblings: self.max_parallel_siblings,
        }
    }
}

/// What a status change of a node execution records besides the status.
#[derive(Debug)]
pub struct NodeExecutionUpdate {
    pub outputs: Option<JobOutputs>,
    pub error_message: Option<String>,
    pub job_id: Option<String>,
    pub job_topic: Option<String>,
    pub inputs: Option<JobInputs>,
}

/// How many nodes of a DAG execution stand in each status.
#[derive(Debug, Clone, PartialEq, Eq)]
pub struct DAGExecutionStats {
    pub dag_execution_id: String,
    pub total_nodes: i32,
    pub completed_nodes: i32,
    pub failed_nodes: i32,
    pub running_nodes: i32,
    pub pending_nodes: i32,
    pub waiting_nodes: i32,
    pub skipped_nodes: i32,
}

// ---------------------------------------------------------------------------
// Decisions
// ---------------------------------------------------------------------------

/// Whether a job belongs to a DAG execution.
pub fn is_dag_job(job: &QueuedJob) -> (b: bool)
    ensures
        b == job.dag_execution_id.is_some(),
{
    job.dag_execution_id.is_some()
}

/// The value that one input mapping takes, if its source has it.
pub open spec fn resolved_input(
    spec: InputMappingSpec,
    payload: Map<Seq<char>, JsonValue>,
    parent: Option<Map<Seq<char>, JsonValue>>,
) -> Option<JsonValue> {
    match spec.source {
        InputSource::Payload => match spec.payload_key {
            Some(k) => if payload.contains_key(k@) {
                Some(payload[k@])
            } else {
                None
            },
            None => None,
        },
        InputSource::Parent => match parent {
            Some(outputs) => match spec.output_key {
                Some(k) => if outputs.contains_key(k@) {
                    Some(outputs[k@])
                } else {
                    None
                },
                None => None,
            },
            None => None,
        },
        InputSource::Constant => spec.value,
    }
}

/// The inputs of a node: each mapped input whose source has a value.
pub open spec fn resolved_inputs(
    mapping: Option<Map<Seq<char>, InputMappingSpec>>,
    payload: Map<Seq<char>, JsonValue>,
    parent: Option<Map<Seq<char>, JsonValue>>,
) -> Map<Seq<char>, JsonValue> {
    match mapping {
        None => Map::empty(),
        Some(m) => Map::new(
            |n: Seq<char>| m.contains_key(n) && resolved_input(m[n], payload, parent) is Some,
            |n: Seq<char>| resolved_input(m[n], payload, parent).unwrap(),
        ),
    }
}

/// The resolved inputs `r` of a node, told apart by source: only mapped
/// inputs are resolved; a constant input takes its value, whatever the
/// payload and the parent's outputs; a payload input takes the payload's
/// value under its key, and a parent input the parent's output under its
/// key, when there is one; an input whose source has no value is left out.
pub open spec fn inputs_by_source(
    mapping: Option<Map<Seq<char>, InputMappingSpec>>,
    payload: Map<Seq<char>, JsonValue>,
    parent: Option<Map<Seq<char>, JsonValue>>,
    r: Map<Seq<char>, JsonValue>,
) -> bool {
    &&& (mapping is None ==> r.dom().is_empty())
    &&& forall|n: Seq<char>| #[trigger] r.contains_key(n) ==> mapping is Some && mapping->0.contains_key(n)
    &&& forall|n: Seq<char>|
        mapping is Some && #[trigger] mapping->0.contains_key(n) ==> {
            let s = mapping->0[n];
            &&& (s.source == InputSource::Constant && s.value is Some ==> r.contains_key(n) && r[n] == s.value->0)
            &&& (s.source == InputSource::Constant && s.value is None ==> !r.contains_key(n))
            &&& (s.source == InputSource::Payload && s.payload_key is Some && payload.contains_key(
                s.payload_key->0@,
            ) ==> r.contains_key(n) && r[n] == payload[s.payload_key->0@])
            &&& (s.source == InputSource::Payload && (s.payload_key is None || !payload.contains_key(
                s.payload_key->0@,
            )) ==> !r.contains_key(n))
            &&& (s.source == InputSource::Parent && parent is Some && s.output_key is Some
                && parent->0.contains_key(s.output_key->0@) ==> r.contains_key(n) && r[n]
                == parent->0[s.output_key->0@])
            &&& (s.source == InputSource::Parent && (parent is None || s.output_key is None
                || !parent->0.contains_key(s.output_key->0@)) ==> !r.contains_key(n))
        }
}

/// A node's inputs follow their sources: a constant input always takes its
/// value, whatever the payload and the parent's outputs; a payload or parent
/// input takes the value under its key when the source has one and is left
/// out otherwise; nothing unmapped is resolved.
pub proof fn law_resolved_inputs(
    mapping: Option<Map<Seq<char>, InputMappingSpec>>,
    payload: Map<Seq<char>, JsonValue>,
    parent: Option<Map<Seq<char>, JsonValue>>,
)
    ensures
        inputs_by_source(mapping, payload, parent, resolved_inputs(mapping, payload, parent)),
{
}

fn resolve_one(
    spec: &InputMappingSpec,
    payload: &StrMap<JsonValue>,
    parent_outputs: Option<&JobOutputs>,
) -> (r: Option<JsonValue>)
    ensures
        spec.source == InputSource::Constant ==> r == spec.value,
        r == resolved_input(
            *spec,
            payload@,
            match parent_outputs {
                Some(o) => Some(o@),
                None => None,
            },
        ),
{
    match spec.source {
        InputSource::Payload => match &spec.payload_key {
            Some(key) => match payload.get(key.as_str()) {
                Some(v) => Some(v.duplicate()),
                None => None,
            },
            None => None,
        },
        InputSource::Parent => match parent_outputs {
            Some(outputs) => match &spec.output_key {
                Some(key) => match outputs.get(key.as_str()) {
                    Some(v) => Some(v.duplicate()),
                    None => None,
                },
                None => None,
            },
            None => None,
        },
        InputSource::Constant => spec.value.duplicate(),
    }
}

/// Fills the inputs of a node from its input mapping: payload inputs from
/// the execution payload, parent inputs from the parent's outputs, constant
/// inputs from the mapping itself. An input whose source lacks the key is
/// left out.
pub fn resolve_node_inputs(
    input_mapping: Option<&StrMap<InputMappingSpec>>,
    execution_payload: &StrMap<JsonValue>,
    parent_outputs: Option<&JobOutputs>,
) -> (r: JobInputs)
    ensures
        inputs_by_source(
            match input_mapping {
                Some(m) => Some(m@),
                None => None,
            },
            execution_payload@,
            match parent_outputs {
                Some(o) => Some(o@),
                None => None,
            },
            r@,
        ),
        r@ == resolved_inputs(
            match input_mapping {
                Some(m) => Some(m@),
                None => None,
            },
            execution_payload@,
            match parent_outputs {
                Some(o) => Some(o@),
                None => None,
            },
        ),
{
    let ghost parent = match parent_outputs {
        Some(o) => Some(o@),
        None => None,
    };
    let mut resolved: JobInputs = StrMap::new();
    match input_mapping {
        None => {
            assert(resolved@ =~= resolved_inputs(None, execution_payload@, parent));
        },
        Some(mapping) => {
            let n = mapping.len();
            let ghost ks = mapping.key_seq();
            let mut i: usize = 0;
            while i < n
                invariant
                    n == ks.len(),
                    ks == mapping.key_seq(),
                    parent == match parent_outputs {
                        Some(o) => Some(o@),
                        None => None,
                    },
                    i <= n,
                    forall|k: Seq<char>| #[trigger] mapping@.contains_key(k) <==> ks.contains(k),
                    crate::strmap::distinct_keys(ks),
                    forall|k: Seq<char>| #[trigger]
                        resolved@.contains_key(k) <==> (exists|j: int| 0 <= j < i && ks[j] == k)
                            && resolved_input(mapping@[k], execution_payload@, parent) is Some,
                    forall|k: Seq<char>| #[trigger]
                        resolved@.contains_key(k) ==> resolved@[k] == resolved_input(
                            mapping@[k],
                            execution_payload@,
                            parent,
                        ).unwrap(),
                decreases n - i,
            {
                let name = mapping.key_at(i);
                let spec = mapping.value_at(i);
                let v = resolve_one(spec, execution_payload, parent_outputs);
                let ghost old_resolved = resolved@;
                let ghost key = ks[i as int];
                assert(name@ == key);
                assert(*spec == mapping@[key]);
                assert(forall|j: int| 0 <= j < i ==> ks[j] != key);
                assert(!old_resolved.contains_key(key));
                assert(v == resolved_input(mapping@[key], execution_payload@, parent));
                let ghost expected = if v is Some {
                    old_resolved.insert(key, v->0)
                } else {
                    old_resolved
                };
                match v {
                    Some(x) => {
                        resolved.insert(name.clone(), x);
                        assert(resolved@ == expected);
                    },
                    None => {
                        assert(resolved@ == expected);
                    },
                }
                assert(resolved@ == expected);
                proof {
                    assert forall|k: Seq<char>| #[trigger] resolved@.contains_key(k) <==> (exists|j: int|
                        0 <= j < i + 1 && ks[j] == k) && resolved_input(
                        mapping@[k],
                        execution_payload@,
                        parent,
                    ) is Some by {
                        if k == key {
                            assert(ks[i as int] == k);
                        } else {
                            assert(resolved@.contains_key(k) == old_resolved.contains_key(k));
                            if exists|j: int| 0 <= j < i + 1 && ks[j] == k {
                                let j = choose|j: int| 0 <= j < i + 1 && ks[j] == k;
                                assert(0 <= j < i && ks[j] == k);
                            }
                        }
                    }
                    assert forall|k: Seq<char>| #[trigger] resolved@.contains_key(k) implies resolved@[k]
                        == resolved_input(mapping@[k], execution_payload@, parent).unwrap() by {
                        if k != key {
                            assert(old_resolved.contains_key(k));
                        }
                    }
                }
                i = i + 1;
            }
            proof {
                assert forall|k: Seq<char>| #[trigger] resolved@.contains_key(k) <==> (mapping@.contains_key(k)
                    && resolved_input(mapping@[k], execution_payload@, parent) is Some) by {
                    if mapping@.contains_key(k) {
                        assert(ks.contains(k));
                        let j = choose|j: int| 0 <= j < ks.len() && ks[j] == k;
                        assert(0 <= j < n && ks[j] == k);
                    }
                    if resolved@.contains_key(k) {
                        let j = choose|j: int| 0 <= j < n && ks[j] == k;
                        assert(ks.contains(k));
                    }
                }
                assert(resolved@ =~= resolved_inputs(Some(mapping@), execution_payload@, parent));
            }
        },
    }
    resolved
}

/// What the node statistics of a DAG execution decide about its status.
#[derive(Debug, Clone, Copy, PartialEq, Eq, Structural)]
pub enum DagStatusAction {
    /// Every node is done and some failed: the execution failed.
    MarkFailed,
    /// Every node is done and none failed: the execution completed.
    MarkCompleted,
    /// Nodes are still to run: a pending execution is now running.
    StartIfPending,
    /// Nothing to change.
    Nothing,
}

/// The status change that node counts decide.
pub open spec fn decide_dag_status(
    total: i32,
    completed: i32,
    failed: i32,
    running: i32,
    pending: i32,
    waiting: i32,
    skipped: i32,
) -> DagStatusAction {
    if completed as int + failed as int + skipped as int == total as int {
        if failed > 0 {
            DagStatusAction::MarkFailed
        } else {
            DagStatusAction::MarkCompleted
        }
    } else if running > 0 || pending > 0 || waiting > 0 {
        DagStatusAction::StartIfPending
    } else {
        DagStatusAction::Nothing
    }
}

pub open spec fn spec_dag_status_action(stats: DAGExecutionStats) -> DagStatusAction {
    decide_dag_status(
        stats.total_nodes,
        stats.completed_nodes,
        stats.failed_nodes,
        stats.running_nodes,
        stats.pending_nodes,
        stats.waiting_nodes,
        stats.skipped_nodes,
    )
}

/// The status change `a` for the node counts of `stats`, told apart by
/// case: when the completed, failed and skipped nodes make up all nodes, the
/// execution fails if a node failed and completes otherwise; when some node
/// is not done and some node runs, is pending or waits, a pending execution
/// starts running; when some node is not done but none runs, is pending or
/// waits, nothing changes.
pub open spec fn status_action_by_counts(stats: DAGExecutionStats, a: DagStatusAction) -> bool {
    let done = stats.completed_nodes + stats.failed_nodes + stats.skipped_nodes;
    &&& (done == stats.total_nodes && stats.failed_nodes > 0 ==> a == DagStatusAction::MarkFailed)
    &&& (done == stats.total_nodes && stats.failed_nodes <= 0 ==> a == DagStatusAction::MarkCompleted)
    &&& (done != stats.total_nodes && stats.running_nodes > 0 ==> a == DagStatusAction::StartIfPending)
    &&& (done != stats.total_nodes && stats.pending_nodes > 0 ==> a == DagStatusAction::StartIfPending)
    &&& (done != stats.total_nodes && stats.waiting_nodes > 0 ==> a == DagStatusAction::StartIfPending)
    &&& (done != stats.total_nodes && stats.running_nodes <= 0 && stats.pending_nodes <= 0 && stats.waiting_nodes
        <= 0 ==> a == DagStatusAction::Nothing)
}

/// The status change of a DAG execution follows its node counts: over
/// (failed or completed) when every node is completed, failed or skipped;
/// running, if it was pending, while any node that is not done runs, is
/// pending or waits; unchanged otherwise.
pub proof fn law_dag_status_action(stats: DAGExecutionStats)
    ensures
        status_action_by_counts(stats, spec_dag_status_action(stats)),
{
}

/// Decides the status change of a DAG execution from its node statistics:
/// when the completed, failed and skipped nodes make up all nodes the
/// execution is over (failed if any node failed); otherwise, while nodes
/// run, wait or are pending, it is running.
pub fn dag_status_action(stats: &DAGExecutionStats) -> (a: DagStatusAction)
    ensures
        a == spec_dag_status_action(*stats),
        status_action_by_counts(*stats, a),
{
    let terminal: i64 = stats.completed_nodes as i64 + stats.failed_nodes as i64 + stats.skipped_nodes as i64;
    if terminal == stats.total_nodes as i64 {
        if stats.failed_nodes > 0 {
            DagStatusAction::MarkFailed
        } else {
            DagStatusAction::MarkCompleted
        }
    } else if stats.running_nodes > 0 || stats.pending_nodes > 0 || stats.waiting_nodes > 0 {
        DagStatusAction::StartIfPending
    } else {
        DagStatusAction::Nothing
    }
}

/// The error message recorded on a DAG execution that ended with failed
/// nodes: `"<n> node(s) failed"`.
pub fn failed_nodes_message(failed_nodes: i32) -> (s: String)
    ensures
        s@ == int_decimal(failed_nodes as int) + " node(s) failed"@,
{
    let n = i32_to_decimal(failed_nodes);
    n.concat(" node(s) failed")
}

/// The error message recorded on a DAG execution when one of its jobs
/// failed: `"Node <job name, or id> failed: <error>"`.
pub fn node_failure_message(job: &QueuedJob, error_message: &str) -> (s: String)
    ensures
        s@ == "Node "@ + (match job.job_name {
            Some(n) => n@,
            None => job.id@,
        }) + " failed: "@ + error_message@,
{
    let name = match &job.job_name {
        Some(n) => n.as_str(),
        None => job.id.as_str(),
    };
    let s = String::from_str("Node ").concat(name);
    let s = s.concat(" failed: ");
    s.concat(error_message)
}

} // verus!
