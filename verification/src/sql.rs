//! The statements that the PostgreSQL store runs: which columns an UPDATE
//! sets, in which order, and what is bound to each numbered parameter of
//! an UPDATE or an INSERT.
use vstd::prelude::*;
use crate::dag::{dag_node_status_text, dag_node_status_to_string, dag_status_text, dag_status_to_string, DAGNodeStatus, DAGStatus, NodeExecutionUpdate};
use crate::json::{object_json, object_text, opt_string_json, opt_string_text, string_object_json, string_object_text};
use crate::text::{nat_decimal, push_i64_decimal};
use crate::database::HistoryEntry;
use crate::json::json_string_literal;
use crate::types::{
    job_status_text, job_status_to_string, JobRequest, JobStatusUpdate, K8sJobCondition, PartialResourceRequirements,
    Timestamp,
};
use crate::views::{dup_opt_str_vec, join_strings, join_with, opt_str_vec_view, opt_str_view, owned, str_vec_view};

verus! {

/// A value bound to a numbered parameter of a statement.
#[derive(Debug, Clone, PartialEq, Eq)]
pub enum SqlParam {
    Text(String),
    Time(Timestamp),
    Int(i32),
    OptText(Option<String>),
    OptTextList(Option<Vec<String>>),
}

/// The abstract value of a parameter.
pub enum SqlArg {
    Text(Seq<char>),
    Time(Timestamp),
    Int(i32),
    OptText(Option<Seq<char>>),
    OptTextList(Option<Seq<Seq<char>>>),
}

impl View for SqlParam {
    type V = SqlArg;

    open spec fn view(&self) -> SqlArg {
        match self {
            SqlParam::Text(s) => SqlArg::Text(s@),
            SqlParam::Time(t) => SqlArg::Time(*t),
            SqlParam::Int(n) => SqlArg::Int(*n),
            SqlParam::OptText(o) => SqlArg::OptText(opt_str_view(*o)),
            SqlParam::OptTextList(o) => SqlArg::OptTextList(opt_str_vec_view(*o)),
        }
    }
}

/// A statement and the values of its parameters `$1`, `$2`, ... in order.
#[derive(Debug)]
pub struct SqlStatement {
    pub text: String,
    pub params: Vec<SqlParam>,
}

pub open spec fn params_view(ps: Seq<SqlParam>) -> Seq<SqlArg> {
    ps.map_values(|p: SqlParam| p@)
}

/// `SET` items `column = $i`, numbered from 1.
pub open spec fn numbered_assignments(cols: Seq<Seq<char>>) -> Seq<Seq<char>> {
    Seq::new(cols.len(), |i: int| cols[i] + " = $"@ + nat_decimal((i + 1) as nat))
}

/// `UPDATE <table> SET <fixed items>, <column = $i>... WHERE id = $<n+1>`,
/// where `n` is the number of numbered columns.
pub open spec fn update_text(table: Seq<char>, fixed: Seq<Seq<char>>, cols: Seq<Seq<char>>) -> Seq<char> {
    "UPDATE "@ + table + " SET "@ + join_with(", "@, fixed + numbered_assignments(cols)) + " WHERE id = $"@
        + nat_decimal((cols.len() + 1) as nat)
}

/// The one-element sequence `[x]` when `b`, else the empty one.
pub open spec fn present_if<A>(b: bool, x: A) -> Seq<A> {
    if b {
        seq![x]
    } else {
        Seq::<A>::empty()
    }
}

fn push_when(v: &mut Vec<String>, b: bool, x: &str)
    ensures
        str_vec_view(*final(v)) == str_vec_view(*old(v)) + present_if(b, x@),
{
    let ghost before = str_vec_view(*v);
    if b {
        v.push(owned(x));
        assert(str_vec_view(*v) =~= before + present_if(b, x@));
    } else {
        assert(str_vec_view(*v) =~= before + present_if(b, x@));
    }
}

fn update_statement_text(table: &str, fixed: Vec<String>, cols: Vec<String>) -> (s: String)
    requires
        cols.len() < 100,
    ensures
        s@ == update_text(table@, str_vec_view(fixed), str_vec_view(cols)),
{
    let mut items = fixed;
    let ghost fixed_view = str_vec_view(items);
    let mut i: usize = 0;
    while i < cols.len()
        invariant
            i <= cols.len() < 100,
            str_vec_view(items) == fixed_view + numbered_assignments(str_vec_view(cols)).take(i as int),
        decreases cols.len() - i,
    {
        let mut item = cols[i].clone();
        item.append(" = $");
        push_i64_decimal(&mut item, (i + 1) as i64);
        let ghost before = str_vec_view(items);
        items.push(item);
        assert(str_vec_view(items) =~= before.push(item@));
        assert(numbered_assignments(str_vec_view(cols)).take(i + 1) =~= numbered_assignments(
            str_vec_view(cols),
        ).take(i as int).push(item@));
        i = i + 1;
    }
    assert(numbered_assignments(str_vec_view(cols)).take(cols.len() as int) =~= numbered_assignments(
        str_vec_view(cols),
    ));
    let mut s = String::from_str("UPDATE ");
    s.append(table);
    s.append(" SET ");
    let body = join_strings(&items, ", ");
    s.append(body.as_str());
    s.append(" WHERE id = $");
    push_i64_decimal(&mut s, (cols.len() + 1) as i64);
    assert(s@ =~= update_text(table@, str_vec_view(fixed), str_vec_view(cols)));
    s
}

// ---------------------------------------------------------------------------
// Jobs of the queue
// ---------------------------------------------------------------------------

/// The columns that an update of a job sets from parameters: the status,
/// then each of the job's Kubernetes name, start and completion times,
/// error message and result data that the update holds.
pub open spec fn job_update_columns(u: JobStatusUpdate) -> Seq<Seq<char>> {
    seq!["status"@] + present_if(u.k8s_job_name is Some, "k8s_job_name"@) + present_if(u.started_at is Some, "started_at"@)
        + present_if(u.completed_at is Some, "completed_at"@) + present_if(u.error_message is Some, "error_message"@)
        + present_if(u.result_data is Some, "result_data"@)
}

/// The values of those columns, in their order.
pub open spec fn job_update_values(u: JobStatusUpdate) -> Seq<SqlArg> {
    seq![SqlArg::Text(job_status_text(u.status))] + present_if(
        u.k8s_job_name is Some,
        SqlArg::Text(u.k8s_job_name->0@),
    ) + present_if(u.started_at is Some, SqlArg::Time(u.started_at->0)) + present_if(
        u.completed_at is Some,
        SqlArg::Time(u.completed_at->0),
    ) + present_if(u.error_message is Some, SqlArg::Text(u.error_message->0@)) + present_if(
        u.result_data is Some,
        SqlArg::Text(u.result_data->0@),
    )
}

/// The values of those columns, then the job's id.
pub open spec fn job_update_params(u: JobStatusUpdate) -> Seq<SqlArg> {
    job_update_values(u).push(SqlArg::Text(u.id@))
}

fn push_param_when(v: &mut Vec<SqlParam>, p: Option<SqlParam>)
    ensures
        params_view(final(v)@) == params_view(old(v)@) + present_if(p is Some, p->0@),
{
    let ghost before = params_view(v@);
    match p {
        Some(x) => {
            let ghost xv = x@;
            v.push(x);
            assert(params_view(v@) =~= before + seq![xv]);
        },
        None => {
            assert(params_view(v@) =~= before);
        },
    }
}

fn text_param(o: &Option<String>) -> (p: Option<SqlParam>)
    ensures
        (p is Some) == (o is Some),
        o is Some ==> p->0@ == SqlArg::Text(o->0@),
{
    match o {
        Some(s) => Some(SqlParam::Text(s.clone())),
        None => None,
    }
}

fn time_param(o: &Option<Timestamp>) -> (p: Option<SqlParam>)
    ensures
        (p is Some) == (o is Some),
        o is Some ==> p->0@ == SqlArg::Time(o->0),
{
    match o {
        Some(t) => Some(SqlParam::Time(*t)),
        None => None,
    }
}

/// The statement that writes a job's status update: it always stamps
/// `updated_at`, sets the status, and sets each optional column that the
/// update holds; the job is found by its id, the last parameter.
pub fn job_status_update_statement(u: &JobStatusUpdate) -> (st: SqlStatement)
    ensures
        st.text@ == update_text("job_queue"@, seq!["updated_at = NOW()"@], job_update_columns(*u)),
        params_view(st.params@) == job_update_params(*u),
{
    let mut fixed: Vec<String> = Vec::new();
    fixed.push(owned("updated_at = NOW()"));
    assert(str_vec_view(fixed) =~= seq!["updated_at = NOW()"@]);
    let mut cols: Vec<String> = Vec::new();
    cols.push(owned("status"));
    assert(str_vec_view(cols) =~= seq!["status"@]);
    push_when(&mut cols, u.k8s_job_name.is_some(), "k8s_job_name");
    push_when(&mut cols, u.started_at.is_some(), "started_at");
    push_when(&mut cols, u.completed_at.is_some(), "completed_at");
    push_when(&mut cols, u.error_message.is_some(), "error_message");
    push_when(&mut cols, u.result_data.is_some(), "result_data");
    assert(str_vec_view(cols) =~= job_update_columns(*u));
    let mut params: Vec<SqlParam> = Vec::new();
    params.push(SqlParam::Text(owned(job_status_to_string(u.status))));
    assert(params_view(params@) =~= seq![SqlArg::Text(job_status_text(u.status))]);
    push_param_when(&mut params, text_param(&u.k8s_job_name));
    push_param_when(&mut params, time_param(&u.started_at));
    push_param_when(&mut params, time_param(&u.completed_at));
    push_param_when(&mut params, text_param(&u.error_message));
    let result = match &u.result_data {
        Some(v) => Some(SqlParam::Text(v.text.clone())),
        None => None,
    };
    push_param_when(&mut params, result);
    let ghost before = params_view(params@);
    params.push(SqlParam::Text(u.id.clone()));
    assert(params_view(params@) =~= before + seq![SqlArg::Text(u.id@)]);
    assert(params_view(params@) =~= job_update_params(*u));
    let text = update_statement_text("job_queue", fixed, cols);
    SqlStatement { text, params }
}

// ---------------------------------------------------------------------------
// DAG executions and their nodes
// ---------------------------------------------------------------------------

pub open spec fn dag_finished(s: DAGStatus) -> bool {
    s == DAGStatus::Completed || s == DAGStatus::Failed || s == DAGStatus::Cancelled
}

/// The items that an update of a DAG execution always sets: `updated_at`
/// and the status, the start time on the first move to `Running`, the
/// completion time on the first move to a finished status.
pub open spec fn dag_execution_fixed(s: DAGStatus) -> Seq<Seq<char>> {
    seq!["updated_at = NOW()"@, "status = '"@ + dag_status_text(s) + "'"@] + present_if(
        s == DAGStatus::Running,
        "started_at = COALESCE(started_at, NOW())"@,
    ) + present_if(dag_finished(s), "completed_at = COALESCE(completed_at, NOW())"@)
}

fn status_item(status_text: &str) -> (s: String)
    ensures
        s@ == "status = '"@ + status_text@ + "'"@,
{
    let mut s = String::from_str("status = '");
    s.append(status_text);
    s.append("'");
    s
}

/// The statement that sets the status of a DAG execution, and its error
/// message when one is given.
pub fn dag_execution_status_statement(
    dag_execution_id: &str,
    status: DAGStatus,
    error_message: Option<&str>,
) -> (st: SqlStatement)
    ensures
        st.text@ == update_text(
            "dag_executions"@,
            dag_execution_fixed(status),
            present_if(error_message is Some, "error_message"@),
        ),
        params_view(st.params@) == (match error_message {
            Some(m) => seq![SqlArg::Text(m@), SqlArg::Text(dag_execution_id@)],
            None => seq![SqlArg::Text(dag_execution_id@)],
        }),
{
    let mut fixed: Vec<String> = Vec::new();
    fixed.push(owned("updated_at = NOW()"));
    fixed.push(status_item(dag_status_to_string(status)));
    assert(str_vec_view(fixed) =~= seq!["updated_at = NOW()"@, "status = '"@ + dag_status_text(status) + "'"@]);
    push_when(&mut fixed, status == DAGStatus::Running, "started_at = COALESCE(started_at, NOW())");
    let finished = status == DAGStatus::Completed || status == DAGStatus::Failed || status == DAGStatus::Cancelled;
    push_when(&mut fixed, finished, "completed_at = COALESCE(completed_at, NOW())");
    assert(str_vec_view(fixed) =~= dag_execution_fixed(status));
    let mut cols: Vec<String> = Vec::new();
    push_when(&mut cols, error_message.is_some(), "error_message");
    assert(str_vec_view(cols) =~= present_if(error_message is Some, "error_message"@));
    let mut params: Vec<SqlParam> = Vec::new();
    match error_message {
        Some(m) => params.push(SqlParam::Text(owned(m))),
        None => {},
    }
    params.push(SqlParam::Text(owned(dag_execution_id)));
    assert(params_view(params@) =~= (match error_message {
        Some(m) => seq![SqlArg::Text(m@), SqlArg::Text(dag_execution_id@)],
        None => seq![SqlArg::Text(dag_execution_id@)],
    }));
    let text = update_statement_text("dag_executions", fixed, cols);
    SqlStatement { text, params }
}

pub open spec fn node_finished(s: DAGNodeStatus) -> bool {
    s == DAGNodeStatus::Completed || s == DAGNodeStatus::Failed || s == DAGNodeStatus::Skipped
}

/// The items that an update of a node execution always sets, as for a
/// DAG execution; `Skipped` counts as finished.
pub open spec fn node_execution_fixed(s: DAGNodeStatus) -> Seq<Seq<char>> {
    seq!["updated_at = NOW()"@, "status = '"@ + dag_node_status_text(s) + "'"@] + present_if(
        s == DAGNodeStatus::Running,
        "started_at = COALESCE(started_at, NOW())"@,
    ) + present_if(node_finished(s), "completed_at = COALESCE(completed_at, NOW())"@)
}

/// The columns that a node update sets from parameters: each of the job id,
/// job topic, inputs, outputs and error message that it holds.
pub open spec fn node_update_columns(d: Option<NodeExecutionUpdate>) -> Seq<Seq<char>> {
    match d {
        Some(u) => present_if(u.job_id is Some, "job_id"@) + present_if(u.job_topic is Some, "job_topic"@) + present_if(
            u.inputs is Some,
            "inputs"@,
        ) + present_if(u.outputs is Some, "outputs"@) + present_if(u.error_message is Some, "error_message"@),
        None => Seq::empty(),
    }
}

/// The values of those columns, inputs and outputs as JSON objects.
pub open spec fn node_update_values(d: Option<NodeExecutionUpdate>) -> Seq<SqlArg> {
    match d {
        Some(u) => present_if(u.job_id is Some, SqlArg::Text(u.job_id->0@)) + present_if(
            u.job_topic is Some,
            SqlArg::Text(u.job_topic->0@),
        ) + present_if(u.inputs is Some, SqlArg::Text(object_text(u.inputs->0))) + present_if(
            u.outputs is Some,
            SqlArg::Text(object_text(u.outputs->0)),
        ) + present_if(u.error_message is Some, SqlArg::Text(u.error_message->0@)),
        None => Seq::empty(),
    }
}

/// The values of those columns, then the node execution's id.
pub open spec fn node_update_params(id: Seq<char>, d: Option<NodeExecutionUpdate>) -> Seq<SqlArg> {
    node_update_values(d).push(SqlArg::Text(id))
}

/// The statement that sets the status of a node execution, with what the
/// update holds.
pub fn node_execution_status_statement(
    node_execution_id: &str,
    status: DAGNodeStatus,
    data: &Option<NodeExecutionUpdate>,
) -> (st: SqlStatement)
    ensures
        st.text@ == update_text("dag_node_executions"@, node_execution_fixed(status), node_update_columns(*data)),
        params_view(st.params@) == node_update_params(node_execution_id@, *data),
{
    let mut fixed: Vec<String> = Vec::new();
    fixed.push(owned("updated_at = NOW()"));
    fixed.push(status_item(dag_node_status_to_string(status)));
    assert(str_vec_view(fixed) =~= seq!["updated_at = NOW()"@, "status = '"@ + dag_node_status_text(status) + "'"@]);
    push_when(&mut fixed, status == DAGNodeStatus::Running, "started_at = COALESCE(started_at, NOW())");
    let finished = status == DAGNodeStatus::Completed || status == DAGNodeStatus::Failed || status
        == DAGNodeStatus::Skipped;
    push_when(&mut fixed, finished, "completed_at = COALESCE(completed_at, NOW())");
    assert(str_vec_view(fixed) =~= node_execution_fixed(status));
    let mut cols: Vec<String> = Vec::new();
    let mut params: Vec<SqlParam> = Vec::new();
    match data {
        Some(u) => {
            push_when(&mut cols, u.job_id.is_some(), "job_id");
            push_when(&mut cols, u.job_topic.is_some(), "job_topic");
            push_when(&mut cols, u.inputs.is_some(), "inputs");
            push_when(&mut cols, u.outputs.is_some(), "outputs");
            push_when(&mut cols, u.error_message.is_some(), "error_message");
            assert(str_vec_view(cols) =~= node_update_columns(*data));
            push_param_when(&mut params, text_param(&u.job_id));
            push_param_when(&mut params, text_param(&u.job_topic));
            let inputs = match &u.inputs {
                Some(m) => Some(SqlParam::Text(object_json(m))),
                None => None,
            };
            push_param_when(&mut params, inputs);
            let outputs = match &u.outputs {
                Some(m) => Some(SqlParam::Text(object_json(m))),
                None => None,
            };
            push_param_when(&mut params, outputs);
            push_param_when(&mut params, text_param(&u.error_message));
        },
        None => {
            assert(str_vec_view(cols) =~= node_update_columns(*data));
        },
    }
    let ghost before = params_view(params@);
    params.push(SqlParam::Text(owned(node_execution_id)));
    assert(params_view(params@) =~= before + seq![SqlArg::Text(node_execution_id@)]);
    assert(params_view(params@) =~= node_update_params(node_execution_id@, *data));
    let text = update_statement_text("dag_node_executions", fixed, cols);
    SqlStatement { text, params }
}

// ---------------------------------------------------------------------------
// Putting a job in the queue
// ---------------------------------------------------------------------------

/// The JSON text of resource overrides: `{"cpu":..,"memory":..}`, an
/// absent amount written as `null`.
pub open spec fn overrides_text(o: PartialResourceRequirements) -> Seq<char> {
    "{\"cpu\":"@ + opt_string_text(o.cpu) + ",\"memory\":"@ + opt_string_text(o.memory) + "}"@
}

/// The resource overrides as JSON text.
pub fn overrides_json(o: &PartialResourceRequirements) -> (s: String)
    ensures
        s@ == overrides_text(*o),
{
    let mut s = String::from_str("{\"cpu\":");
    let cpu = opt_string_json(&o.cpu);
    s.append(cpu.as_str());
    s.append(",\"memory\":");
    let memory = opt_string_json(&o.memory);
    s.append(memory.as_str());
    s.append("}");
    s
}

/// The values bound to the parameters of the INSERT of a job request:
/// topic, image, job name, command, arguments, environment variables,
/// resource overrides, priority (0 when not given), maximum retries (3 when
/// not given), creator, labels and inputs; maps and overrides as JSON text.
pub open spec fn enqueue_params_view(r: JobRequest) -> Seq<SqlArg> {
    seq![
        SqlArg::Text(r.topic@),
        SqlArg::Text(r.image_id@),
        SqlArg::OptText(opt_str_view(r.job_name)),
        SqlArg::OptTextList(opt_str_vec_view(r.command)),
        SqlArg::OptTextList(opt_str_vec_view(r.args)),
        SqlArg::OptText(
            match r.environment_variables {
                Some(m) => Some(string_object_text(m)),
                None => None,
            },
        ),
        SqlArg::OptText(
            match r.resource_overrides {
                Some(o) => Some(overrides_text(o)),
                None => None,
            },
        ),
        SqlArg::Int(
            match r.priority {
                Some(p) => p,
                None => 0,
            },
        ),
        SqlArg::Int(
            match r.max_retries {
                Some(m) => m,
                None => 3,
            },
        ),
        SqlArg::Text(r.created_by@),
        SqlArg::OptText(
            match r.labels {
                Some(m) => Some(string_object_text(m)),
                None => None,
            },
        ),
        SqlArg::OptText(
            match r.inputs {
                Some(m) => Some(object_text(m)),
                None => None,
            },
        ),
    ]
}

/// The twelve INSERT arguments `a` of the request `r`, position by
/// position: `$1` its topic, `$2` its image, `$8` its priority (0 when it
/// gives none), `$9` its maximum retries (3 when it gives none), `$10` its
/// creator.
pub open spec fn enqueue_args_by_field(a: Seq<SqlArg>, r: JobRequest) -> bool {
    &&& a.len() == 12
    &&& a[0] == SqlArg::Text(r.topic@)
    &&& a[1] == SqlArg::Text(r.image_id@)
    &&& (r.priority is Some ==> a[7] == SqlArg::Int(r.priority->0))
    &&& (r.priority is None ==> a[7] == SqlArg::Int(0))
    &&& (r.max_retries is Some ==> a[8] == SqlArg::Int(r.max_retries->0))
    &&& (r.max_retries is None ==> a[8] == SqlArg::Int(3))
    &&& a[9] == SqlArg::Text(r.created_by@)
}

/// The INSERT of a job request binds the request's topic to `$1`, its image
/// to `$2`, its priority (or 0) to `$8`, its maximum retries (or 3) to `$9`
/// and its creator to `$10`.
pub proof fn law_enqueue_args(r: JobRequest)
    ensures
        enqueue_args_by_field(enqueue_params_view(r), r),
{
}

/// The parameters of the INSERT that puts `r` in the queue.
pub fn enqueue_params(r: &JobRequest) -> (ps: Vec<SqlParam>)
    ensures
        params_view(ps@) == enqueue_params_view(*r),
        enqueue_args_by_field(params_view(ps@), *r),
{
    let env = match &r.environment_variables {
        Some(m) => Some(string_object_json(m)),
        None => None,
    };
    let overrides = match &r.resource_overrides {
        Some(o) => Some(overrides_json(o)),
        None => None,
    };
    let labels = match &r.labels {
        Some(m) => Some(string_object_json(m)),
        None => None,
    };
    let inputs = match &r.inputs {
        Some(m) => Some(object_json(m)),
        None => None,
    };
    let priority = match r.priority {
        Some(p) => p,
        None => 0,
    };
    let max_retries = match r.max_retries {
        Some(m) => m,
        None => 3,
    };
    let job_name = match &r.job_name {
        Some(n) => Some(n.clone()),
        None => None,
    };
    let ps = vec![
        SqlParam::Text(r.topic.clone()),
        SqlParam::Text(r.image_id.clone()),
        SqlParam::OptText(job_name),
        SqlParam::OptTextList(dup_opt_str_vec(&r.command)),
        SqlParam::OptTextList(dup_opt_str_vec(&r.args)),
        SqlParam::OptText(env),
        SqlParam::OptText(overrides),
        SqlParam::Int(priority),
        SqlParam::Int(max_retries),
        SqlParam::Text(r.created_by.clone()),
        SqlParam::OptText(labels),
        SqlParam::OptText(inputs),
    ];
    assert(params_view(ps@) =~= enqueue_params_view(*r));
    ps
}

// ---------------------------------------------------------------------------
// History entries
// ---------------------------------------------------------------------------

/// The JSON text of a job condition: an object with its six fields by
/// their names, an absent one written as `null`.
pub open spec fn condition_text(c: K8sJobCondition) -> Seq<char> {
    "{\"condition_type\":"@ + json_string_literal(c.condition_type@) + ",\"status\":"@ + json_string_literal(
        c.status@,
    ) + ",\"last_probe_time\":"@ + opt_string_text(c.last_probe_time) + ",\"last_transition_time\":"@
        + opt_string_text(c.last_transition_time) + ",\"reason\":"@ + opt_string_text(c.reason)
        + ",\"message\":"@ + opt_string_text(c.message) + "}"@
}

/// The JSON array of the conditions.
pub open spec fn conditions_text(cs: Seq<K8sJobCondition>) -> Seq<char> {
    "["@ + join_with(","@, cs.map_values(|c: K8sJobCondition| condition_text(c))) + "]"@
}

fn string_json(s: &str) -> (r: String)
    ensures
        r@ == json_string_literal(s@),
{
    crate::json::JsonValue::from_string(s).text
}

fn condition_json(c: &K8sJobCondition) -> (s: String)
    ensures
        s@ == condition_text(*c),
{
    let mut s = String::from_str("{\"condition_type\":");
    s.append(string_json(c.condition_type.as_str()).as_str());
    s.append(",\"status\":");
    s.append(string_json(c.status.as_str()).as_str());
    s.append(",\"last_probe_time\":");
    s.append(opt_string_json(&c.last_probe_time).as_str());
    s.append(",\"last_transition_time\":");
    s.append(opt_string_json(&c.last_transition_time).as_str());
    s.append(",\"reason\":");
    s.append(opt_string_json(&c.reason).as_str());
    s.append(",\"message\":");
    s.append(opt_string_json(&c.message).as_str());
    s.append("}");
    s
}

/// The conditions as a JSON array.
pub fn conditions_json(cs: &Vec<K8sJobCondition>) -> (s: String)
    ensures
        s@ == conditions_text(cs@),
{
    let ghost items = cs@.map_values(|c: K8sJobCondition| condition_text(c));
    let mut parts: Vec<String> = Vec::new();
    let mut i: usize = 0;
    while i < cs.len()
        invariant
            i <= cs.len(),
            items == cs@.map_values(|c: K8sJobCondition| condition_text(c)),
            str_vec_view(parts) == items.take(i as int),
        decreases cs.len() - i,
    {
        let part = condition_json(&cs[i]);
        let ghost before = str_vec_view(parts);
        parts.push(part);
        assert(str_vec_view(parts) =~= before.push(part@));
        assert(items.take(i + 1) =~= items.take(i as int).push(part@));
        i = i + 1;
    }
    assert(items.take(cs.len() as int) =~= items);
    let mut s = String::from_str("[");
    s.append(join_strings(&parts, ",").as_str());
    s.append("]");
    s
}

/// The values bound to the parameters of the INSERT of a history entry:
/// job id, topic, status, message, conditions (as JSON), pod logs, no
/// resource usage, and metadata (as a JSON object).
pub open spec fn history_params_view(h: HistoryEntry) -> Seq<SqlArg> {
    seq![
        SqlArg::Text(h.job_id@),
        SqlArg::Text(h.job_topic@),
        SqlArg::Text(job_status_text(h.status)),
        SqlArg::OptText(opt_str_view(h.message)),
        SqlArg::OptText(
            match h.k8s_events {
                Some(cs) => Some(conditions_text(cs@)),
                None => None,
            },
        ),
        SqlArg::OptText(opt_str_view(h.pod_logs)),
        SqlArg::OptText(None),
        SqlArg::OptText(
            match h.metadata {
                Some(m) => Some(object_text(m)),
                None => None,
            },
        ),
    ]
}

/// The eight INSERT arguments `a` of the history entry `h`, position by
/// position: `$1` its job id, `$2` its topic, `$3` the stored name of its
/// status, `$4` its message, `$6` its pod logs, and `$7` no resource usage.
pub open spec fn history_args_by_field(a: Seq<SqlArg>, h: HistoryEntry) -> bool {
    &&& a.len() == 8
    &&& a[0] == SqlArg::Text(h.job_id@)
    &&& a[1] == SqlArg::Text(h.job_topic@)
    &&& a[2] == SqlArg::Text(job_status_text(h.status))
    &&& (h.message is Some ==> a[3] == SqlArg::OptText(Some(h.message->0@)))
    &&& (h.message is None ==> a[3] == SqlArg::OptText(None))
    &&& (h.pod_logs is Some ==> a[5] == SqlArg::OptText(Some(h.pod_logs->0@)))
    &&& (h.pod_logs is None ==> a[5] == SqlArg::OptText(None))
    &&& a[6] == SqlArg::OptText(None)
}

/// The INSERT of a history entry binds its job id, topic, status, message
/// and pod logs to their own parameters.
pub proof fn law_history_args(h: HistoryEntry)
    ensures
        history_args_by_field(history_params_view(h), h),
{
}

/// The parameters of the INSERT that records `h`.
pub fn history_params(h: &HistoryEntry) -> (ps: Vec<SqlParam>)
    ensures
        params_view(ps@) == history_params_view(*h),
        history_args_by_field(params_view(ps@), *h),
{
    let events = match &h.k8s_events {
        Some(cs) => Some(conditions_json(cs)),
        None => None,
    };
    let metadata = match &h.metadata {
        Some(m) => Some(object_json(m)),
        None => None,
    };
    let message = match &h.message {
        Some(m) => Some(m.clone()),
        None => None,
    };
    let logs = match &h.pod_logs {
        Some(l) => Some(l.clone()),
        None => None,
    };
    let ps = vec![
        SqlParam::Text(h.job_id.clone()),
        SqlParam::Text(h.job_topic.clone()),
        SqlParam::Text(owned(job_status_to_string(h.status))),
        SqlParam::OptText(message),
        SqlParam::OptText(events),
        SqlParam::OptText(logs),
        SqlParam::OptText(None),
        SqlParam::OptText(metadata),
    ];
    assert(params_view(ps@) =~= history_params_view(*h));
    ps
}

// ---------------------------------------------------------------------------
// Every placeholder has its value
// ---------------------------------------------------------------------------

proof fn lemma_when_same_len<A, B>(b: bool, x: A, y: B)
    ensures
        present_if(b, x).len() == present_if(b, y).len(),
{
}

/// The value `v` bound to the column `c` of a job's status update is the
/// update's own value for that column: its status for `status`, its
/// Kubernetes job name, start time, completion time, error message or
/// result for the column of that name (each only set when the update holds
/// it).
pub open spec fn job_column_value(c: Seq<char>, v: SqlArg, u: JobStatusUpdate) -> bool {
    &&& (c == "status"@ ==> v == SqlArg::Text(job_status_text(u.status)))
    &&& (c == "k8s_job_name"@ ==> u.k8s_job_name is Some && v == SqlArg::Text(u.k8s_job_name->0@))
    &&& (c == "started_at"@ ==> u.started_at is Some && v == SqlArg::Time(u.started_at->0))
    &&& (c == "completed_at"@ ==> u.completed_at is Some && v == SqlArg::Time(u.completed_at->0))
    &&& (c == "error_message"@ ==> u.error_message is Some && v == SqlArg::Text(u.error_message->0@))
    &&& (c == "result_data"@ ==> u.result_data is Some && v == SqlArg::Text(u.result_data->0@))
}

proof fn lemma_columns_aligned(cs1: Seq<Seq<char>>, vs1: Seq<SqlArg>, cs2: Seq<Seq<char>>, vs2: Seq<SqlArg>, u: JobStatusUpdate)
    requires
        cs1.len() == vs1.len(),
        cs2.len() == vs2.len(),
        forall|i: int| 0 <= i < cs1.len() ==> job_column_value(#[trigger] cs1[i], vs1[i], u),
        forall|i: int| 0 <= i < cs2.len() ==> job_column_value(#[trigger] cs2[i], vs2[i], u),
    ensures
        (cs1 + cs2).len() == (vs1 + vs2).len(),
        forall|i: int| 0 <= i < (cs1 + cs2).len() ==> job_column_value(#[trigger] (cs1 + cs2)[i], (vs1 + vs2)[i], u),
{
    assert forall|i: int| 0 <= i < (cs1 + cs2).len() implies job_column_value(#[trigger] (cs1 + cs2)[i], (vs1 + vs2)[i], u) by {
        if i < cs1.len() {
            assert((cs1 + cs2)[i] == cs1[i]);
            assert((vs1 + vs2)[i] == vs1[i]);
        } else {
            assert((cs1 + cs2)[i] == cs2[i - cs1.len()]);
            assert((vs1 + vs2)[i] == vs2[i - cs1.len()]);
        }
    }
}

/// The status update of a job binds to each column it names the update's
/// own value for that column, position by position, and the job's id last.
pub proof fn law_job_update_columns_match_values(u: JobStatusUpdate)
    ensures
        job_update_params(u).len() == job_update_columns(u).len() + 1,
        job_update_params(u).last() == SqlArg::Text(u.id@),
        forall|i: int| 0 <= i < job_update_columns(u).len() ==> job_column_value(
            #[trigger] job_update_columns(u)[i],
            job_update_params(u)[i],
            u,
        ),
{
    reveal_strlit("status");
    reveal_strlit("k8s_job_name");
    reveal_strlit("started_at");
    reveal_strlit("completed_at");
    reveal_strlit("error_message");
    reveal_strlit("result_data");
    assert("status"@.len() == 6);
    assert("k8s_job_name"@.len() == 12);
    assert("started_at"@.len() == 10);
    assert("completed_at"@.len() == 12);
    assert("error_message"@.len() == 13);
    assert("result_data"@.len() == 11);
    assert("k8s_job_name"@[0] != "completed_at"@[0]);
    assert("k8s_job_name"@ != "completed_at"@);
    let c0 = seq!["status"@];
    let v0 = seq![SqlArg::Text(job_status_text(u.status))];
    assert(job_column_value(c0[0], v0[0], u));
    let c1 = present_if(u.k8s_job_name is Some, "k8s_job_name"@);
    let v1 = present_if(u.k8s_job_name is Some, SqlArg::Text(u.k8s_job_name->0@));
    if u.k8s_job_name is Some { assert(job_column_value(c1[0], v1[0], u)); }
    let c2 = present_if(u.started_at is Some, "started_at"@);
    let v2 = present_if(u.started_at is Some, SqlArg::Time(u.started_at->0));
    if u.started_at is Some { assert(job_column_value(c2[0], v2[0], u)); }
    let c3 = present_if(u.completed_at is Some, "completed_at"@);
    let v3 = present_if(u.completed_at is Some, SqlArg::Time(u.completed_at->0));
    if u.completed_at is Some { assert(job_column_value(c3[0], v3[0], u)); }
    let c4 = present_if(u.error_message is Some, "error_message"@);
    let v4 = present_if(u.error_message is Some, SqlArg::Text(u.error_message->0@));
    if u.error_message is Some { assert(job_column_value(c4[0], v4[0], u)); }
    let c5 = present_if(u.result_data is Some, "result_data"@);
    let v5 = present_if(u.result_data is Some, SqlArg::Text(u.result_data->0@));
    if u.result_data is Some { assert(job_column_value(c5[0], v5[0], u)); }
    lemma_columns_aligned(c0, v0, c1, v1, u);
    lemma_columns_aligned(c0 + c1, v0 + v1, c2, v2, u);
    lemma_columns_aligned(c0 + c1 + c2, v0 + v1 + v2, c3, v3, u);
    lemma_columns_aligned(c0 + c1 + c2 + c3, v0 + v1 + v2 + v3, c4, v4, u);
    lemma_columns_aligned(c0 + c1 + c2 + c3 + c4, v0 + v1 + v2 + v3 + v4, c5, v5, u);
    let vals = job_update_values(u);
    assert(job_update_columns(u) == c0 + c1 + c2 + c3 + c4 + c5);
    assert(vals == v0 + v1 + v2 + v3 + v4 + v5);
    assert forall|i: int| 0 <= i < job_update_columns(u).len() implies job_update_params(u)[i] == vals[i] by {}
}

/// The UPDATE statements bind one value to each of their placeholders: a
/// value for each numbered column, in the columns' order, and last the id
/// that the `WHERE` clause names.
pub proof fn law_update_params_fill_placeholders(u: JobStatusUpdate, node_id: Seq<char>, d: Option<NodeExecutionUpdate>)
    ensures
        job_update_params(u).len() == job_update_columns(u).len() + 1,
        job_update_params(u).last() == SqlArg::Text(u.id@),
        node_update_params(node_id, d).len() == node_update_columns(d).len() + 1,
        node_update_params(node_id, d).last() == SqlArg::Text(node_id),
{
    lemma_when_same_len(u.k8s_job_name is Some, SqlArg::Text(Seq::empty()), "k8s_job_name"@);
    lemma_when_same_len(u.started_at is Some, SqlArg::Text(Seq::empty()), "started_at"@);
    lemma_when_same_len(u.completed_at is Some, SqlArg::Text(Seq::empty()), "completed_at"@);
    lemma_when_same_len(u.error_message is Some, SqlArg::Text(Seq::empty()), "error_message"@);
    lemma_when_same_len(u.result_data is Some, SqlArg::Text(Seq::empty()), "result_data"@);
    assert(job_update_values(u).len() == job_update_columns(u).len());
    match d {
        Some(v) => {
            lemma_when_same_len(v.job_id is Some, SqlArg::Text(Seq::empty()), "job_id"@);
            lemma_when_same_len(v.job_topic is Some, SqlArg::Text(Seq::empty()), "job_topic"@);
            lemma_when_same_len(v.inputs is Some, SqlArg::Text(Seq::empty()), "inputs"@);
            lemma_when_same_len(v.outputs is Some, SqlArg::Text(Seq::empty()), "outputs"@);
            lemma_when_same_len(v.error_message is Some, SqlArg::Text(Seq::empty()), "error_message"@);
        },
        None => {},
    }
    assert(node_update_values(d).len() == node_update_columns(d).len());
}

} // verus!
