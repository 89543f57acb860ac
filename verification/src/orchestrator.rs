//! The DAG orchestrator: what happens to a DAG execution when one of its
//! jobs completes or fails.
use vstd::prelude::*;
use vstd::set_lib::*;
use crate::dag::{
    dag_status_action, failed_nodes_message, is_dag_job, node_failure_message, resolve_node_inputs,
    resolved_inputs, spec_dag_status_action, DAGExecutionStats, DAGExecutionView, DAGNode,
    DAGNodeExecutionView, DAGNodeStatus, DAGNodeView, DAGStatus, DagStatusAction,
    NodeExecutionUpdate,
};
use crate::dag_store::{
    has_execution, node_update_view, nodes_in_status, nodes_of, same_node_execution, stats_match,
    DAGExecutionRepository, DAGTemplateRepository, ExecutionStatusWrite, NodeStatusWrite, NodeUpdateView,
};
use crate::database::{enqueued_job, only_key_changed, JobQueueRepository};
use crate::json::{JobInputs, JobOutputs, JsonValue};
use crate::strmap::{Duplicate, StrMap};
use crate::text::int_decimal;
use crate::types::{JobRequest, JobRequestView, QueuedJob};
use crate::views::{dup_opt_map, dup_opt_str_vec, opt_map_view, opt_str_vec_view, opt_str_view, owned};

verus! {

// ---------------------------------------------------------------------------
// What the orchestrator does to node executions
// ---------------------------------------------------------------------------

/// A node that still waits for its parents: pending or waiting.
pub open spec fn waits(st: DAGNodeStatus) -> bool {
    st == DAGNodeStatus::Pending || st == DAGNodeStatus::Waiting
}

/// The ids of the node executions that still wait.
pub open spec fn waiting_ids(m: Map<Seq<char>, DAGNodeExecutionView>) -> Set<Seq<char>> {
    m.dom().filter(|k: Seq<char>| waits(m[k].status))
}

/// From `before` to `after`, the only change of status is that of waiting
/// node executions of the DAG execution `dag` becoming skipped; every node
/// execution keeps its id, execution and node.
pub open spec fn skip_only(
    before: Map<Seq<char>, DAGNodeExecutionView>,
    after: Map<Seq<char>, DAGNodeExecutionView>,
    dag: Seq<char>,
) -> bool {
    &&& after.dom() == before.dom()
    &&& forall|k: Seq<char>| #[trigger] before.contains_key(k) ==> same_node_execution(before[k], after[k])
    &&& forall|k: Seq<char>| #[trigger]
        before.contains_key(k) && after[k].status != before[k].status ==> waits(before[k].status)
            && after[k].status == DAGNodeStatus::Skipped && before[k].dag_execution_id == dag
}

/// The node `node` of the DAG execution `dag` has a node execution that no
/// longer waits.
pub open spec fn settled(m: Map<Seq<char>, DAGNodeExecutionView>, dag: Seq<char>, node: Seq<char>) -> bool {
    exists|k: Seq<char>| #[trigger]
        m.contains_key(k) && m[k].dag_execution_id == dag && m[k].dag_node_id == node && !waits(
            m[k].status,
        )
}

/// Every node of `nodes` is settled in the DAG execution `dag`.
pub open spec fn all_settled(
    m: Map<Seq<char>, DAGNodeExecutionView>,
    dag: Seq<char>,
    nodes: Seq<Seq<char>>,
) -> bool {
    forall|i: int| 0 <= i < nodes.len() ==> settled(m, dag, #[trigger] nodes[i])
}

/// Every child of every node of the template `t` has a node execution in
/// the DAG execution `dag`.
pub open spec fn children_have_executions<T: DAGTemplateRepository>(
    m: Map<Seq<char>, DAGNodeExecutionView>,
    dag: Seq<char>,
    t: T,
) -> bool {
    forall|p: Seq<char>, i: int|
        0 <= i < t.children(p).len() ==> has_execution(m, dag, #[trigger] t.children(p)[i])
}

/// `path` is a chain of nodes of the template `t` that starts at a child of
/// `from`, each node a child of the one before it.
pub open spec fn child_path<T: DAGTemplateRepository>(t: T, from: Seq<char>, path: Seq<Seq<char>>) -> bool {
    &&& path.len() > 0
    &&& t.children(from).contains(path[0])
    &&& forall|i: int| 0 <= i < path.len() - 1 ==> (#[trigger] t.children(path[i])).contains(path[i + 1])
}

/// The node `node` of the DAG execution `dag` has a node execution in `m`
/// that still waits.
pub open spec fn waits_in(m: Map<Seq<char>, DAGNodeExecutionView>, dag: Seq<char>, node: Seq<char>) -> bool {
    exists|k: Seq<char>| #[trigger]
        m.contains_key(k) && m[k].dag_execution_id == dag && m[k].dag_node_id == node && waits(m[k].status)
}

/// `path` is a chain of descendants of `from` in the template `t` whose
/// nodes, all but the last, wait in the DAG execution `dag` in `m`.
pub open spec fn waiting_path<T: DAGTemplateRepository>(
    m: Map<Seq<char>, DAGNodeExecutionView>,
    dag: Seq<char>,
    t: T,
    from: Seq<char>,
    path: Seq<Seq<char>>,
) -> bool {
    &&& child_path(t, from, path)
    &&& forall|j: int| 0 <= j < path.len() - 1 ==> waits_in(m, dag, #[trigger] path[j])
}

/// The node `node` is a descendant of `from` in the template `t`, reached
/// through nodes that wait in the DAG execution `dag` in `m`.
pub open spec fn descends_through_waiting<T: DAGTemplateRepository>(
    m: Map<Seq<char>, DAGNodeExecutionView>,
    dag: Seq<char>,
    t: T,
    from: Seq<char>,
    node: Seq<char>,
) -> bool {
    exists|path: Seq<Seq<char>>| #[trigger] waiting_path(m, dag, t, from, path) && path.last() == node
}

/// Every node execution that waits in `b` waited in `a`, for the same
/// execution and node.
pub open spec fn waiting_kept(a: Map<Seq<char>, DAGNodeExecutionView>, b: Map<Seq<char>, DAGNodeExecutionView>) -> bool {
    forall|k: Seq<char>| #[trigger]
        b.contains_key(k) && waits(b[k].status) ==> a.contains_key(k) && a[k].dag_execution_id
            == b[k].dag_execution_id && a[k].dag_node_id == b[k].dag_node_id && waits(a[k].status)
}

proof fn lemma_through_waiting_child<T: DAGTemplateRepository>(
    m: Map<Seq<char>, DAGNodeExecutionView>,
    dag: Seq<char>,
    t: T,
    from: Seq<char>,
    c: Seq<char>,
)
    requires
        t.children(from).contains(c),
    ensures
        descends_through_waiting(m, dag, t, from, c),
{
    let path = seq![c];
    assert(child_path(t, from, path));
    assert(waiting_path(m, dag, t, from, path));
}

proof fn lemma_through_waiting_extend<T: DAGTemplateRepository>(
    m: Map<Seq<char>, DAGNodeExecutionView>,
    dag: Seq<char>,
    t: T,
    from: Seq<char>,
    c: Seq<char>,
    x: Seq<char>,
)
    requires
        t.children(from).contains(c),
        waits_in(m, dag, c),
        descends_through_waiting(m, dag, t, c, x),
    ensures
        descends_through_waiting(m, dag, t, from, x),
{
    let p = choose|p: Seq<Seq<char>>| #[trigger] waiting_path(m, dag, t, c, p) && p.last() == x;
    let q = seq![c] + p;
    assert forall|i: int| 0 <= i < q.len() - 1 implies (#[trigger] t.children(q[i])).contains(q[i + 1]) by {
        if i == 0 {
            assert(q[0] == c);
            assert(q[1] == p[0]);
        } else {
            assert(q[i] == p[i - 1]);
            assert(q[i + 1] == p[i]);
            assert(t.children(p[i - 1]).contains(p[(i - 1) + 1]));
        }
    }
    assert forall|j: int| 0 <= j < q.len() - 1 implies waits_in(m, dag, #[trigger] q[j]) by {
        if j > 0 {
            assert(q[j] == p[j - 1]);
        }
    }
    assert(q.last() == p.last());
    assert(waiting_path(m, dag, t, from, q));
}

proof fn lemma_through_waiting_back<T: DAGTemplateRepository>(
    a: Map<Seq<char>, DAGNodeExecutionView>,
    b: Map<Seq<char>, DAGNodeExecutionView>,
    dag: Seq<char>,
    t: T,
    from: Seq<char>,
    x: Seq<char>,
)
    requires
        waiting_kept(a, b),
        descends_through_waiting(b, dag, t, from, x),
    ensures
        descends_through_waiting(a, dag, t, from, x),
{
    let p = choose|p: Seq<Seq<char>>| #[trigger] waiting_path(b, dag, t, from, p) && p.last() == x;
    assert forall|j: int| 0 <= j < p.len() - 1 implies waits_in(a, dag, #[trigger] p[j]) by {
        assert(waits_in(b, dag, p[j]));
        let k = choose|k: Seq<char>| #[trigger]
            b.contains_key(k) && b[k].dag_execution_id == dag && b[k].dag_node_id == p[j] && waits(b[k].status);
        assert(a.contains_key(k));
    }
    assert(waiting_path(a, dag, t, from, p));
}

proof fn lemma_skip_only_keeps_waiting(
    a: Map<Seq<char>, DAGNodeExecutionView>,
    b: Map<Seq<char>, DAGNodeExecutionView>,
    dag: Seq<char>,
)
    requires
        skip_only(a, b, dag),
    ensures
        waiting_kept(a, b),
{
    assert forall|k: Seq<char>| #[trigger] b.contains_key(k) && waits(b[k].status) implies a.contains_key(k)
        && a[k].dag_execution_id == b[k].dag_execution_id && a[k].dag_node_id == b[k].dag_node_id && waits(
        a[k].status,
    ) by {
        assert(a.contains_key(k));
    }
}

proof fn lemma_children_have_executions_stay<T: DAGTemplateRepository>(
    a: Map<Seq<char>, DAGNodeExecutionView>,
    b: Map<Seq<char>, DAGNodeExecutionView>,
    dag: Seq<char>,
    t: T,
)
    requires
        b.dom() == a.dom(),
        forall|k: Seq<char>| #[trigger] a.contains_key(k) ==> same_node_execution(a[k], b[k]),
        children_have_executions(a, dag, t),
    ensures
        children_have_executions(b, dag, t),
{
    assert forall|p: Seq<char>, i: int| 0 <= i < t.children(p).len() implies has_execution(
        b,
        dag,
        #[trigger] t.children(p)[i],
    ) by {
        let x = t.children(p)[i];
        assert(has_execution(a, dag, x));
        let k = choose|k: Seq<char>| #[trigger] a.contains_key(k) && a[k].dag_execution_id == dag && a[k].dag_node_id == x;
        assert(b.contains_key(k));
        assert(same_node_execution(a[k], b[k]));
    }
}

proof fn lemma_skip_only_trans(
    a: Map<Seq<char>, DAGNodeExecutionView>,
    b: Map<Seq<char>, DAGNodeExecutionView>,
    c: Map<Seq<char>, DAGNodeExecutionView>,
    dag: Seq<char>,
)
    requires
        skip_only(a, b, dag),
        skip_only(b, c, dag),
    ensures
        skip_only(a, c, dag),
{
    assert forall|k: Seq<char>| #[trigger] a.contains_key(k) implies same_node_execution(a[k], c[k]) by {
        assert(b.contains_key(k));
    }
    assert forall|k: Seq<char>| #[trigger]
        a.contains_key(k) && c[k].status != a[k].status implies waits(a[k].status) && c[k].status
        == DAGNodeStatus::Skipped && a[k].dag_execution_id == dag by {
        assert(b.contains_key(k));
        if b[k].status != a[k].status {
            assert(!waits(b[k].status));
        }
    }
}

proof fn lemma_settled_stays(
    b: Map<Seq<char>, DAGNodeExecutionView>,
    c: Map<Seq<char>, DAGNodeExecutionView>,
    skip_dag: Seq<char>,
    dag: Seq<char>,
    node: Seq<char>,
)
    requires
        skip_only(b, c, skip_dag),
        settled(b, dag, node),
    ensures
        settled(c, dag, node),
{
    let k = choose|k: Seq<char>| #[trigger]
        b.contains_key(k) && b[k].dag_execution_id == dag && b[k].dag_node_id == node && !waits(
            b[k].status,
        );
    assert(c.contains_key(k));
    assert(same_node_execution(b[k], c[k]));
}

proof fn lemma_all_settled_stays(
    b: Map<Seq<char>, DAGNodeExecutionView>,
    c: Map<Seq<char>, DAGNodeExecutionView>,
    skip_dag: Seq<char>,
    dag: Seq<char>,
    nodes: Seq<Seq<char>>,
)
    requires
        skip_only(b, c, skip_dag),
        all_settled(b, dag, nodes),
    ensures
        all_settled(c, dag, nodes),
{
    assert forall|i: int| 0 <= i < nodes.len() implies settled(c, dag, #[trigger] nodes[i]) by {
        lemma_settled_stays(b, c, skip_dag, dag, nodes[i]);
    }
}

proof fn lemma_waiting_shrinks(
    a: Map<Seq<char>, DAGNodeExecutionView>,
    b: Map<Seq<char>, DAGNodeExecutionView>,
    dag: Seq<char>,
)
    requires
        a.dom().finite(),
        skip_only(a, b, dag),
    ensures
        b.dom().finite(),
        waiting_ids(b).subset_of(waiting_ids(a)),
        waiting_ids(b).len() <= waiting_ids(a).len(),
{
    assert forall|k: Seq<char>| #[trigger] waiting_ids(b).contains(k) implies waiting_ids(a).contains(k) by {
        assert(a.contains_key(k));
    }
    lemma_len_subset(waiting_ids(b), waiting_ids(a));
}

proof fn lemma_waiting_drops(
    a: Map<Seq<char>, DAGNodeExecutionView>,
    b: Map<Seq<char>, DAGNodeExecutionView>,
    dag: Seq<char>,
    k: Seq<char>,
)
    requires
        a.dom().finite(),
        skip_only(a, b, dag),
        a.contains_key(k),
        waits(a[k].status),
        !waits(b[k].status),
    ensures
        waiting_ids(b).len() < waiting_ids(a).len(),
{
    lemma_waiting_shrinks(a, b, dag);
    assert(waiting_ids(a).contains(k));
    assert(!waiting_ids(b).contains(k));
    assert(waiting_ids(b).subset_of(waiting_ids(a).remove(k)));
    lemma_len_subset(waiting_ids(b), waiting_ids(a).remove(k));
}

/// From `before` to `after`, skipping the waiting descendants of the node
/// `node` of the DAG execution `dag` in the template `t` changed only waiting
/// node executions of `dag` into skipped ones, each of a descendant of
/// `node` reached through nodes that were waiting; when it went through (`done`), every child of `node`, and every
/// child of a node that was skipped, no longer waits.
pub open spec fn skipped_descendants<T: DAGTemplateRepository>(
    before: Map<Seq<char>, DAGNodeExecutionView>,
    after: Map<Seq<char>, DAGNodeExecutionView>,
    dag: Seq<char>,
    node: Seq<char>,
    t: T,
    done: bool,
) -> bool {
    &&& skip_only(before, after, dag)
    &&& forall|k: Seq<char>| #[trigger]
        before.contains_key(k) && after[k].status != before[k].status ==> descends_through_waiting(
            before,
            dag,
            t,
            node,
            before[k].dag_node_id,
        )
    &&& done ==> all_settled(after, dag, t.children(node))
    &&& done ==> forall|k: Seq<char>| #[trigger]
        before.contains_key(k) && after[k].status != before[k].status ==> all_settled(
            after,
            dag,
            t.children(after[k].dag_node_id),
        )
}

/// The status change that the node counts of `dag` in `m` decide.
pub open spec fn counted_action(m: Map<Seq<char>, DAGNodeExecutionView>, dag: Seq<char>) -> DagStatusAction {
    crate::dag::decide_dag_status(
        nodes_of(m, dag).len() as i32,
        nodes_in_status(m, dag, DAGNodeStatus::Completed).len() as i32,
        nodes_in_status(m, dag, DAGNodeStatus::Failed).len() as i32,
        nodes_in_status(m, dag, DAGNodeStatus::Running).len() as i32,
        nodes_in_status(m, dag, DAGNodeStatus::Pending).len() as i32,
        nodes_in_status(m, dag, DAGNodeStatus::Waiting).len() as i32,
        nodes_in_status(m, dag, DAGNodeStatus::Skipped).len() as i32,
    )
}

/// The executions after the status change `action` of `dag` has been made:
/// failed or completed when all nodes are done; running when nodes remain
/// and the execution was pending; otherwise as they were.
pub open spec fn checked_executions(
    ex: Map<Seq<char>, DAGExecutionView>,
    dag: Seq<char>,
    action: DagStatusAction,
) -> Map<Seq<char>, DAGExecutionView> {
    match action {
        DagStatusAction::MarkFailed => ex.insert(dag, DAGExecutionView { status: DAGStatus::Failed, ..ex[dag] }),
        DagStatusAction::MarkCompleted => ex.insert(dag, DAGExecutionView { status: DAGStatus::Completed, ..ex[dag] }),
        DagStatusAction::StartIfPending => if ex[dag].status == DAGStatus::Pending {
            ex.insert(dag, DAGExecutionView { status: DAGStatus::Running, ..ex[dag] })
        } else {
            ex
        },
        DagStatusAction::Nothing => ex,
    }
}

/// Whether the status change `action` needs the execution to exist.
pub open spec fn action_reads_execution(action: DagStatusAction) -> bool {
    action != DagStatusAction::Nothing
}

/// Like `skip_only`, but the node execution `except` may change in any way
/// that keeps its id, execution and node.
pub open spec fn skip_only_except(
    before: Map<Seq<char>, DAGNodeExecutionView>,
    after: Map<Seq<char>, DAGNodeExecutionView>,
    dag: Seq<char>,
    except: Seq<char>,
) -> bool {
    &&& after.dom() == before.dom()
    &&& forall|k: Seq<char>| #[trigger] before.contains_key(k) ==> same_node_execution(before[k], after[k])
    &&& forall|k: Seq<char>| #[trigger]
        before.contains_key(k) && k != except && after[k].status != before[k].status ==> waits(
            before[k].status,
        ) && after[k].status == DAGNodeStatus::Skipped && before[k].dag_execution_id == dag
}

/// The node `node` of the DAG execution `dag` has a ready node execution.
pub open spec fn ready_in(m: Map<Seq<char>, DAGNodeExecutionView>, dag: Seq<char>, node: Seq<char>) -> bool {
    exists|k: Seq<char>| #[trigger]
        m.contains_key(k) && m[k].dag_execution_id == dag && m[k].dag_node_id == node && m[k].status
            == DAGNodeStatus::Ready
}

/// From `before` to `after`, the node execution `done` may have become
/// completed or ready, and otherwise only node executions of `dag` for a
/// node of `nodes` became ready.
pub open spec fn ready_only(
    before: Map<Seq<char>, DAGNodeExecutionView>,
    after: Map<Seq<char>, DAGNodeExecutionView>,
    dag: Seq<char>,
    done: Seq<char>,
    nodes: Seq<Seq<char>>,
) -> bool {
    &&& after.dom() == before.dom()
    &&& forall|k: Seq<char>| #[trigger] before.contains_key(k) ==> same_node_execution(before[k], after[k])
    &&& forall|k: Seq<char>| #[trigger]
        before.contains_key(k) && k != done && after[k].status != before[k].status ==> after[k].status
            == DAGNodeStatus::Ready && before[k].dag_execution_id == dag && nodes.contains(
            before[k].dag_node_id,
        )
    &&& before.contains_key(done) && after[done].status != before[done].status ==> after[done].status
        == DAGNodeStatus::Completed || (after[done].status == DAGNodeStatus::Ready
        && before[done].dag_execution_id == dag && nodes.contains(before[done].dag_node_id))
}

/// From `before` to `after`, only the node execution `k`, of the DAG
/// execution `dag` and the node `node`, changed: it became ready.
pub open spec fn made_ready(
    before: Map<Seq<char>, DAGNodeExecutionView>,
    after: Map<Seq<char>, DAGNodeExecutionView>,
    dag: Seq<char>,
    node: Seq<char>,
    k: Seq<char>,
) -> bool {
    &&& before.contains_key(k)
    &&& before[k].dag_execution_id == dag
    &&& before[k].dag_node_id == node
    &&& only_key_changed(before, after, k)
    &&& after[k].status == DAGNodeStatus::Ready
    &&& same_node_execution(before[k], after[k])
}

// ---------------------------------------------------------------------------
// What the orchestrator hands to its stores
// ---------------------------------------------------------------------------

/// The job request that puts the job of the DAG node `node` in the queue,
/// with the given topic, inputs, priority and creator.
pub open spec fn node_request(
    node: DAGNodeView,
    topic: Seq<char>,
    inputs: Map<Seq<char>, JsonValue>,
    priority: i32,
    created_by: Seq<char>,
) -> JobRequestView {
    JobRequestView {
        topic,
        image_id: node.image_id,
        job_name: Some(node.node_name),
        command: node.command,
        args: node.args,
        environment_variables: node.environment_variables,
        resource_overrides: node.resource_overrides,
        priority: Some(priority),
        max_retries: Some(node.max_retries),
        labels: None,
        created_by,
        inputs: Some(inputs),
    }
}

/// The inputs of the node `node` from an execution payload and its
/// parent's outputs.
pub open spec fn node_inputs(
    node: DAGNodeView,
    payload: Map<Seq<char>, JsonValue>,
    parent: Option<Map<Seq<char>, JsonValue>>,
) -> Map<Seq<char>, JsonValue> {
    resolved_inputs(node.input_mapping, payload, parent)
}

/// What a node execution records when it becomes ready with a job.
pub open spec fn ready_data(job_id: Seq<char>, topic: Seq<char>, inputs: Map<Seq<char>, JsonValue>) -> NodeUpdateView {
    NodeUpdateView {
        outputs: None,
        error_message: None,
        job_id: Some(job_id),
        job_topic: Some(topic),
        inputs: Some(inputs),
    }
}

/// What a node execution records when its job completed.
pub open spec fn completed_data(outputs: Option<Map<Seq<char>, JsonValue>>) -> NodeUpdateView {
    NodeUpdateView { outputs, error_message: None, job_id: None, job_topic: None, inputs: None }
}

/// What a node execution records when its job failed with `message`.
pub open spec fn failed_data(message: Seq<char>) -> NodeUpdateView {
    NodeUpdateView { outputs: None, error_message: Some(message), job_id: None, job_topic: None, inputs: None }
}

/// What a node execution records when a failed parent skips it.
pub open spec fn skipped_data() -> NodeUpdateView {
    NodeUpdateView {
        outputs: None,
        error_message: Some("Parent node failed"@),
        job_id: None,
        job_topic: None,
        inputs: None,
    }
}

/// The error message of a DAG execution whose job `job` failed with
/// `message`: `"Node <job name, or id> failed: <message>"`.
pub open spec fn failure_text(job: QueuedJob, message: Seq<char>) -> Seq<char> {
    "Node "@ + (match job.job_name {
        Some(n) => n@,
        None => job.id@,
    }) + " failed: "@ + message
}

/// The status changes of the DAG execution `dag` that the status update
/// `action` makes, given the executions `ex` and the number of failed
/// nodes.
pub open spec fn status_writes(
    ex: Map<Seq<char>, DAGExecutionView>,
    dag: Seq<char>,
    action: DagStatusAction,
    failed: i32,
) -> Seq<ExecutionStatusWrite> {
    match action {
        DagStatusAction::MarkFailed => seq![
            ExecutionStatusWrite {
                id: dag,
                status: DAGStatus::Failed,
                error_message: Some(int_decimal(failed as int) + " node(s) failed"@),
            },
        ],
        DagStatusAction::MarkCompleted => seq![
            ExecutionStatusWrite { id: dag, status: DAGStatus::Completed, error_message: None },
        ],
        DagStatusAction::StartIfPending => if ex[dag].status == DAGStatus::Pending {
            seq![ExecutionStatusWrite { id: dag, status: DAGStatus::Running, error_message: None }]
        } else {
            Seq::empty()
        },
        DagStatusAction::Nothing => Seq::empty(),
    }
}

/// From `a` to `b`, the only status changes written were skips by a
/// failed parent.
pub open spec fn skips_written(a: Seq<NodeStatusWrite>, b: Seq<NodeStatusWrite>) -> bool {
    &&& a.len() <= b.len()
    &&& b.subrange(0, a.len() as int) == a
    &&& forall|j: int|
        a.len() <= j < b.len() ==> (#[trigger] b[j]).status == DAGNodeStatus::Skipped && b[j].data == Some(
            skipped_data(),
        )
}

proof fn lemma_skips_written_refl(a: Seq<NodeStatusWrite>)
    ensures
        skips_written(a, a),
{
    assert(a.subrange(0, a.len() as int) =~= a);
}

proof fn lemma_skips_written_trans(a: Seq<NodeStatusWrite>, b: Seq<NodeStatusWrite>, c: Seq<NodeStatusWrite>)
    requires
        skips_written(a, b),
        skips_written(b, c),
    ensures
        skips_written(a, c),
{
    assert(c.subrange(0, a.len() as int) =~= b.subrange(0, a.len() as int));
    assert forall|j: int| a.len() <= j < c.len() implies (#[trigger] c[j]).status == DAGNodeStatus::Skipped
        && c[j].data == Some(skipped_data()) by {
        if j < b.len() {
            assert(c[j] == c.subrange(0, b.len() as int)[j]);
            assert(c[j] == b[j]);
        }
    }
}

/// The number of failed node executions of `dag`.
pub open spec fn failed_count(m: Map<Seq<char>, DAGNodeExecutionView>, dag: Seq<char>) -> i32 {
    nodes_in_status(m, dag, DAGNodeStatus::Failed).len() as i32
}

/// The node status write `w` and the queue entry `q` are those of the job
/// made for the node `node` of `dag` in `m`: the queue was handed `request`,
/// and a node execution of that node in `m` became ready with the id the
/// queue gave, the topic and the inputs.
pub open spec fn child_job_made(
    m: Map<Seq<char>, DAGNodeExecutionView>,
    w: NodeStatusWrite,
    q: (Seq<char>, JobRequestView),
    dag: Seq<char>,
    node: Seq<char>,
    request: JobRequestView,
    topic: Seq<char>,
    inputs: Map<Seq<char>, JsonValue>,
) -> bool {
    &&& q.1 == request
    &&& w.status == DAGNodeStatus::Ready
    &&& w.data == Some(ready_data(q.0, topic, inputs))
    &&& m.contains_key(w.id)
    &&& m[w.id].dag_execution_id == dag
    &&& m[w.id].dag_node_id == node
}

/// From `(nw0, jobs0)` to `(nw1, jobs1)`, one job was put in the queue for
/// `request`, and one node execution of the node `node` of `dag` in `m`
/// became ready with that job, the topic and the inputs.
pub open spec fn made_job(
    m: Map<Seq<char>, DAGNodeExecutionView>,
    nw0: Seq<NodeStatusWrite>,
    nw1: Seq<NodeStatusWrite>,
    jobs0: Seq<(Seq<char>, JobRequestView)>,
    jobs1: Seq<(Seq<char>, JobRequestView)>,
    dag: Seq<char>,
    node: Seq<char>,
    request: JobRequestView,
    topic: Seq<char>,
    inputs: Map<Seq<char>, JsonValue>,
) -> bool {
    &&& jobs1.len() == jobs0.len() + 1
    &&& jobs1 == jobs0.push(jobs1.last())
    &&& nw1.len() == nw0.len() + 1
    &&& nw1 == nw0.push(nw1.last())
    &&& child_job_made(m, nw1.last(), jobs1.last(), dag, node, request, topic, inputs)
}

/// From `(nw0, q0)` to `(nw1, q1)`, one job was put in the queue for each of
/// the first `count` nodes of `cs`, in order, and a node execution of that
/// node of `dag` in `m` became ready with it. Each request is the node's
/// (`nodes`), with the topic, priority and creator of the DAG execution `e`
/// and the inputs resolved from `e`'s payload and the parent's outputs
/// `parent`.
pub open spec fn children_jobs_made(
    m: Map<Seq<char>, DAGNodeExecutionView>,
    nodes: Map<Seq<char>, DAGNodeView>,
    nw0: Seq<NodeStatusWrite>,
    nw1: Seq<NodeStatusWrite>,
    q0: Seq<(Seq<char>, JobRequestView)>,
    q1: Seq<(Seq<char>, JobRequestView)>,
    dag: Seq<char>,
    cs: Seq<Seq<char>>,
    e: DAGExecutionView,
    parent: Option<Map<Seq<char>, JsonValue>>,
    count: int,
) -> bool {
    &&& nw1.len() == nw0.len() + count
    &&& nw1.subrange(0, nw0.len() as int) == nw0
    &&& q1.len() == q0.len() + count
    &&& q1.subrange(0, q0.len() as int) == q0
    &&& forall|j: int|
        0 <= j < count ==> child_job_made(
            m,
            nw1[nw0.len() + j],
            q1[q0.len() + j],
            dag,
            #[trigger] cs[j],
            node_request(
                nodes[cs[j]],
                e.topic,
                node_inputs(nodes[cs[j]], e.execution_payload, parent),
                e.priority,
                e.created_by,
            ),
            e.topic,
            node_inputs(nodes[cs[j]], e.execution_payload, parent),
        )
}

proof fn lemma_has_execution_stays(
    a: Map<Seq<char>, DAGNodeExecutionView>,
    b: Map<Seq<char>, DAGNodeExecutionView>,
    dag: Seq<char>,
    node: Seq<char>,
)
    requires
        b.dom() == a.dom(),
        forall|k: Seq<char>| #[trigger] a.contains_key(k) ==> same_node_execution(a[k], b[k]),
        has_execution(a, dag, node),
    ensures
        has_execution(b, dag, node),
{
    let k = choose|k: Seq<char>| #[trigger] a.contains_key(k) && a[k].dag_execution_id == dag && a[k].dag_node_id == node;
    assert(b.contains_key(k));
}

proof fn lemma_child_job_made_back(
    a: Map<Seq<char>, DAGNodeExecutionView>,
    b: Map<Seq<char>, DAGNodeExecutionView>,
    w: NodeStatusWrite,
    q: (Seq<char>, JobRequestView),
    dag: Seq<char>,
    node: Seq<char>,
    request: JobRequestView,
    topic: Seq<char>,
    inputs: Map<Seq<char>, JsonValue>,
)
    requires
        b.dom() == a.dom(),
        forall|k: Seq<char>| #[trigger] a.contains_key(k) ==> same_node_execution(a[k], b[k]),
        child_job_made(b, w, q, dag, node, request, topic, inputs),
    ensures
        child_job_made(a, w, q, dag, node, request, topic, inputs),
{
    assert(a.contains_key(w.id));
}

/// The job request that puts the job of a DAG node in the queue.
pub fn child_job_request(
    node: &DAGNode,
    topic: &str,
    inputs: JobInputs,
    priority: i32,
    created_by: &str,
) -> (r: JobRequest)
    ensures
        r.topic@ == topic@,
        r.image_id@ == node.image_id@,
        opt_str_view(r.job_name) == Some(node.node_name@),
        opt_str_vec_view(r.command) == node@.command,
        opt_str_vec_view(r.args) == node@.args,
        opt_map_view(r.environment_variables) == node@.environment_variables,
        r.resource_overrides == node.resource_overrides,
        r.priority == Some(priority),
        r.max_retries == Some(node.max_retries),
        r.labels is None,
        r.created_by@ == created_by@,
        opt_map_view(r.inputs) == Some(inputs@),
        r@ == node_request(node@, topic@, inputs@, priority, created_by@),
{
    JobRequest {
        topic: owned(topic),
        image_id: node.image_id.clone(),
        job_name: Some(node.node_name.clone()),
        command: dup_opt_str_vec(&node.command),
        args: dup_opt_str_vec(&node.args),
        environment_variables: dup_opt_map(&node.environment_variables),
        resource_overrides: node.resource_overrides.duplicate(),
        priority: Some(priority),
        max_retries: Some(node.max_retries),
        labels: None,
        created_by: owned(created_by),
        inputs: Some(inputs),
    }
}

/// A message recorded on a node execution that a failed parent skipped.
fn parent_failed_update() -> (u: NodeExecutionUpdate)
    ensures
        u.error_message matches Some(m) && m@ == "Parent node failed"@,
        u.outputs is None,
        u.job_id is None,
        u.job_topic is None,
        u.inputs is None,
{
    NodeExecutionUpdate {
        outputs: None,
        error_message: Some(owned("Parent node failed")),
        job_id: None,
        job_topic: None,
        inputs: None,
    }
}

/// The orchestrator of DAG executions, over its three stores.
pub struct DAGOrchestrator<E, T, J> {
    pub dag_execution_repo: E,
    pub dag_template_repo: T,
    pub job_repo: J,
}

impl<E: DAGExecutionRepository, T: DAGTemplateRepository, J: JobQueueRepository> DAGOrchestrator<E, T, J> {
    pub fn new(dag_execution_repo: E, dag_template_repo: T, job_repo: J) -> (o: Self)
        ensures
            o.dag_execution_repo == dag_execution_repo,
            o.dag_template_repo == dag_template_repo,
            o.job_repo == job_repo,
    {
        DAGOrchestrator { dag_execution_repo, dag_template_repo, job_repo }
    }

    /// Whether a job is part of a DAG execution.
    pub fn is_dag_job(&self, job: &QueuedJob) -> (b: bool)
        ensures
            b == job.dag_execution_id.is_some(),
    {
        is_dag_job(job)
    }

    /// Skips the descendants of `node_id` in the DAG execution
    /// `dag_execution_id` that still wait: each child whose node execution
    /// is pending or waiting becomes skipped, and so in turn do its own
    /// waiting children. Children that already ran, run or are ready keep
    /// their status, and their descendants are left alone.
    pub fn mark_descendants_as_skipped(&mut self, dag_execution_id: &str, node_id: &str) -> (r: Result<
        (),
        String,
    >)
        requires
            old(self).dag_execution_repo.answers() && old(self).dag_template_repo.answers()
                ==> old(self).dag_execution_repo.node_executions().dom().finite()
                && old(self).dag_execution_repo.node_executions().dom().len() < usize::MAX,
        ensures
            final(self).dag_template_repo == old(self).dag_template_repo,
            final(self).job_repo == old(self).job_repo,
            final(self).dag_execution_repo.answers() == old(self).dag_execution_repo.answers(),
            old(self).dag_execution_repo.answers() ==> final(self).dag_execution_repo.execution_writes() == old(
                self,
            ).dag_execution_repo.execution_writes(),
            old(self).dag_execution_repo.answers() ==> skips_written(
                old(self).dag_execution_repo.node_writes(),
                final(self).dag_execution_repo.node_writes(),
            ),
            old(self).dag_execution_repo.answers() && old(self).dag_template_repo.answers()
                && children_have_executions(
                old(self).dag_execution_repo.node_executions(),
                dag_execution_id@,
                old(self).dag_template_repo,
            ) ==> r is Ok,
            old(self).dag_execution_repo.answers() && old(self).dag_template_repo.answers() ==> skipped_descendants(
                old(self).dag_execution_repo.node_executions(),
                final(self).dag_execution_repo.node_executions(),
                dag_execution_id@,
                node_id@,
                old(self).dag_template_repo,
                r is Ok,
            ),
            old(self).dag_execution_repo.answers() && old(self).dag_template_repo.answers()
                ==> final(self).dag_execution_repo.executions() == old(self).dag_execution_repo.executions(),
    {
        proof {
            let m = self.dag_execution_repo.node_executions();
            if self.dag_execution_repo.answers() && self.dag_template_repo.answers() {
                lemma_len_subset(waiting_ids(m), m.dom());
            }
        }
        self.skip_waiting_descendants(dag_execution_id, node_id, usize::MAX)
    }

    /// `mark_descendants_as_skipped`, going at most `depth` children deep.
    /// The bound makes the recursion end whatever a store kept outside the
    /// program answers. Each level skips one more waiting node execution, so
    /// with stores that answer, which hold fewer of them than `depth`, the
    /// bound is never reached; `mark_descendants_as_skipped` starts it at
    /// `usize::MAX`.
    fn skip_waiting_descendants(&mut self, dag_execution_id: &str, node_id: &str, depth: usize) -> (r: Result<
        (),
        String,
    >)
        requires
            old(self).dag_execution_repo.answers() && old(self).dag_template_repo.answers()
                ==> old(self).dag_execution_repo.node_executions().dom().finite(),
            old(self).dag_execution_repo.answers() && old(self).dag_template_repo.answers() ==> waiting_ids(
                old(self).dag_execution_repo.node_executions(),
            ).len() < depth,
        ensures
            final(self).dag_template_repo == old(self).dag_template_repo,
            final(self).job_repo == old(self).job_repo,
            final(self).dag_execution_repo.answers() == old(self).dag_execution_repo.answers(),
            old(self).dag_execution_repo.answers() ==> final(self).dag_execution_repo.execution_writes() == old(
                self,
            ).dag_execution_repo.execution_writes(),
            old(self).dag_execution_repo.answers() ==> skips_written(
                old(self).dag_execution_repo.node_writes(),
                final(self).dag_execution_repo.node_writes(),
            ),
            old(self).dag_execution_repo.answers() && old(self).dag_template_repo.answers()
                && children_have_executions(
                old(self).dag_execution_repo.node_executions(),
                dag_execution_id@,
                old(self).dag_template_repo,
            ) ==> r is Ok,
            old(self).dag_execution_repo.answers() && old(self).dag_template_repo.answers() ==> skipped_descendants(
                old(self).dag_execution_repo.node_executions(),
                final(self).dag_execution_repo.node_executions(),
                dag_execution_id@,
                node_id@,
                old(self).dag_template_repo,
                r is Ok,
            ),
            old(self).dag_execution_repo.answers() && old(self).dag_template_repo.answers()
                ==> final(self).dag_execution_repo.executions() == old(self).dag_execution_repo.executions(),
        decreases depth,
    {
        if depth == 0 {
            proof {
                lemma_skips_written_refl(self.dag_execution_repo.node_writes());
            }
            return Ok(());
        }
        let ghost start = self.dag_execution_repo.node_executions();
        let ghost dag = dag_execution_id@;
        let ghost children = self.dag_template_repo.children(node_id@);
        let ghost fa = old(self).dag_execution_repo.answers() && old(self).dag_template_repo.answers();
        proof {
            lemma_skips_written_refl(self.dag_execution_repo.node_writes());
        }
        let child_nodes = match self.dag_template_repo.get_child_nodes(node_id) {
            Ok(v) => v,
            Err(e) => {
                return Err(e);
            },
        };
        let n = child_nodes.len();
        let mut i: usize = 0;
        while i < n
            invariant
                n == child_nodes.len(),
                fa == (old(self).dag_execution_repo.answers() && old(self).dag_template_repo.answers()),
                fa ==> n == children.len(),
                i <= n,
                0 < depth,
                children == self.dag_template_repo.children(node_id@),
                fa ==> forall|j: int| 0 <= j < n ==> (#[trigger] child_nodes[j]).id@ == children[j],
                fa ==> start.dom().finite(),
                fa ==> self.dag_execution_repo.node_executions().dom().finite(),
                fa ==> waiting_ids(start).len() < depth,
                dag == dag_execution_id@,
                fa ==> skip_only(start, self.dag_execution_repo.node_executions(), dag),
                fa ==> self.dag_execution_repo.executions() == old(self).dag_execution_repo.executions(),
                self.dag_template_repo == old(self).dag_template_repo,
                self.job_repo == old(self).job_repo,
                self.dag_execution_repo.answers() == old(self).dag_execution_repo.answers(),
                old(self).dag_execution_repo.answers() ==> self.dag_execution_repo.execution_writes() == old(
                    self,
                ).dag_execution_repo.execution_writes(),
                old(self).dag_execution_repo.answers() ==> skips_written(
                    old(self).dag_execution_repo.node_writes(),
                    self.dag_execution_repo.node_writes(),
                ),
                start == old(self).dag_execution_repo.node_executions(),
                fa ==> forall|j: int| 0 <= j < i ==> settled(self.dag_execution_repo.node_executions(), dag, #[trigger] children[j]),
                fa ==> forall|k: Seq<char>| #[trigger]
                    start.contains_key(k) && self.dag_execution_repo.node_executions()[k].status != start[k].status
                        ==> descends_through_waiting(start, dag, self.dag_template_repo, node_id@, start[k].dag_node_id),
                fa ==> forall|k: Seq<char>| #[trigger]
                    start.contains_key(k) && self.dag_execution_repo.node_executions()[k].status
                        != start[k].status ==> all_settled(
                        self.dag_execution_repo.node_executions(),
                        dag,
                        self.dag_template_repo.children(self.dag_execution_repo.node_executions()[k].dag_node_id),
                    ),
            decreases n - i,
        {
            let ghost before = self.dag_execution_repo.node_executions();
            let ghost owed = self.dag_execution_repo.answers() && self.dag_template_repo.answers()
                && children_have_executions(start, dag, self.dag_template_repo);
            proof {
                if fa {
                    lemma_waiting_shrinks(start, before, dag);
                }
                if owed {
                    lemma_children_have_executions_stay(start, before, dag, self.dag_template_repo);
                    assert(has_execution(before, dag, self.dag_template_repo.children(node_id@)[i as int]));
                }
            }
            let child_id = child_nodes[i].id.as_str();
            let node_execution = match self.dag_execution_repo.get_node_execution_by_dag_and_node(
                dag_execution_id,
                child_id,
            ) {
                Ok(ne) => ne,
                Err(e) => {
                    return Err(e);
                },
            };
            let ghost key = node_execution.id@;
            if node_execution.status == DAGNodeStatus::Pending || node_execution.status == DAGNodeStatus::Waiting {
                let ghost nw_before = self.dag_execution_repo.node_writes();
                let skip_data = parent_failed_update();
                assert(node_update_view(Some(skip_data)) == Some(skipped_data()));
                match self.dag_execution_repo.update_node_execution_status(
                    node_execution.id.as_str(),
                    DAGNodeStatus::Skipped,
                    Some(skip_data),
                ) {
                    Ok(()) => {},
                    Err(e) => {
                        return Err(e);
                    },
                }
                let ghost mid = self.dag_execution_repo.node_executions();
                let ghost nw_mid = self.dag_execution_repo.node_writes();
                proof {
                    if old(self).dag_execution_repo.answers() {
                        assert(nw_mid.subrange(0, nw_before.len() as int) =~= nw_before);
                        assert(skips_written(nw_before, nw_mid));
                        lemma_skips_written_trans(old(self).dag_execution_repo.node_writes(), nw_before, nw_mid);
                    }
                    if fa {
                        assert(skip_only(before, mid, dag));
                        if owed {
                            lemma_children_have_executions_stay(before, mid, dag, self.dag_template_repo);
                        }
                        lemma_skip_only_trans(start, before, mid, dag);
                        lemma_waiting_drops(start, mid, dag, key);
                        assert(children.contains(children[i as int]));
                        lemma_through_waiting_child(start, dag, self.dag_template_repo, node_id@, children[i as int]);
                        lemma_skip_only_keeps_waiting(start, before, dag);
                        assert(before.contains_key(key) && waits(before[key].status));
                        assert(start.contains_key(key));
                        assert(waits_in(start, dag, children[i as int]));
                        assert forall|k: Seq<char>| #[trigger]
                            start.contains_key(k) && mid[k].status != start[k].status implies descends_through_waiting(
                            start,
                            dag,
                            self.dag_template_repo,
                            node_id@,
                            start[k].dag_node_id,
                        ) by {
                            if k != key {
                                assert(mid[k] == before[k]);
                            } else {
                                assert(start[k].dag_node_id == before[k].dag_node_id);
                            }
                        }
                        assert forall|j: int| 0 <= j < i implies settled(mid, dag, #[trigger] children[j]) by {
                            lemma_settled_stays(before, mid, dag, dag, children[j]);
                        }
                        assert forall|k: Seq<char>| #[trigger]
                            start.contains_key(k) && k != key && mid[k].status != start[k].status implies all_settled(
                            mid,
                            dag,
                            self.dag_template_repo.children(mid[k].dag_node_id),
                        ) by {
                            assert(before[k] == mid[k]);
                            lemma_all_settled_stays(before, mid, dag, dag, self.dag_template_repo.children(mid[k].dag_node_id));
                        }
                        assert(mid.dom().finite());
                    }
                }
                match self.skip_waiting_descendants(dag_execution_id, child_id, depth - 1) {
                    Ok(()) => {},
                    Err(e) => {
                        proof {
                            let fin = self.dag_execution_repo.node_executions();
                            if fa {
                                lemma_skip_only_trans(start, mid, fin, dag);
                                lemma_skip_only_keeps_waiting(start, mid, dag);
                                assert forall|k: Seq<char>| #[trigger]
                                    start.contains_key(k) && fin[k].status != start[k].status implies descends_through_waiting(
                                    start,
                                    dag,
                                    self.dag_template_repo,
                                    node_id@,
                                    start[k].dag_node_id,
                                ) by {
                                    assert(mid.contains_key(k));
                                    if mid[k].status == start[k].status {
                                        lemma_through_waiting_back(
                                            start,
                                            mid,
                                            dag,
                                            self.dag_template_repo,
                                            children[i as int],
                                            mid[k].dag_node_id,
                                        );
                                        lemma_through_waiting_extend(
                                            start,
                                            dag,
                                            self.dag_template_repo,
                                            node_id@,
                                            children[i as int],
                                            mid[k].dag_node_id,
                                        );
                                    }
                                }
                            }
                            if old(self).dag_execution_repo.answers() {
                                lemma_skips_written_trans(
                                    old(self).dag_execution_repo.node_writes(),
                                    nw_mid,
                                    self.dag_execution_repo.node_writes(),
                                );
                            }
                        }
                        return Err(e);
                    },
                }
                let ghost fin = self.dag_execution_repo.node_executions();
                proof {
                    if old(self).dag_execution_repo.answers() {
                        lemma_skips_written_trans(
                            old(self).dag_execution_repo.node_writes(),
                            nw_mid,
                            self.dag_execution_repo.node_writes(),
                        );
                    }
                    if fa {
                        lemma_skip_only_trans(start, mid, fin, dag);
                        lemma_skip_only_keeps_waiting(start, mid, dag);
                        assert forall|k: Seq<char>| #[trigger]
                            start.contains_key(k) && fin[k].status != start[k].status implies descends_through_waiting(
                            start,
                            dag,
                            self.dag_template_repo,
                            node_id@,
                            start[k].dag_node_id,
                        ) by {
                            assert(mid.contains_key(k));
                            if mid[k].status == start[k].status {
                                assert(fin[k].status != mid[k].status);
                                lemma_through_waiting_back(
                                    start,
                                    mid,
                                    dag,
                                    self.dag_template_repo,
                                    children[i as int],
                                    mid[k].dag_node_id,
                                );
                                lemma_through_waiting_extend(
                                    start,
                                    dag,
                                    self.dag_template_repo,
                                    node_id@,
                                    children[i as int],
                                    mid[k].dag_node_id,
                                );
                            }
                        }
                        assert(mid[key].status == DAGNodeStatus::Skipped);
                        assert(same_node_execution(mid[key], fin[key]));
                        assert(fin[key].status == DAGNodeStatus::Skipped);
                        assert(settled(fin, dag, children[i as int]));
                        assert forall|j: int| 0 <= j < i + 1 implies settled(fin, dag, #[trigger] children[j]) by {
                            if j < i {
                                lemma_settled_stays(mid, fin, dag, dag, children[j]);
                            }
                        }
                        assert forall|k: Seq<char>| #[trigger]
                            start.contains_key(k) && fin[k].status != start[k].status implies all_settled(
                            fin,
                            dag,
                            self.dag_template_repo.children(fin[k].dag_node_id),
                        ) by {
                            assert(same_node_execution(mid[k], fin[k]));
                            if k == key {
                                assert(fin[k].dag_node_id == children[i as int]);
                            } else if mid[k].status != start[k].status {
                                lemma_all_settled_stays(mid, fin, dag, dag, self.dag_template_repo.children(mid[k].dag_node_id));
                            } else {
                                assert(mid.contains_key(k));
                            }
                        }
                    }
                }
            } else {
                proof {
                    if fa {
                        assert(before.contains_key(key));
                        assert(settled(before, dag, children[i as int]));
                    }
                }
            }
            i = i + 1;
        }
        Ok(())
    }

    /// Updates the status of a DAG execution from the statistics of its
    /// nodes: failed (with `"<n> node(s) failed"`) or completed once every
    /// node is completed, failed or skipped; running, if it was pending,
    /// while nodes still run, wait or are pending.
    pub fn check_and_update_dag_status(&mut self, dag_execution_id: &str) -> (r: Result<(), String>)
        ensures
            old(self).dag_execution_repo.answers() ==> final(self).dag_execution_repo.node_executions() == old(
                self,
            ).dag_execution_repo.node_executions(),
            final(self).dag_template_repo == old(self).dag_template_repo,
            final(self).job_repo == old(self).job_repo,
            old(self).dag_execution_repo.answers() && r is Err ==> final(self).dag_execution_repo.executions() == old(
                self,
            ).dag_execution_repo.executions(),
            final(self).dag_execution_repo.answers() == old(self).dag_execution_repo.answers(),
            old(self).dag_execution_repo.answers() ==> (r is Ok <==> (action_reads_execution(
                counted_action(old(self).dag_execution_repo.node_executions(), dag_execution_id@),
            ) ==> old(self).dag_execution_repo.executions().contains_key(dag_execution_id@))),
            old(self).dag_execution_repo.answers() ==> final(self).dag_execution_repo.node_writes() == old(
                self,
            ).dag_execution_repo.node_writes(),
            old(self).dag_execution_repo.answers() ==> final(self).dag_execution_repo.execution_writes() == (if r is Ok {
                old(self).dag_execution_repo.execution_writes() + status_writes(
                    old(self).dag_execution_repo.executions(),
                    dag_execution_id@,
                    counted_action(old(self).dag_execution_repo.node_executions(), dag_execution_id@),
                    failed_count(old(self).dag_execution_repo.node_executions(), dag_execution_id@),
                )
            } else {
                old(self).dag_execution_repo.execution_writes()
            }),
            old(self).dag_execution_repo.answers() && r is Ok ==> final(self).dag_execution_repo.executions()
                == checked_executions(
                old(self).dag_execution_repo.executions(),
                dag_execution_id@,
                counted_action(old(self).dag_execution_repo.node_executions(), dag_execution_id@),
            ),
    {
        let ghost ne = self.dag_execution_repo.node_executions();
        let ghost ex = self.dag_execution_repo.executions();
        let ghost dag = dag_execution_id@;
        let stats = match self.dag_execution_repo.get_execution_stats(dag_execution_id) {
            Ok(s) => s,
            Err(e) => {
                return Err(e);
            },
        };
        let action = dag_status_action(&stats);
        assert(old(self).dag_execution_repo.answers() ==> action == counted_action(ne, dag));
        match action {
            DagStatusAction::MarkFailed => {
                let message = failed_nodes_message(stats.failed_nodes);
                match self.dag_execution_repo.update_execution_status(
                    dag_execution_id,
                    DAGStatus::Failed,
                    Some(message.as_str()),
                ) {
                    Ok(()) => {},
                    Err(e) => {
                        return Err(e);
                    },
                }
            },
            DagStatusAction::MarkCompleted => {
                match self.dag_execution_repo.update_execution_status(
                    dag_execution_id,
                    DAGStatus::Completed,
                    None,
                ) {
                    Ok(()) => {},
                    Err(e) => {
                        return Err(e);
                    },
                }
            },
            DagStatusAction::StartIfPending => {
                let execution = match self.dag_execution_repo.get_execution(dag_execution_id, false) {
                    Ok(e) => e,
                    Err(e) => {
                        return Err(e);
                    },
                };
                if execution.status == DAGStatus::Pending {
                    match self.dag_execution_repo.update_execution_status(
                        dag_execution_id,
                        DAGStatus::Running,
                        None,
                    ) {
                        Ok(()) => {},
                        Err(e) => {
                            return Err(e);
                        },
                    }
                }
            },
            DagStatusAction::Nothing => {},
        }
        Ok(())
    }

    /// Records the failure of a DAG job: its node execution fails (with the
    /// error), the DAG execution fails (with `"Node <name> failed:
    /// <error>"`), and the waiting descendants of its node are skipped. A job
    /// without DAG context changes nothing.
    pub fn handle_job_failure(&mut self, job: &QueuedJob, error_message: &str) -> (r: Result<(), String>)
        requires
            old(self).dag_execution_repo.answers() && old(self).dag_template_repo.answers()
                ==> old(self).dag_execution_repo.node_executions().dom().finite()
                && old(self).dag_execution_repo.node_executions().dom().len() < usize::MAX,
        ensures
            final(self).dag_template_repo == old(self).dag_template_repo,
            final(self).job_repo == old(self).job_repo,
            job.dag_execution_id is None || job.dag_node_execution_id is None ==> r is Ok
                && final(self).dag_execution_repo == old(self).dag_execution_repo,
            (job.dag_execution_id is Some && job.dag_node_execution_id is Some) ==> {
                let dag = job.dag_execution_id->0;
                let nid = job.dag_node_execution_id->0;
                let before = old(self).dag_execution_repo.node_executions();
                let after = final(self).dag_execution_repo.node_executions();
                let ex = old(self).dag_execution_repo.executions();
                let failed_ex = ex.insert(dag@, DAGExecutionView { status: DAGStatus::Failed, ..ex[dag@] });
                &&& (old(self).dag_execution_repo.answers() && old(self).dag_template_repo.answers() ==> {
                &&& skip_only_except(before, after, dag@, nid@)
                &&& forall|k: Seq<char>| #[trigger] before.contains_key(k) && k != nid@ && after[k].status != before[k].status
                    ==> descends_through_waiting(
                    before,
                    dag@,
                    old(self).dag_template_repo,
                    before[nid@].dag_node_id,
                    before[k].dag_node_id,
                )
                &&& (before.contains_key(nid@) && after[nid@].status != before[nid@].status ==> after[nid@].status == DAGNodeStatus::Failed)
                &&& (final(self).dag_execution_repo.executions() == ex || final(self).dag_execution_repo.executions() == failed_ex)
                &&& (r is Ok ==> {
                    &&& before.contains_key(nid@)
                    &&& after[nid@].status == DAGNodeStatus::Failed
                    &&& ex.contains_key(dag@)
                    &&& final(self).dag_execution_repo.executions() == failed_ex
                    &&& all_settled(after, dag@, old(self).dag_template_repo.children(before[nid@].dag_node_id))
                    &&& forall|k: Seq<char>| #[trigger] before.contains_key(k) && k != nid@ && after[k].status != before[k].status
                        ==> all_settled(after, dag@, old(self).dag_template_repo.children(after[k].dag_node_id))
                })
                })
                &&& (old(self).dag_execution_repo.answers() && old(self).dag_template_repo.answers()
                    && before.contains_key(nid@) && ex.contains_key(dag@)
                    && children_have_executions(before, dag@, old(self).dag_template_repo) ==> r is Ok)
                &&& (old(self).dag_execution_repo.answers() && r is Ok ==> {
                    &&& final(self).dag_execution_repo.execution_writes() == old(self).dag_execution_repo.execution_writes().push(
                        ExecutionStatusWrite {
                            id: dag@,
                            status: DAGStatus::Failed,
                            error_message: Some(failure_text(*job, error_message@)),
                        },
                    )
                    &&& skips_written(
                        old(self).dag_execution_repo.node_writes().push(
                            NodeStatusWrite { id: nid@, status: DAGNodeStatus::Failed, data: Some(failed_data(error_message@)) },
                        ),
                        final(self).dag_execution_repo.node_writes(),
                    )
                })
            },
    {
        let dag_execution_id = match &job.dag_execution_id {
            Some(id) => id.as_str(),
            None => {
                return Ok(());
            },
        };
        let dag_node_execution_id = match &job.dag_node_execution_id {
            Some(id) => id.as_str(),
            None => {
                return Ok(());
            },
        };
        let ghost before = self.dag_execution_repo.node_executions();
        let ghost dag = dag_execution_id@;
        let ghost nid = dag_node_execution_id@;
        let ghost ex = self.dag_execution_repo.executions();
        let ghost fa = self.dag_execution_repo.answers() && self.dag_template_repo.answers();
        match self.dag_execution_repo.update_node_execution_status(
            dag_node_execution_id,
            DAGNodeStatus::Failed,
            Some(
                NodeExecutionUpdate {
                    outputs: None,
                    error_message: Some(owned(error_message)),
                    job_id: None,
                    job_topic: None,
                    inputs: None,
                },
            ),
        ) {
            Ok(()) => {},
            Err(e) => {
                return Err(e);
            },
        }
        let ghost mid = self.dag_execution_repo.node_executions();
        let ghost owed = old(self).dag_execution_repo.answers() && self.dag_template_repo.answers()
            && children_have_executions(before, dag, self.dag_template_repo);
        proof {
            if owed {
                lemma_children_have_executions_stay(before, mid, dag, self.dag_template_repo);
            }
        }
        let message = node_failure_message(job, error_message);
        match self.dag_execution_repo.update_execution_status(
            dag_execution_id,
            DAGStatus::Failed,
            Some(message.as_str()),
        ) {
            Ok(()) => {},
            Err(e) => {
                return Err(e);
            },
        }
        let node_execution = match self.dag_execution_repo.get_node_execution(dag_node_execution_id) {
            Ok(ne) => ne,
            Err(e) => {
                return Err(e);
            },
        };
        assert(fa ==> node_execution.dag_node_id@ == before[nid].dag_node_id);
        let result = self.mark_descendants_as_skipped(dag_execution_id, node_execution.dag_node_id.as_str());
        let ghost after = self.dag_execution_repo.node_executions();
        proof {
            if fa {
                assert(mid[nid].status == DAGNodeStatus::Failed);
                assert(!waits(mid[nid].status));
                assert(same_node_execution(mid[nid], after[nid]));
                assert forall|k: Seq<char>| #[trigger] before.contains_key(k) implies same_node_execution(before[k], after[k]) by {
                    assert(mid.contains_key(k));
                }
                assert forall|k: Seq<char>| #[trigger]
                    before.contains_key(k) && k != nid && after[k].status != before[k].status implies waits(before[k].status)
                        && after[k].status == DAGNodeStatus::Skipped && before[k].dag_execution_id == dag by {
                    assert(mid[k] == before[k]);
                }
                assert(waiting_kept(before, mid)) by {
                    assert forall|k: Seq<char>| #[trigger] mid.contains_key(k) && waits(mid[k].status) implies before.contains_key(k)
                        && before[k].dag_execution_id == mid[k].dag_execution_id && before[k].dag_node_id == mid[k].dag_node_id
                        && waits(before[k].status) by {
                        if k != nid {
                            assert(mid[k] == before[k]);
                        }
                    }
                }
                assert forall|k: Seq<char>| #[trigger]
                    before.contains_key(k) && k != nid && after[k].status != before[k].status implies descends_through_waiting(
                    before,
                    dag,
                    self.dag_template_repo,
                    before[nid].dag_node_id,
                    before[k].dag_node_id,
                ) by {
                    assert(mid[k] == before[k]);
                    assert(mid.contains_key(k));
                    lemma_through_waiting_back(before, mid, dag, self.dag_template_repo, before[nid].dag_node_id, mid[k].dag_node_id);
                }
                if result is Ok {
                    assert forall|k: Seq<char>| #[trigger] before.contains_key(k) && k != nid && after[k].status != before[k].status
                        implies all_settled(after, dag, self.dag_template_repo.children(after[k].dag_node_id)) by {
                        assert(mid[k] == before[k]);
                        assert(mid.contains_key(k));
                    }
                }
            }
        }
        match result {
            Ok(()) => Ok(()),
            Err(e) => Err(e),
        }
    }

    /// Creates the job of a child node: resolves its inputs, enqueues its
    /// job request (`child_job_request`), and marks its node execution in
    /// the DAG execution ready with the new job.
    pub fn create_job_for_node(
        &mut self,
        dag_execution_id: &str,
        node_id: &str,
        topic: &str,
        execution_payload: &StrMap<JsonValue>,
        parent_outputs: &Option<JobOutputs>,
        priority: i32,
        created_by: &str,
    ) -> (r: Result<(), String>)
        ensures
            final(self).dag_template_repo == old(self).dag_template_repo,
            old(self).dag_execution_repo.answers() ==> final(self).dag_execution_repo.executions() == old(
                self,
            ).dag_execution_repo.executions(),
            old(self).dag_execution_repo.answers() && r is Err ==> final(self).dag_execution_repo.node_executions()
                == old(self).dag_execution_repo.node_executions(),
            final(self).dag_execution_repo.answers() == old(self).dag_execution_repo.answers(),
            old(self).job_repo.answers() ==> final(self).job_repo.answers(),
            old(self).dag_execution_repo.answers() && old(self).dag_template_repo.answers() && old(self).job_repo.answers()
                ==> (r is Ok <==> old(self).dag_template_repo.nodes().contains_key(node_id@) && has_execution(
                old(self).dag_execution_repo.node_executions(),
                dag_execution_id@,
                node_id@,
            )),
            old(self).dag_execution_repo.answers() ==> final(self).dag_execution_repo.execution_writes() == old(
                self,
            ).dag_execution_repo.execution_writes(),
            old(self).dag_execution_repo.answers() && old(self).dag_template_repo.answers() && old(self).job_repo.answers()
                && r is Err ==> final(self).job_repo.enqueued() == old(self).job_repo.enqueued(),
            old(self).dag_execution_repo.answers() && r is Err ==> final(self).dag_execution_repo.node_writes() == old(
                self,
            ).dag_execution_repo.node_writes(),
            old(self).dag_execution_repo.answers() && old(self).dag_template_repo.answers() && old(self).job_repo.answers()
                && r is Ok ==> made_job(
                old(self).dag_execution_repo.node_executions(),
                old(self).dag_execution_repo.node_writes(),
                final(self).dag_execution_repo.node_writes(),
                old(self).job_repo.enqueued(),
                final(self).job_repo.enqueued(),
                dag_execution_id@,
                node_id@,
                node_request(
                    old(self).dag_template_repo.nodes()[node_id@],
                    topic@,
                    node_inputs(old(self).dag_template_repo.nodes()[node_id@], execution_payload@, opt_map_view(*parent_outputs)),
                    priority,
                    created_by@,
                ),
                topic@,
                node_inputs(old(self).dag_template_repo.nodes()[node_id@], execution_payload@, opt_map_view(*parent_outputs)),
            ),
            old(self).dag_execution_repo.answers() && old(self).dag_template_repo.answers()
                && old(self).dag_template_repo.nodes().contains_key(node_id@) && has_execution(
                old(self).dag_execution_repo.node_executions(),
                dag_execution_id@,
                node_id@,
            ) ==> (r matches Err(m) ==> "Failed to enqueue job: "@.is_prefix_of(m@)),
            old(self).job_repo.refusal() matches Some(e) ==> (old(self).dag_execution_repo.answers()
                && old(self).dag_template_repo.answers() && old(self).dag_template_repo.nodes().contains_key(node_id@)
                && has_execution(old(self).dag_execution_repo.node_executions(), dag_execution_id@, node_id@) ==> (
            r matches Err(m) && m@ == "Failed to enqueue job: "@ + e)),
            old(self).dag_execution_repo.answers() && old(self).dag_template_repo.answers() && old(self).job_repo.answers()
                && r is Ok ==> {
                let id = final(self).job_repo.enqueued().last().0;
                &&& final(self).job_repo.jobs().contains_key(id)
                &&& enqueued_job(final(self).job_repo.jobs()[id], final(self).job_repo.enqueued().last().1, id)
            },
            old(self).dag_execution_repo.answers() && r is Ok ==> exists|k: Seq<char>| #[trigger]
                made_ready(old(self).dag_execution_repo.node_executions(), final(self).dag_execution_repo.node_executions(), dag_execution_id@, node_id@, k),
    {
        let node = match self.dag_template_repo.get_node(node_id) {
            Ok(n) => n,
            Err(e) => {
                return Err(e);
            },
        };
        let node_execution = match self.dag_execution_repo.get_node_execution_by_dag_and_node(
            dag_execution_id,
            node_id,
        ) {
            Ok(ne) => ne,
            Err(e) => {
                return Err(e);
            },
        };
        let parent = match parent_outputs {
            Some(o) => Some(o),
            None => None,
        };
        let inputs = resolve_node_inputs(node.input_mapping.as_ref(), execution_payload, parent);
        let request = child_job_request(&node, topic, inputs.duplicate(), priority, created_by);
        let job_id = match self.job_repo.enqueue_job(&request) {
            Ok(id) => id,
            Err(e) => {
                let m = String::from_str("Failed to enqueue job: ").concat(e.as_str());
                proof {
                    reveal_strlit("Failed to enqueue job: ");
                    assert(m@.subrange(0, "Failed to enqueue job: "@.len() as int) =~= "Failed to enqueue job: "@);
                }
                return Err(m);
            },
        };
        let ghost before = self.dag_execution_repo.node_executions();
        let ghost key = node_execution.id@;
        match self.dag_execution_repo.update_node_execution_status(
            node_execution.id.as_str(),
            DAGNodeStatus::Ready,
            Some(
                NodeExecutionUpdate {
                    outputs: None,
                    error_message: None,
                    job_id: Some(job_id),
                    job_topic: Some(owned(topic)),
                    inputs: Some(inputs),
                },
            ),
        ) {
            Ok(()) => {},
            Err(e) => {
                return Err(e);
            },
        }
        assert(old(self).dag_execution_repo.answers() ==> made_ready(
            before,
            self.dag_execution_repo.node_executions(),
            dag_execution_id@,
            node_id@,
            key,
        ));
        Ok(())
    }

    /// Records the completion of a DAG job: its node execution completes
    /// (with the job's outputs), a job is created for each child of its node
    /// (`create_job_for_node`, with the execution's topic, payload, priority
    /// and creator and this job's outputs), and the status of the DAG
    /// execution is brought up to date (`check_and_update_dag_status`). A job
    /// without DAG context changes nothing.
    pub fn handle_job_completion(&mut self, job: &QueuedJob, outputs: &Option<JobOutputs>) -> (r: Result<(), String>)
        ensures
            final(self).dag_template_repo == old(self).dag_template_repo,
            job.dag_execution_id is None || job.dag_node_execution_id is None ==> r is Ok
                && final(self).dag_execution_repo == old(self).dag_execution_repo
                && final(self).job_repo == old(self).job_repo,
            (job.dag_execution_id is Some && job.dag_node_execution_id is Some) ==> {
                let dag = job.dag_execution_id->0;
                let nid = job.dag_node_execution_id->0;
                let before = old(self).dag_execution_repo.node_executions();
                let after = final(self).dag_execution_repo.node_executions();
                let ex = old(self).dag_execution_repo.executions();
                let cs = old(self).dag_template_repo.children(before[nid@].dag_node_id);
                &&& (old(self).dag_execution_repo.answers() && old(self).dag_template_repo.answers() ==> {
                &&& ready_only(before, after, dag@, nid@, cs)
                &&& (r is Err ==> final(self).dag_execution_repo.executions() == ex)
                &&& (r is Ok ==> {
                    &&& before.contains_key(nid@)
                    &&& (after[nid@].status == DAGNodeStatus::Completed || (after[nid@].status == DAGNodeStatus::Ready
                        && cs.contains(before[nid@].dag_node_id)))
                    &&& forall|i: int| 0 <= i < cs.len() ==> ready_in(after, dag@, #[trigger] cs[i])
                    &&& (action_reads_execution(counted_action(after, dag@)) ==> ex.contains_key(dag@))
                    &&& final(self).dag_execution_repo.executions() == checked_executions(ex, dag@, counted_action(after, dag@))
                })
                })
                &&& (old(self).dag_execution_repo.answers() && old(self).dag_template_repo.answers()
                    && old(self).job_repo.answers() ==> (r is Ok <==> {
                    &&& before.contains_key(nid@)
                    &&& old(self).dag_template_repo.nodes().contains_key(before[nid@].dag_node_id)
                    &&& ((cs.len() > 0 || action_reads_execution(counted_action(after, dag@))) ==> ex.contains_key(dag@))
                    &&& forall|i: int| 0 <= i < cs.len() ==> has_execution(before, dag@, #[trigger] cs[i])
                }))
                &&& (old(self).dag_execution_repo.answers() && old(self).dag_template_repo.answers()
                    && before.contains_key(nid@)
                    && old(self).dag_template_repo.nodes().contains_key(before[nid@].dag_node_id)
                    && ex.contains_key(dag@)
                    && (forall|i: int| 0 <= i < cs.len() ==> has_execution(before, dag@, #[trigger] cs[i]))
                    ==> (r matches Err(m) ==> "Failed to enqueue job: "@.is_prefix_of(m@)))
                &&& (old(self).dag_execution_repo.answers() && r is Err ==> final(self).dag_execution_repo.execution_writes()
                    == old(self).dag_execution_repo.execution_writes())
                &&& (old(self).job_repo.refusal() matches Some(e) ==> (old(self).dag_execution_repo.answers()
                    && old(self).dag_template_repo.answers() && before.contains_key(nid@)
                    && old(self).dag_template_repo.nodes().contains_key(before[nid@].dag_node_id)
                    && ex.contains_key(dag@) && cs.len() > 0 && has_execution(before, dag@, cs[0]) ==> {
                    &&& r matches Err(m) && m@ == "Failed to enqueue job: "@ + e
                    &&& final(self).dag_execution_repo.node_writes() == old(self).dag_execution_repo.node_writes().push(
                        NodeStatusWrite {
                            id: nid@,
                            status: DAGNodeStatus::Completed,
                            data: Some(completed_data(opt_map_view(*outputs))),
                        },
                    )
                }))
                &&& (old(self).dag_execution_repo.answers() && old(self).dag_template_repo.answers()
                    && old(self).job_repo.answers() && r is Ok ==> {
                    &&& children_jobs_made(
                        before,
                        old(self).dag_template_repo.nodes(),
                        old(self).dag_execution_repo.node_writes().push(
                            NodeStatusWrite {
                                id: nid@,
                                status: DAGNodeStatus::Completed,
                                data: Some(completed_data(opt_map_view(*outputs))),
                            },
                        ),
                        final(self).dag_execution_repo.node_writes(),
                        old(self).job_repo.enqueued(),
                        final(self).job_repo.enqueued(),
                        dag@,
                        cs,
                        ex[dag@],
                        opt_map_view(*outputs),
                        cs.len() as int,
                    )
                    &&& final(self).dag_execution_repo.execution_writes() == old(self).dag_execution_repo.execution_writes()
                        + status_writes(ex, dag@, counted_action(after, dag@), failed_count(after, dag@))
                })
            },
    {
        let dag_execution_id = match &job.dag_execution_id {
            Some(id) => id.as_str(),
            None => {
                return Ok(());
            },
        };
        let dag_node_execution_id = match &job.dag_node_execution_id {
            Some(id) => id.as_str(),
            None => {
                return Ok(());
            },
        };
        let ghost before = self.dag_execution_repo.node_executions();
        let ghost dag = dag_execution_id@;
        let ghost nid = dag_node_execution_id@;
        let ghost ex = self.dag_execution_repo.executions();
        let ghost cs = self.dag_template_repo.children(before[nid].dag_node_id);
        let ghost fa = self.dag_execution_repo.answers() && self.dag_template_repo.answers();
        let ghost all = self.dag_execution_repo.answers() && self.dag_template_repo.answers()
            && self.job_repo.answers();
        let ghost recs = self.dag_execution_repo.answers() && self.dag_template_repo.answers()
            && before.contains_key(nid)
            && self.dag_template_repo.nodes().contains_key(before[nid].dag_node_id) && ex.contains_key(dag)
            && (forall|i: int| 0 <= i < cs.len() ==> has_execution(before, dag, #[trigger] cs[i]));
        let ghost succ = recs && self.job_repo.answers();
        let ghost refused = self.dag_execution_repo.answers() && self.dag_template_repo.answers()
            && before.contains_key(nid) && self.dag_template_repo.nodes().contains_key(before[nid].dag_node_id)
            && ex.contains_key(dag) && cs.len() > 0 && has_execution(before, dag, cs[0]) && self.job_repo.refusal() is Some;
        let ghost parent = opt_map_view(*outputs);
        let ghost nw_done = self.dag_execution_repo.node_writes().push(
            NodeStatusWrite { id: nid, status: DAGNodeStatus::Completed, data: Some(completed_data(parent)) },
        );
        let ghost q0 = self.job_repo.enqueued();
        let ghost w0 = self.dag_execution_repo.execution_writes();
        match self.dag_execution_repo.update_node_execution_status(
            dag_node_execution_id,
            DAGNodeStatus::Completed,
            Some(
                NodeExecutionUpdate {
                    outputs: dup_opt_map(outputs),
                    error_message: None,
                    job_id: None,
                    job_topic: None,
                    inputs: None,
                },
            ),
        ) {
            Ok(()) => {},
            Err(e) => {
                return Err(e);
            },
        }
        let node_execution = match self.dag_execution_repo.get_node_execution(dag_node_execution_id) {
            Ok(ne) => ne,
            Err(e) => {
                return Err(e);
            },
        };
        let node = match self.dag_template_repo.get_node(node_execution.dag_node_id.as_str()) {
            Ok(n) => n,
            Err(e) => {
                return Err(e);
            },
        };
        let child_nodes = match self.dag_template_repo.get_child_nodes(node.id.as_str()) {
            Ok(v) => v,
            Err(e) => {
                return Err(e);
            },
        };
        assert(fa ==> node.id@ == before[nid].dag_node_id);
        proof {
            if all {
                assert(self.dag_execution_repo.node_writes().subrange(0, nw_done.len() as int) =~= nw_done);
                assert(self.job_repo.enqueued().subrange(0, q0.len() as int) =~= q0);
            }
            if fa {
                assert forall|j: int| 0 <= j < cs.len() implies self.dag_template_repo.nodes().contains_key(#[trigger] cs[j]) by {
                    assert(child_nodes[j].id@ == cs[j]);
                }
            }
        }
        if child_nodes.len() > 0 {
            let dag_execution = match self.dag_execution_repo.get_execution(dag_execution_id, false) {
                Ok(e) => e,
                Err(e) => {
                    return Err(e);
                },
            };
            let n = child_nodes.len();
            let mut i: usize = 0;
            while i < n
                invariant
                    n == child_nodes.len(),
                    fa == (old(self).dag_execution_repo.answers() && old(self).dag_template_repo.answers()),
                    fa ==> n == cs.len(),
                    i <= n,
                    fa ==> forall|j: int| 0 <= j < n ==> (#[trigger] child_nodes[j]).id@ == cs[j],
                    cs == self.dag_template_repo.children(before[nid].dag_node_id),
                    self.dag_template_repo == old(self).dag_template_repo,
                    fa ==> self.dag_execution_repo.executions() == ex,
                    before == old(self).dag_execution_repo.node_executions(),
                    ex == old(self).dag_execution_repo.executions(),
                    dag == dag_execution_id@,
                    nid == dag_node_execution_id@,
                    job.dag_execution_id is Some && job.dag_execution_id->0@ == dag,
                    job.dag_node_execution_id is Some && job.dag_node_execution_id->0@ == nid,
                    fa ==> before.contains_key(nid),
                    fa ==> ready_only(before, self.dag_execution_repo.node_executions(), dag, nid, cs),
                    fa ==> (self.dag_execution_repo.node_executions()[nid].status == DAGNodeStatus::Completed
                        || (self.dag_execution_repo.node_executions()[nid].status == DAGNodeStatus::Ready
                        && cs.contains(before[nid].dag_node_id))),
                    fa ==> forall|j: int| 0 <= j < i ==> ready_in(self.dag_execution_repo.node_executions(), dag, #[trigger] cs[j]),
                    fa ==> forall|j: int| 0 <= j < n ==> self.dag_template_repo.nodes().contains_key(#[trigger] cs[j]),
                    fa ==> dag_execution@ == ex[dag],
                    parent == opt_map_view(*outputs),
                    all == (old(self).dag_execution_repo.answers() && old(self).dag_template_repo.answers()
                        && old(self).job_repo.answers()),
                    self.dag_execution_repo.answers() == old(self).dag_execution_repo.answers(),
                    all ==> self.job_repo.answers(),
                    succ ==> recs && all,
                    fa ==> ex.contains_key(dag),
                    fa ==> forall|j: int| 0 <= j < i ==> has_execution(before, dag, #[trigger] cs[j]),
                    recs ==> old(self).dag_execution_repo.answers() && self.dag_template_repo.answers()
                        && ex.contains_key(dag) && forall|j: int|
                        0 <= j < n ==> has_execution(before, dag, #[trigger] cs[j]),
                    nw_done == old(self).dag_execution_repo.node_writes().push(
                        NodeStatusWrite { id: nid, status: DAGNodeStatus::Completed, data: Some(completed_data(parent)) },
                    ),
                    q0 == old(self).job_repo.enqueued(),
                    w0 == old(self).dag_execution_repo.execution_writes(),
                    old(self).dag_execution_repo.answers() ==> self.dag_execution_repo.execution_writes() == w0,
                    refused == (old(self).dag_execution_repo.answers() && old(self).dag_template_repo.answers()
                        && before.contains_key(nid) && old(self).dag_template_repo.nodes().contains_key(before[nid].dag_node_id)
                        && ex.contains_key(dag) && cs.len() > 0 && has_execution(before, dag, cs[0])
                        && old(self).job_repo.refusal() is Some),
                    refused ==> i == 0,
                    i == 0 ==> self.job_repo == old(self).job_repo,
                    old(self).dag_execution_repo.answers() && i == 0 ==> self.dag_execution_repo.node_writes() == nw_done,
                    all ==> children_jobs_made(
                        before,
                        self.dag_template_repo.nodes(),
                        nw_done,
                        self.dag_execution_repo.node_writes(),
                        q0,
                        self.job_repo.enqueued(),
                        dag,
                        cs,
                        ex[dag],
                        parent,
                        i as int,
                    ),
                decreases n - i,
            {
                let ghost cur = self.dag_execution_repo.node_executions();
                let ghost nwc = self.dag_execution_repo.node_writes();
                let ghost qc = self.job_repo.enqueued();
                proof {
                    if refused {
                        lemma_has_execution_stays(before, cur, dag, cs[0]);
                    }
                    if recs {
                        lemma_has_execution_stays(before, cur, dag, cs[i as int]);
                    }
                }
                match self.create_job_for_node(
                    dag_execution_id,
                    child_nodes[i].id.as_str(),
                    dag_execution.topic.as_str(),
                    &dag_execution.execution_payload,
                    outputs,
                    dag_execution.priority,
                    dag_execution.created_by.as_str(),
                ) {
                    Ok(()) => {},
                    Err(e) => {
                        proof {
                            if fa && has_execution(before, dag, cs[i as int]) {
                                lemma_has_execution_stays(before, cur, dag, cs[i as int]);
                            }
                            if refused {
                                assert(child_nodes[0].id@ == cs[0]);
                                assert(self.dag_template_repo.nodes().contains_key(cs[0]));
                            }
                        }
                        return Err(e);
                    },
                }
                let ghost next = self.dag_execution_repo.node_executions();
                proof {
                    if all {
                        let nwn = self.dag_execution_repo.node_writes();
                        let qn = self.job_repo.enqueued();
                        let node_i = self.dag_template_repo.nodes()[cs[i as int]];
                        let inputs_i = node_inputs(node_i, ex[dag].execution_payload, parent);
                        lemma_child_job_made_back(
                            before,
                            cur,
                            nwn.last(),
                            qn.last(),
                            dag,
                            cs[i as int],
                            node_request(node_i, ex[dag].topic, inputs_i, ex[dag].priority, ex[dag].created_by),
                            ex[dag].topic,
                            inputs_i,
                        );
                        assert(nwn.subrange(0, nw_done.len() as int) =~= nwc.subrange(0, nw_done.len() as int));
                        assert(qn.subrange(0, q0.len() as int) =~= qc.subrange(0, q0.len() as int));
                        assert(nwn[nw_done.len() + i] == nwn.last());
                        assert(qn[q0.len() + i] == qn.last());
                        assert forall|j: int| 0 <= j < i + 1 implies child_job_made(
                            before,
                            nwn[nw_done.len() + j],
                            qn[q0.len() + j],
                            dag,
                            #[trigger] cs[j],
                            node_request(
                                self.dag_template_repo.nodes()[cs[j]],
                                ex[dag].topic,
                                node_inputs(self.dag_template_repo.nodes()[cs[j]], ex[dag].execution_payload, parent),
                                ex[dag].priority,
                                ex[dag].created_by,
                            ),
                            ex[dag].topic,
                            node_inputs(self.dag_template_repo.nodes()[cs[j]], ex[dag].execution_payload, parent),
                        ) by {
                            if j < i {
                                assert(nwn[nw_done.len() + j] == nwc[nw_done.len() + j]);
                                assert(qn[q0.len() + j] == qc[q0.len() + j]);
                            }
                        }
                    }
                    if fa {
                        let k = choose|k: Seq<char>| #[trigger] made_ready(cur, next, dag, cs[i as int], k);
                        assert(cs.contains(cs[i as int]));
                        assert(before.contains_key(k));
                        assert(has_execution(before, dag, cs[i as int]));
                        assert forall|kk: Seq<char>| #[trigger] before.contains_key(kk) implies same_node_execution(before[kk], next[kk]) by {
                            assert(cur.contains_key(kk));
                        }
                        assert forall|kk: Seq<char>| #[trigger]
                            before.contains_key(kk) && kk != nid && next[kk].status != before[kk].status implies next[kk].status
                                == DAGNodeStatus::Ready && before[kk].dag_execution_id == dag && cs.contains(before[kk].dag_node_id) by {
                            assert(cur.contains_key(kk));
                            assert(same_node_execution(before[kk], cur[kk]));
                        }
                        assert(ready_in(next, dag, cs[i as int]));
                        assert forall|j: int| 0 <= j < i + 1 implies ready_in(next, dag, #[trigger] cs[j]) by {
                            if j < i {
                                let w = choose|w: Seq<char>| #[trigger]
                                    cur.contains_key(w) && cur[w].dag_execution_id == dag && cur[w].dag_node_id == cs[j] && cur[w].status
                                        == DAGNodeStatus::Ready;
                                assert(next.contains_key(w));
                            }
                        }
                        assert(same_node_execution(before[nid], cur[nid]));
                    }
                }
                i = i + 1;
            }
        }
        self.check_and_update_dag_status(dag_execution_id)
    }
}

} // verus!
