//! The stores of DAG executions and DAG templates, described by the records
//! they hold.
use vstd::prelude::*;
use crate::dag::{
    DAGExecution, DAGExecutionStats, DAGExecutionView, DAGNode, DAGNodeExecution,
    DAGNodeExecutionView, DAGNodeStatus, DAGNodeView, DAGStatus, NodeExecutionUpdate,
};
use crate::database::only_key_changed;
use crate::json::JsonValue;
use crate::views::{opt_map_view, opt_str_view};

verus! {

/// The ids of the node executions of the DAG execution `dag`.
pub open spec fn nodes_of(m: Map<Seq<char>, DAGNodeExecutionView>, dag: Seq<char>) -> Set<Seq<char>> {
    m.dom().filter(|k: Seq<char>| m[k].dag_execution_id == dag)
}

/// The ids of the node executions of the DAG execution `dag` that stand in
/// status `st`.
pub open spec fn nodes_in_status(
    m: Map<Seq<char>, DAGNodeExecutionView>,
    dag: Seq<char>,
    st: DAGNodeStatus,
) -> Set<Seq<char>> {
    m.dom().filter(|k: Seq<char>| m[k].dag_execution_id == dag && m[k].status == st)
}

/// Statistics that count the node executions of `dag` in `m`, each count
/// as an `i32`.
pub open spec fn stats_match(
    s: DAGExecutionStats,
    m: Map<Seq<char>, DAGNodeExecutionView>,
    dag: Seq<char>,
) -> bool {
    &&& s.dag_execution_id@ == dag
    &&& s.total_nodes == nodes_of(m, dag).len() as i32
    &&& s.completed_nodes == nodes_in_status(m, dag, DAGNodeStatus::Completed).len() as i32
    &&& s.failed_nodes == nodes_in_status(m, dag, DAGNodeStatus::Failed).len() as i32
    &&& s.running_nodes == nodes_in_status(m, dag, DAGNodeStatus::Running).len() as i32
    &&& s.pending_nodes == nodes_in_status(m, dag, DAGNodeStatus::Pending).len() as i32
    &&& s.waiting_nodes == nodes_in_status(m, dag, DAGNodeStatus::Waiting).len() as i32
    &&& s.skipped_nodes == nodes_in_status(m, dag, DAGNodeStatus::Skipped).len() as i32
}

/// The node execution `after` is `before` with another status (and perhaps
/// other recorded details): it keeps its id, execution and node.
pub open spec fn same_node_execution(before: DAGNodeExecutionView, after: DAGNodeExecutionView) -> bool {
    &&& after.id == before.id
    &&& after.dag_execution_id == before.dag_execution_id
    &&& after.dag_node_id == before.dag_node_id
}

/// What a status change of a node execution is asked to record besides the
/// status.
pub struct NodeUpdateView {
    pub outputs: Option<Map<Seq<char>, JsonValue>>,
    pub error_message: Option<Seq<char>>,
    pub job_id: Option<Seq<char>>,
    pub job_topic: Option<Seq<char>>,
    pub inputs: Option<Map<Seq<char>, JsonValue>>,
}

pub open spec fn node_update_view(d: Option<NodeExecutionUpdate>) -> Option<NodeUpdateView> {
    match d {
        Some(u) => Some(
            NodeUpdateView {
                outputs: opt_map_view(u.outputs),
                error_message: opt_str_view(u.error_message),
                job_id: opt_str_view(u.job_id),
                job_topic: opt_str_view(u.job_topic),
                inputs: opt_map_view(u.inputs),
            },
        ),
        None => None,
    }
}

/// A status change of a node execution that a store accepted.
pub struct NodeStatusWrite {
    pub id: Seq<char>,
    pub status: DAGNodeStatus,
    pub data: Option<NodeUpdateView>,
}

/// A status change of a DAG execution that a store accepted.
pub struct ExecutionStatusWrite {
    pub id: Seq<char>,
    pub status: DAGStatus,
    pub error_message: Option<Seq<char>>,
}

/// The DAG execution `dag` has a node execution of the node `node`.
pub open spec fn has_execution(m: Map<Seq<char>, DAGNodeExecutionView>, dag: Seq<char>, node: Seq<char>) -> bool {
    exists|k: Seq<char>| #[trigger] m.contains_key(k) && m[k].dag_execution_id == dag && m[k].dag_node_id == node
}

/// The store of DAG executions and of their node executions.
pub trait DAGExecutionRepository {
    /// The DAG executions, by id.
    ///
    /// The contracts below speak of this model only for a store that
    /// answers (`answers`), as the in-memory stores do. A store kept outside
    /// the program, such as a database, has no model here: it keeps this
    /// default and `answers` false, so the contracts claim nothing of it and
    /// nothing proved over the model describes it.
    open spec fn executions(&self) -> Map<Seq<char>, DAGExecutionView> {
        Map::empty()
    }

    /// The node executions, by id (same model rule as `executions`).
    open spec fn node_executions(&self) -> Map<Seq<char>, DAGNodeExecutionView> {
        Map::empty()
    }

    /// Whether the store answers every call from its records, failing only
    /// where a record is missing (so the in-memory store). A store kept
    /// outside the program keeps this default, `false`: any of its calls
    /// may fail.
    open spec fn answers(&self) -> bool {
        false
    }

    /// The status changes of node executions that the store accepted,
    /// oldest first, each with what it was asked to record (same model rule
    /// as `executions`).
    open spec fn node_writes(&self) -> Seq<NodeStatusWrite> {
        Seq::empty()
    }

    /// The status changes of DAG executions that the store accepted, oldest
    /// first, each with its error message (same model rule as
    /// `executions`).
    open spec fn execution_writes(&self) -> Seq<ExecutionStatusWrite> {
        Seq::empty()
    }

    /// The DAG execution with the given id.
    fn get_execution(&self, dag_execution_id: &str, include_nodes: bool) -> (r: Result<DAGExecution, String>)
        ensures
            self.answers() ==> (r matches Ok(e) ==> self.executions().contains_key(dag_execution_id@) && e@
                == self.executions()[dag_execution_id@]),
            self.answers() ==> (r is Ok <==> self.executions().contains_key(dag_execution_id@)),
    ;

    /// The node execution with the given id.
    fn get_node_execution(&self, node_execution_id: &str) -> (r: Result<DAGNodeExecution, String>)
        ensures
            self.answers() ==> (r matches Ok(n) ==> self.node_executions().contains_key(node_execution_id@) && n@
                == self.node_executions()[node_execution_id@]),
            self.answers() ==> (r is Ok <==> self.node_executions().contains_key(node_execution_id@)),
    ;

    /// A node execution of the given DAG execution and node.
    fn get_node_execution_by_dag_and_node(&self, dag_execution_id: &str, node_id: &str) -> (r: Result<
        DAGNodeExecution,
        String,
    >)
        ensures
            self.answers() ==> (r matches Ok(n) ==> {
                &&& self.node_executions().contains_key(n.id@)
                &&& n@ == self.node_executions()[n.id@]
                &&& n.dag_execution_id@ == dag_execution_id@
                &&& n.dag_node_id@ == node_id@
            }),
            self.answers() ==> (r is Ok <==> has_execution(self.node_executions(), dag_execution_id@, node_id@)),
    ;

    /// Sets the status of a DAG execution; nothing else in the store
    /// changes. A failed call changes nothing.
    fn update_execution_status(
        &mut self,
        dag_execution_id: &str,
        status: DAGStatus,
        error_message: Option<&str>,
    ) -> (r: Result<(), String>)
        ensures
            old(self).answers() ==> (r is Ok ==> final(self).executions() == old(self).executions().insert(
                dag_execution_id@,
                DAGExecutionView { status, ..old(self).executions()[dag_execution_id@] },
            )),
            old(self).answers() ==> (r is Ok ==> final(self).node_executions() == old(self).node_executions()),
            old(self).answers() ==> (r is Err ==> final(self).executions() == old(self).executions()),
            old(self).answers() ==> (r is Err ==> final(self).node_executions() == old(self).node_executions()),
            old(self).answers() ==> (r is Ok <==> old(self).executions().contains_key(dag_execution_id@)),
            final(self).answers() == old(self).answers(),
            old(self).answers() ==> final(self).execution_writes() == (if r is Ok {
                old(self).execution_writes().push(
                    ExecutionStatusWrite {
                        id: dag_execution_id@,
                        status,
                        error_message: match error_message {
                            Some(m) => Some(m@),
                            None => None,
                        },
                    },
                )
            } else {
                old(self).execution_writes()
            }),
            old(self).answers() ==> final(self).node_writes() == old(self).node_writes(),
    ;

    /// Sets the status of a node execution (recording the details of
    /// `data`); no other record changes. A failed call changes nothing.
    fn update_node_execution_status(
        &mut self,
        node_execution_id: &str,
        status: DAGNodeStatus,
        data: Option<NodeExecutionUpdate>,
    ) -> (r: Result<(), String>)
        ensures
            old(self).answers() ==> (r is Ok ==> only_key_changed(
                old(self).node_executions(),
                final(self).node_executions(),
                node_execution_id@,
            )),
            old(self).answers() ==> (r is Ok ==> final(self).node_executions()[node_execution_id@].status == status),
            old(self).answers() ==> (r is Ok ==> same_node_execution(
                old(self).node_executions()[node_execution_id@],
                final(self).node_executions()[node_execution_id@],
            )),
            old(self).answers() ==> (r is Ok ==> final(self).executions() == old(self).executions()),
            old(self).answers() ==> (r is Err ==> final(self).executions() == old(self).executions()),
            old(self).answers() ==> (r is Err ==> final(self).node_executions() == old(self).node_executions()),
            old(self).answers() ==> (r is Ok <==> old(self).node_executions().contains_key(node_execution_id@)),
            final(self).answers() == old(self).answers(),
            old(self).answers() ==> final(self).node_writes() == (if r is Ok {
                old(self).node_writes().push(
                    NodeStatusWrite { id: node_execution_id@, status, data: node_update_view(data) },
                )
            } else {
                old(self).node_writes()
            }),
            old(self).answers() ==> final(self).execution_writes() == old(self).execution_writes(),
    ;

    /// How many node executions of a DAG execution stand in each status.
    fn get_execution_stats(&self, dag_execution_id: &str) -> (r: Result<DAGExecutionStats, String>)
        ensures
            self.answers() ==> (r matches Ok(s) && stats_match(s, self.node_executions(), dag_execution_id@)),
    ;
}

/// The store of DAG templates: their nodes and which node follows which.
pub trait DAGTemplateRepository {
    /// The nodes, by id.
    ///
    /// The contracts below speak of this model only for a store that
    /// answers (`answers`), as the in-memory stores do. A store kept outside
    /// the program, such as a database, has no model here: it keeps this
    /// default and `answers` false, so the contracts claim nothing of it and
    /// nothing proved over the model describes it.
    open spec fn nodes(&self) -> Map<Seq<char>, DAGNodeView> {
        Map::empty()
    }

    /// The ids of the children of the node `node_id`, in their order (same
    /// model rule as `nodes`).
    open spec fn children(&self, node_id: Seq<char>) -> Seq<Seq<char>> {
        Seq::empty()
    }

    /// Whether the store answers every call from its records, failing only
    /// where a record is missing (so the in-memory store). A store kept
    /// outside the program keeps this default, `false`: any of its calls
    /// may fail.
    open spec fn answers(&self) -> bool {
        false
    }

    /// The node with the given id.
    fn get_node(&self, node_id: &str) -> (r: Result<DAGNode, String>)
        ensures
            self.answers() ==> (r matches Ok(n) ==> self.nodes().contains_key(node_id@) && n@ == self.nodes()[node_id@]
                && n.id@ == node_id@),
            self.answers() ==> (r is Ok <==> self.nodes().contains_key(node_id@)),
    ;

    /// The children of a node, in their order.
    fn get_child_nodes(&self, node_id: &str) -> (r: Result<Vec<DAGNode>, String>)
        ensures
            self.answers() ==> (r matches Ok(v) && {
                &&& v.len() == self.children(node_id@).len()
                &&& forall|i: int|
                    0 <= i < v.len() ==> (#[trigger] v[i]).id@ == self.children(node_id@)[i]
                        && self.nodes().contains_key(v[i].id@) && v[i]@ == self.nodes()[v[i].id@]
            }),
    ;
}

} // verus!
