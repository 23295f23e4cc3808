//! The data transformation graph: nodes that each record one skill
//! execution, and edges that record which data flowed from one node to
//! another.
//!
//! Two ways to mutate are offered. The plain one is permissive: `add_edge`
//! checks neither that its endpoints exist nor that the edge set stays
//! acyclic, and the `mark_*` setters accept any current status; `is_acyclic`
//! is the check that callers run when they need it. The checked one
//! (`add_edge_checked`, `try_*`) refuses unknown endpoints, edges that close
//! a cycle and moves the node lifecycle does not permit, with a `DtgError`,
//! and then changes nothing. Prefer the checked one.
use std::collections::HashMap;
use vstd::prelude::*;
use crate::clock::{new_id, now, Timestamp};

verus! {

/// Scores and other fractional quantities are fixed-point integers with six
/// decimal places: `FIXED_ONE` stands for 1.0.
pub const FIXED_ONE: u32 = 1_000_000;

/// A handle on one unit of data flowing through the graph (not the data).
#[derive(Clone, Debug)]
pub struct DtgDataRef {
    pub id: u128,
    /// Free-form data type tag, e.g. "json", "text", "binary".
    pub data_type: String,
    pub schema: Option<String>,
    pub size_bytes: Option<u64>,
    /// Hash of the content; equal hashes are presumed to mean equal content.
    pub content_hash: Option<String>,
    /// Where the data is stored; never dereferenced here.
    pub storage_ref: Option<String>,
}

impl DtgDataRef {
    /// A reference with a fresh identifier, the given type tag and no other
    /// information.
    pub fn new(data_type: String) -> (r: DtgDataRef)
        ensures
            r.data_type == data_type,
            r.schema is None,
            r.size_bytes is None,
            r.content_hash is None,
            r.storage_ref is None,
    {
        DtgDataRef {
            id: new_id(),
            data_type,
            schema: None,
            size_bytes: None,
            content_hash: None,
            storage_ref: None,
        }
    }
}

/// Lifecycle of a node: Pending, possibly Waiting, then Executing, then one
/// of the terminal states Completed, Failed or Cancelled.
#[derive(Clone, Copy, Debug, PartialEq, Eq, Structural)]
pub enum DtgNodeStatus {
    Pending,
    Executing,
    Completed,
    Failed,
    Cancelled,
    Waiting,
}

impl DtgNodeStatus {
    pub open spec fn spec_is_terminal(self) -> bool {
        self is Completed || self is Failed || self is Cancelled
    }

    /// Whether no further transition is expected from this status.
    pub fn is_terminal(&self) -> (r: bool)
        ensures
            r == self.spec_is_terminal(),
    {
        match self {
            DtgNodeStatus::Completed | DtgNodeStatus::Failed | DtgNodeStatus::Cancelled => true,
            _ => false,
        }
    }
}

impl DtgNodeStatus {
    /// The transitions the lifecycle permits: Pending may wait, start or be
    /// cancelled; Waiting may start or be cancelled; Executing may restart
    /// (a requeued node resumes) or end in any terminal status. Nothing
    /// leaves a terminal status.
    pub open spec fn spec_can_move_to(self, next: DtgNodeStatus) -> bool {
        match self {
            DtgNodeStatus::Pending => next is Waiting || next is Executing || next is Cancelled,
            DtgNodeStatus::Waiting => next is Executing || next is Cancelled,
            DtgNodeStatus::Executing => !(next is Pending) && !(next is Waiting),
            _ => false,
        }
    }

    /// Whether the lifecycle permits moving from `self` to `next`.
    pub fn can_move_to(&self, next: DtgNodeStatus) -> (r: bool)
        ensures
            r == self.spec_can_move_to(next),
    {
        match self {
            DtgNodeStatus::Pending => match next {
                DtgNodeStatus::Waiting | DtgNodeStatus::Executing | DtgNodeStatus::Cancelled => true,
                _ => false,
            },
            DtgNodeStatus::Waiting => match next {
                DtgNodeStatus::Executing | DtgNodeStatus::Cancelled => true,
                _ => false,
            },
            DtgNodeStatus::Executing => match next {
                DtgNodeStatus::Pending | DtgNodeStatus::Waiting => false,
                _ => true,
            },
            _ => false,
        }
    }
}

/// Why a checked mutation was refused. A refused mutation changes nothing.
#[derive(Clone, Copy, Debug, PartialEq, Eq, Structural)]
pub enum DtgError {
    /// An edge endpoint is not a node of the graph.
    UnknownNodeReference(u128),
    /// The edge would close a cycle.
    CycleIntroduced,
    /// The node's lifecycle does not permit the move.
    IllegalStatusTransition { from: DtgNodeStatus, to: DtgNodeStatus },
}

/// Measurements of one transformation. The two scores are fixed-point
/// fractions of `FIXED_ONE`, between 0 and 1.
#[derive(Clone, Copy, Debug, PartialEq, Eq, Structural)]
pub struct DtgMetrics {
    pub cpu_time_ms: u64,
    pub memory_bytes: u64,
    pub network_bytes: u64,
    pub disk_bytes: u64,
    pub retry_count: u32,
    pub quality_score_micro: u32,
    pub confidence_score_micro: u32,
}

impl DtgMetrics {
    /// Both scores lie in [0, 1].
    pub open spec fn wf(self) -> bool {
        self.quality_score_micro <= FIXED_ONE && self.confidence_score_micro <= FIXED_ONE
    }

    pub open spec fn spec_default() -> DtgMetrics {
        DtgMetrics {
            cpu_time_ms: 0,
            memory_bytes: 0,
            network_bytes: 0,
            disk_bytes: 0,
            retry_count: 0,
            quality_score_micro: FIXED_ONE,
            confidence_score_micro: FIXED_ONE,
        }
    }
}

impl Default for DtgMetrics {
    /// All counters zero and both scores 1.0. This means "nothing measured
    /// yet", not a perfect result: read metrics only once the node is done.
    fn default() -> (r: DtgMetrics)
        ensures
            r == DtgMetrics::spec_default(),
            r.wf(),
    {
        DtgMetrics {
            cpu_time_ms: 0,
            memory_bytes: 0,
            network_bytes: 0,
            disk_bytes: 0,
            retry_count: 0,
            quality_score_micro: FIXED_ONE,
            confidence_score_micro: FIXED_ONE,
        }
    }
}

/// One execution step: a skill run by an agent on some inputs.
#[derive(Clone, Debug)]
pub struct DtgNode {
    pub id: u128,
    /// Key into the external skill registry.
    pub skill_id: String,
    /// Key into the external agent registry.
    pub agent_id: String,
    pub inputs: Vec<DtgDataRef>,
    pub outputs: Vec<DtgDataRef>,
    pub metadata: HashMap<String, serde_json::Value>,
    pub started_at: Timestamp,
    pub completed_at: Option<Timestamp>,
    pub status: DtgNodeStatus,
    pub error: Option<String>,
    pub metrics: DtgMetrics,
}

/// The later of two instants.
pub open spec fn later_of(a: Timestamp, b: Timestamp) -> Timestamp {
    if a.micros >= b.micros { a } else { b }
}

fn later(a: Timestamp, b: Timestamp) -> (r: Timestamp)
    ensures
        r == later_of(a, b),
{
    if a.micros >= b.micros { a } else { b }
}

impl DtgNode {
    /// Status and completion data agree: `completed_at` is set exactly in a
    /// terminal status, never before `started_at`, an error is recorded only
    /// by a failure, and both scores lie in [0, 1].
    pub open spec fn lifecycle_consistent(self) -> bool {
        &&& self.metrics.wf()
        &&& (self.completed_at is Some <==> self.status.spec_is_terminal())
        &&& (self.completed_at matches Some(c) ==> c.micros >= self.started_at.micros)
        &&& (self.error is Some ==> self.status is Failed)
    }

    /// A fresh Pending node with no inputs, outputs or metadata, started now,
    /// with default metrics.
    pub fn new(skill_id: String, agent_id: String) -> (r: DtgNode)
        ensures
            r.skill_id == skill_id,
            r.agent_id == agent_id,
            r.inputs@.len() == 0,
            r.outputs@.len() == 0,
            r.metadata@ == Map::<String, serde_json::Value>::empty(),
            r.completed_at is None,
            r.status == DtgNodeStatus::Pending,
            r.error is None,
            r.metrics == DtgMetrics::spec_default(),
            r.lifecycle_consistent(),
    {
        DtgNode {
            id: new_id(),
            skill_id,
            agent_id,
            inputs: Vec::new(),
            outputs: Vec::new(),
            metadata: HashMap::new(),
            started_at: now(),
            completed_at: None,
            status: DtgNodeStatus::Pending,
            error: None,
            metrics: DtgMetrics::default(),
        }
    }

    /// Moves the node to Executing and restarts its clock at `at`. This also
    /// serves to resume a node that was requeued.
    pub fn start_at(&mut self, at: Timestamp)
        ensures
            *final(self) == (DtgNode { status: DtgNodeStatus::Executing, started_at: at, ..*old(self) }),
    {
        self.status = DtgNodeStatus::Executing;
        self.started_at = at;
    }

    /// Moves the node to Executing, started now.
    pub fn mark_executing(&mut self)
        ensures
            final(self).status == DtgNodeStatus::Executing,
            *final(self) == (DtgNode {
                status: DtgNodeStatus::Executing,
                started_at: final(self).started_at,
                ..*old(self)
            }),
    {
        let t = now();
        self.start_at(t);
    }

    /// Records success at instant `at` with the final metrics. The completion
    /// time is never earlier than the start: a clock that stepped back is
    /// read as the start instant.
    pub fn complete_at(&mut self, metrics: DtgMetrics, at: Timestamp)
        requires
            metrics.wf(),
        ensures
            *final(self) == (DtgNode {
                status: DtgNodeStatus::Completed,
                completed_at: Some(later_of(at, old(self).started_at)),
                metrics,
                ..*old(self)
            }),
    {
        self.status = DtgNodeStatus::Completed;
        self.completed_at = Some(later(at, self.started_at));
        self.metrics = metrics;
    }

    /// Records success now with the final metrics.
    pub fn mark_completed(&mut self, metrics: DtgMetrics)
        requires
            metrics.wf(),
        ensures
            final(self).status == DtgNodeStatus::Completed,
            final(self).completed_at matches Some(c) && c.micros >= old(self).started_at.micros,
            final(self).metrics == metrics,
            *final(self) == (DtgNode { completed_at: final(self).completed_at, status: DtgNodeStatus::Completed, metrics, ..*old(self) }),
    {
        let t = now();
        self.complete_at(metrics, t);
    }

    /// Records failure at instant `at` with its error message; the completion
    /// time is clamped to the start as in `complete_at`.
    pub fn fail_at(&mut self, error: String, at: Timestamp)
        ensures
            *final(self) == (DtgNode {
                status: DtgNodeStatus::Failed,
                completed_at: Some(later_of(at, old(self).started_at)),
                error: Some(error),
                ..*old(self)
            }),
    {
        self.status = DtgNodeStatus::Failed;
        self.completed_at = Some(later(at, self.started_at));
        self.error = Some(error);
    }

    /// Records failure now with its error message.
    pub fn mark_failed(&mut self, error: String)
        ensures
            final(self).status == DtgNodeStatus::Failed,
            final(self).error == Some(error),
            final(self).completed_at matches Some(c) && c.micros >= old(self).started_at.micros,
            *final(self) == (DtgNode { completed_at: final(self).completed_at, status: DtgNodeStatus::Failed, error: Some(error), ..*old(self) }),
    {
        let t = now();
        self.fail_at(error, t);
    }

    /// Moves the node to Executing at `at` if its lifecycle permits it.
    pub fn try_start_at(&mut self, at: Timestamp) -> (r: Result<(), DtgError>)
        ensures
            old(self).status.spec_can_move_to(DtgNodeStatus::Executing) ==> r is Ok
                && *final(self) == (DtgNode { status: DtgNodeStatus::Executing, started_at: at, ..*old(self) }),
            !old(self).status.spec_can_move_to(DtgNodeStatus::Executing) ==> *final(self) == *old(self)
                && r == Err::<(), DtgError>(DtgError::IllegalStatusTransition { from: old(self).status, to: DtgNodeStatus::Executing }),
            old(self).lifecycle_consistent() ==> final(self).lifecycle_consistent(),
    {
        if self.status.can_move_to(DtgNodeStatus::Executing) {
            self.start_at(at);
            Ok(())
        } else {
            Err(DtgError::IllegalStatusTransition { from: self.status, to: DtgNodeStatus::Executing })
        }
    }

    /// Moves the node to Waiting if its lifecycle permits it.
    pub fn try_wait(&mut self) -> (r: Result<(), DtgError>)
        ensures
            old(self).status.spec_can_move_to(DtgNodeStatus::Waiting) ==> r is Ok
                && *final(self) == (DtgNode { status: DtgNodeStatus::Waiting, ..*old(self) }),
            !old(self).status.spec_can_move_to(DtgNodeStatus::Waiting) ==> *final(self) == *old(self)
                && r == Err::<(), DtgError>(DtgError::IllegalStatusTransition { from: old(self).status, to: DtgNodeStatus::Waiting }),
            old(self).lifecycle_consistent() ==> final(self).lifecycle_consistent(),
    {
        if self.status.can_move_to(DtgNodeStatus::Waiting) {
            self.status = DtgNodeStatus::Waiting;
            Ok(())
        } else {
            Err(DtgError::IllegalStatusTransition { from: self.status, to: DtgNodeStatus::Waiting })
        }
    }

    /// Records success at `at` as `complete_at` does, if the lifecycle
    /// permits it; a node that already ended is left as it is.
    pub fn try_complete_at(&mut self, metrics: DtgMetrics, at: Timestamp) -> (r: Result<(), DtgError>)
        requires
            metrics.wf(),
        ensures
            old(self).status.spec_can_move_to(DtgNodeStatus::Completed) ==> r is Ok
                && *final(self) == (DtgNode {
                    status: DtgNodeStatus::Completed,
                    completed_at: Some(later_of(at, old(self).started_at)),
                    metrics,
                    ..*old(self)
                }),
            !old(self).status.spec_can_move_to(DtgNodeStatus::Completed) ==> *final(self) == *old(self)
                && r == Err::<(), DtgError>(DtgError::IllegalStatusTransition { from: old(self).status, to: DtgNodeStatus::Completed }),
            old(self).lifecycle_consistent() ==> final(self).lifecycle_consistent(),
    {
        if self.status.can_move_to(DtgNodeStatus::Completed) {
            self.complete_at(metrics, at);
            Ok(())
        } else {
            Err(DtgError::IllegalStatusTransition { from: self.status, to: DtgNodeStatus::Completed })
        }
    }

    /// Records failure at `at` as `fail_at` does, if the lifecycle permits
    /// it.
    pub fn try_fail_at(&mut self, error: String, at: Timestamp) -> (r: Result<(), DtgError>)
        ensures
            old(self).status.spec_can_move_to(DtgNodeStatus::Failed) ==> r is Ok
                && *final(self) == (DtgNode {
                    status: DtgNodeStatus::Failed,
                    completed_at: Some(later_of(at, old(self).started_at)),
                    error: Some(error),
                    ..*old(self)
                }),
            !old(self).status.spec_can_move_to(DtgNodeStatus::Failed) ==> *final(self) == *old(self)
                && r == Err::<(), DtgError>(DtgError::IllegalStatusTransition { from: old(self).status, to: DtgNodeStatus::Failed }),
            old(self).lifecycle_consistent() ==> final(self).lifecycle_consistent(),
    {
        if self.status.can_move_to(DtgNodeStatus::Failed) {
            self.fail_at(error, at);
            Ok(())
        } else {
            Err(DtgError::IllegalStatusTransition { from: self.status, to: DtgNodeStatus::Failed })
        }
    }

    /// Cancels the node at `at` (clamped to its start), if the lifecycle
    /// permits it. Work already running elsewhere is not interrupted.
    pub fn try_cancel_at(&mut self, at: Timestamp) -> (r: Result<(), DtgError>)
        ensures
            old(self).status.spec_can_move_to(DtgNodeStatus::Cancelled) ==> r is Ok
                && *final(self) == (DtgNode {
                    status: DtgNodeStatus::Cancelled,
                    completed_at: Some(later_of(at, old(self).started_at)),
                    ..*old(self)
                }),
            !old(self).status.spec_can_move_to(DtgNodeStatus::Cancelled) ==> *final(self) == *old(self)
                && r == Err::<(), DtgError>(DtgError::IllegalStatusTransition { from: old(self).status, to: DtgNodeStatus::Cancelled }),
            old(self).lifecycle_consistent() ==> final(self).lifecycle_consistent(),
    {
        if self.status.can_move_to(DtgNodeStatus::Cancelled) {
            self.status = DtgNodeStatus::Cancelled;
            self.completed_at = Some(later(at, self.started_at));
            Ok(())
        } else {
            Err(DtgError::IllegalStatusTransition { from: self.status, to: DtgNodeStatus::Cancelled })
        }
    }

    /// Appends an input reference.
    pub fn add_input(&mut self, data_ref: DtgDataRef)
        ensures
            final(self).inputs@ == old(self).inputs@.push(data_ref),
            *final(self) == (DtgNode { inputs: final(self).inputs, ..*old(self) }),
    {
        self.inputs.push(data_ref);
    }

    /// Appends an output reference.
    pub fn add_output(&mut self, data_ref: DtgDataRef)
        ensures
            final(self).outputs@ == old(self).outputs@.push(data_ref),
            *final(self) == (DtgNode { outputs: final(self).outputs, ..*old(self) }),
    {
        self.outputs.push(data_ref);
    }
}

/// A data-flow link from `source` to `target`, carrying the data `data_ref`.
#[derive(Clone, Debug)]
pub struct DtgEdge {
    pub source: u128,
    pub target: u128,
    pub data_ref: u128,
    /// E.g. "data_flow", "control_flow", "dependency".
    pub edge_type: String,
    pub metadata: HashMap<String, serde_json::Value>,
}

/// Lifecycle of a whole graph: Constructing, Ready, Executing, then one of
/// the terminal states Completed, PartiallyCompleted, Failed or Cancelled.
#[derive(Clone, Copy, Debug, PartialEq, Eq, Structural)]
pub enum DtgGraphStatus {
    Constructing,
    Ready,
    Executing,
    Completed,
    PartiallyCompleted,
    Failed,
    Cancelled,
}

/// A data transformation graph: nodes keyed by their id, and edges in the
/// order they were added.
#[derive(Clone, Debug)]
pub struct DataTransformationGraph {
    pub id: u128,
    pub name: String,
    /// Ids of the nodes that had no declared input when they were added.
    /// This is fixed at insertion: later edges into a node do not remove it.
    pub root_nodes: Vec<u128>,
    pub nodes: HashMap<u128, DtgNode>,
    pub edges: Vec<DtgEdge>,
    pub graph_inputs: Vec<DtgDataRef>,
    pub graph_outputs: Vec<DtgDataRef>,
    pub metadata: HashMap<String, serde_json::Value>,
    pub started_at: Timestamp,
    pub completed_at: Option<Timestamp>,
    pub status: DtgGraphStatus,
    pub tags: Vec<String>,
}

/// Whether `edges` holds an edge from `s` to `t`.
pub open spec fn has_edge(edges: Seq<DtgEdge>, s: u128, t: u128) -> bool {
    exists|i: int| 0 <= i < edges.len() && edges[i].source == s && #[trigger] edges[i].target == t
}

/// The sources of the edges that end at `n`, in edge order, repeated once per
/// such edge.
pub open spec fn sources_into(edges: Seq<DtgEdge>, n: u128) -> Seq<u128>
    decreases edges.len(),
{
    if edges.len() == 0 {
        Seq::empty()
    } else {
        let rest = sources_into(edges.drop_last(), n);
        if edges.last().target == n {
            rest.push(edges.last().source)
        } else {
            rest
        }
    }
}

/// The targets of the edges that start at `n`, in edge order, repeated once
/// per such edge.
pub open spec fn targets_from(edges: Seq<DtgEdge>, n: u128) -> Seq<u128>
    decreases edges.len(),
{
    if edges.len() == 0 {
        Seq::empty()
    } else {
        let rest = targets_from(edges.drop_last(), n);
        if edges.last().source == n {
            rest.push(edges.last().target)
        } else {
            rest
        }
    }
}

pub(crate) proof fn lemma_edges_prefix(edges: Seq<DtgEdge>, i: int)
    requires
        0 <= i < edges.len(),
    ensures
        edges.subrange(0, i + 1).drop_last() == edges.subrange(0, i),
        edges.subrange(0, i + 1).last() == edges[i],
{
    assert(edges.subrange(0, i + 1).drop_last() =~= edges.subrange(0, i));
}

/// `t` is among the targets from `s` exactly when some edge goes from `s` to
/// `t`, and likewise `s` is among the sources into `t`.
pub proof fn lemma_adjacency_lists(edges: Seq<DtgEdge>, s: u128, t: u128)
    ensures
        targets_from(edges, s).contains(t) <==> has_edge(edges, s, t),
        sources_into(edges, t).contains(s) <==> has_edge(edges, s, t),
    decreases edges.len(),
{
    if edges.len() > 0 {
        let init = edges.drop_last();
        lemma_adjacency_lists(init, s, t);
        if has_edge(init, s, t) {
            let i = choose|i: int| 0 <= i < init.len() && init[i].source == s && #[trigger] init[i].target == t;
            assert(edges[i] == init[i]);
        }
        if has_edge(edges, s, t) && !has_edge(init, s, t) {
            let i = choose|i: int| 0 <= i < edges.len() && edges[i].source == s && #[trigger] edges[i].target == t;
            if i < init.len() {
                assert(init[i] == edges[i]);
            }
        }
        let last = edges.len() - 1;
        if edges.last().source == s && edges.last().target == t {
            assert(edges[last].target == t);
        }
        let rt = targets_from(init, s);
        let rs = sources_into(init, t);
        if edges.last().source == s {
            assert(rt.push(edges.last().target).contains(t) <==> (rt.contains(t) || edges.last().target == t)) by {
                if rt.push(edges.last().target).contains(t) {
                    let k = choose|k: int| 0 <= k < rt.len() + 1 && rt.push(edges.last().target)[k] == t;
                    if k < rt.len() {
                        assert(rt[k] == t);
                    }
                }
                if rt.contains(t) {
                    let k = choose|k: int| 0 <= k < rt.len() && rt[k] == t;
                    assert(rt.push(edges.last().target)[k] == t);
                }
                assert(rt.push(edges.last().target)[rt.len() as int] == edges.last().target);
            }
        }
        if edges.last().target == t {
            assert(rs.push(edges.last().source).contains(s) <==> (rs.contains(s) || edges.last().source == s)) by {
                if rs.push(edges.last().source).contains(s) {
                    let k = choose|k: int| 0 <= k < rs.len() + 1 && rs.push(edges.last().source)[k] == s;
                    if k < rs.len() {
                        assert(rs[k] == s);
                    }
                }
                if rs.contains(s) {
                    let k = choose|k: int| 0 <= k < rs.len() && rs[k] == s;
                    assert(rs.push(edges.last().source)[k] == s);
                }
                assert(rs.push(edges.last().source)[rs.len() as int] == edges.last().source);
            }
        }
    }
}

/// `after` is `before` with `node` added, as `add_node` leaves it.
pub open spec fn node_added(before: DataTransformationGraph, after: DataTransformationGraph, node: DtgNode) -> bool {
    &&& after.nodes@ == before.nodes@.insert(node.id, node)
    &&& after.root_nodes@ == (if node.inputs@.len() == 0 {
        before.root_nodes@.push(node.id)
    } else {
        before.root_nodes@
    })
    &&& after.edges@ == before.edges@
}

/// `after` is `before` with one edge appended, as `add_edge` leaves it.
pub open spec fn edge_added(before: DataTransformationGraph, after: DataTransformationGraph) -> bool {
    &&& after.edges@.len() == before.edges@.len() + 1
    &&& after.edges@.drop_last() == before.edges@
    &&& after.nodes@ == before.nodes@
    &&& after.root_nodes@ == before.root_nodes@
}

/// One structural change: a node added or an edge added.
pub open spec fn structural_step(before: DataTransformationGraph, after: DataTransformationGraph) -> bool {
    edge_added(before, after) || exists|node: DtgNode| #[trigger] node_added(before, after, node)
}

/// A node that had no inputs when it was added stays a root: whatever nodes
/// and edges are added after it, its id remains in `root_nodes`.
pub proof fn lemma_root_nodes_persist(history: Seq<DataTransformationGraph>, node: DtgNode)
    requires
        history.len() >= 2,
        node.inputs@.len() == 0,
        node_added(history[0], history[1], node),
        forall|i: int| 1 <= i < history.len() - 1 ==> #[trigger] structural_step(history[i], history[i + 1]),
    ensures
        forall|i: int| 1 <= i < history.len() ==> #[trigger] history[i].root_nodes@.contains(node.id),
    decreases history.len(),
{
    let last = history.len() - 1;
    assert(history[1].root_nodes@.last() == node.id);
    assert(history[1].root_nodes@.contains(node.id));
    if history.len() > 2 {
        let init = history.drop_last();
        assert forall|i: int| 1 <= i < init.len() - 1 implies #[trigger] structural_step(init[i], init[i + 1]) by {
            assert(structural_step(history[i], history[i + 1]));
        }
        lemma_root_nodes_persist(init, node);
        assert(init[last - 1] == history[last - 1]);
        assert(history[last - 1].root_nodes@.contains(node.id));
        let j = last - 1;
        assert(structural_step(history[j], history[j + 1]));
        let prev = history[last - 1].root_nodes@;
        let k = choose|k: int| 0 <= k < prev.len() && prev[k] == node.id;
        if !edge_added(history[last - 1], history[last]) {
            let n = choose|n: DtgNode| #[trigger] node_added(history[last - 1], history[last], n);
            if n.inputs@.len() == 0 {
                assert(prev.push(n.id)[k] == node.id);
            }
        }
        assert(history[last].root_nodes@[k] == node.id);
        assert forall|i: int| 1 <= i < history.len() implies #[trigger] history[i].root_nodes@.contains(node.id) by {
            if i < last {
                assert(init[i] == history[i]);
                assert(init[i].root_nodes@.contains(node.id));
            }
        }
    }
}

/// Dependencies and dependents are inverse views of the edge set: `t` is a
/// dependent of `s` exactly when `s` is a dependency of `t`, exactly when an
/// edge runs from `s` to `t`.
pub proof fn lemma_dependencies_dependents_inverse(g: DataTransformationGraph, s: u128, t: u128)
    ensures
        targets_from(g.edges@, s).contains(t) <==> sources_into(g.edges@, t).contains(s),
        targets_from(g.edges@, s).contains(t) <==> has_edge(g.edges@, s, t),
        forall|i: int| 0 <= i < g.edges@.len() ==> {
            &&& targets_from(g.edges@, #[trigger] g.edges@[i].source).contains(g.edges@[i].target)
            &&& sources_into(g.edges@, g.edges@[i].target).contains(g.edges@[i].source)
        },
{
    lemma_adjacency_lists(g.edges@, s, t);
    assert forall|i: int| 0 <= i < g.edges@.len() implies {
        &&& targets_from(g.edges@, #[trigger] g.edges@[i].source).contains(g.edges@[i].target)
        &&& sources_into(g.edges@, g.edges@[i].target).contains(g.edges@[i].source)
    } by {
        lemma_adjacency_lists(g.edges@, g.edges@[i].source, g.edges@[i].target);
        assert(has_edge(g.edges@, g.edges@[i].source, g.edges@[i].target));
    }
}

/// Some edge of `edges` ends at `t`.
pub open spec fn has_incoming(edges: Seq<DtgEdge>, t: u128) -> bool {
    exists|i: int| 0 <= i < edges.len() && #[trigger] edges[i].target == t
}

proof fn lemma_no_sources_means_no_incoming(edges: Seq<DtgEdge>, t: u128)
    ensures
        sources_into(edges, t).len() == 0 <==> !has_incoming(edges, t),
    decreases edges.len(),
{
    if edges.len() > 0 {
        let init = edges.drop_last();
        lemma_no_sources_means_no_incoming(init, t);
        if has_incoming(init, t) {
            let i = choose|i: int| 0 <= i < init.len() && #[trigger] init[i].target == t;
            assert(edges[i] == init[i]);
        }
        if has_incoming(edges, t) && !has_incoming(init, t) {
            let i = choose|i: int| 0 <= i < edges.len() && #[trigger] edges[i].target == t;
            if i < init.len() {
                assert(init[i] == edges[i]);
            }
        }
        let last = edges.len() - 1;
        if edges.last().target == t {
            assert(edges[last].target == t);
        }
    }
}


impl DataTransformationGraph {
    /// Every root is a node of the graph.
    pub open spec fn roots_are_nodes(self) -> bool {
        forall|i: int| 0 <= i < self.root_nodes@.len() ==> self.nodes@.dom().contains(#[trigger] self.root_nodes@[i])
    }

    /// An empty graph named `name`, in construction, started now.
    pub fn new(name: String) -> (r: DataTransformationGraph)
        ensures
            r.name == name,
            r.root_nodes@.len() == 0,
            r.nodes@ == Map::<u128, DtgNode>::empty(),
            r.edges@.len() == 0,
            r.graph_inputs@.len() == 0,
            r.graph_outputs@.len() == 0,
            r.metadata@ == Map::<String, serde_json::Value>::empty(),
            r.completed_at is None,
            r.status == DtgGraphStatus::Constructing,
            r.tags@.len() == 0,
            r.roots_are_nodes(),
    {
        DataTransformationGraph {
            id: new_id(),
            name,
            root_nodes: Vec::new(),
            nodes: HashMap::new(),
            edges: Vec::new(),
            graph_inputs: Vec::new(),
            graph_outputs: Vec::new(),
            metadata: HashMap::new(),
            started_at: now(),
            completed_at: None,
            status: DtgGraphStatus::Constructing,
            tags: Vec::new(),
        }
    }

    /// Inserts `node` under its id, replacing any node with that id, and
    /// returns the id. A node without declared inputs becomes a root.
    pub fn add_node(&mut self, node: DtgNode) -> (r: u128)
        ensures
            r == node.id,
            node_added(*old(self), *final(self), node),
            old(self).roots_are_nodes() ==> final(self).roots_are_nodes(),
            final(self).nodes@ == old(self).nodes@.insert(node.id, node),
            final(self).root_nodes@ == (if node.inputs@.len() == 0 {
                old(self).root_nodes@.push(node.id)
            } else {
                old(self).root_nodes@
            }),
            *final(self) == (DataTransformationGraph {
                nodes: final(self).nodes,
                root_nodes: final(self).root_nodes,
                ..*old(self)
            }),
    {
        broadcast use vstd::std_specs::hash::group_hash_axioms;
        let node_id = node.id;
        if node.inputs.len() == 0 {
            self.root_nodes.push(node_id);
        }
        self.nodes.insert(node_id, node);
        assert forall|i: int| old(self).roots_are_nodes() && 0 <= i < self.root_nodes@.len()
            implies self.nodes@.dom().contains(#[trigger] self.root_nodes@[i]) by {
            if i < old(self).root_nodes@.len() {
                assert(self.root_nodes@[i] == old(self).root_nodes@[i]);
            }
        }
        node_id
    }

    /// Appends an edge with empty metadata. Neither the endpoints nor
    /// acyclicity are checked.
    pub fn add_edge(&mut self, source: u128, target: u128, data_ref: u128, edge_type: String)
        ensures
            edge_added(*old(self), *final(self)),
            final(self).edges@.len() == old(self).edges@.len() + 1,
            final(self).edges@.drop_last() == old(self).edges@,
            final(self).edges@.last().source == source,
            final(self).edges@.last().target == target,
            final(self).edges@.last().data_ref == data_ref,
            final(self).edges@.last().edge_type == edge_type,
            final(self).edges@.last().metadata@ == Map::<String, serde_json::Value>::empty(),
            *final(self) == (DataTransformationGraph { edges: final(self).edges, ..*old(self) }),
    {
        let edge = DtgEdge { source, target, data_ref, edge_type, metadata: HashMap::new() };
        self.edges.push(edge);
        assert(self.edges@.drop_last() =~= old(self).edges@);
    }

    /// Marks the graph ready: no more structural changes are expected.
    pub fn mark_ready(&mut self)
        ensures
            *final(self) == (DataTransformationGraph { status: DtgGraphStatus::Ready, ..*old(self) }),
    {
        self.status = DtgGraphStatus::Ready;
    }

    /// Marks the graph executing, started at `at`.
    pub fn start_at(&mut self, at: Timestamp)
        ensures
            *final(self) == (DataTransformationGraph {
                status: DtgGraphStatus::Executing,
                started_at: at,
                ..*old(self)
            }),
    {
        self.status = DtgGraphStatus::Executing;
        self.started_at = at;
    }

    /// Marks the graph executing, started now.
    pub fn mark_executing(&mut self)
        ensures
            final(self).status == DtgGraphStatus::Executing,
            *final(self) == (DataTransformationGraph {
                status: DtgGraphStatus::Executing,
                started_at: final(self).started_at,
                ..*old(self)
            }),
    {
        let t = now();
        self.start_at(t);
    }

    /// Marks the graph completed at `at`, clamped so that completion never
    /// precedes the start.
    pub fn complete_at(&mut self, at: Timestamp)
        ensures
            *final(self) == (DataTransformationGraph {
                status: DtgGraphStatus::Completed,
                completed_at: Some(later_of(at, old(self).started_at)),
                ..*old(self)
            }),
    {
        self.status = DtgGraphStatus::Completed;
        self.completed_at = Some(later(at, self.started_at));
    }

    /// Marks the graph completed now.
    pub fn mark_completed(&mut self)
        ensures
            final(self).status == DtgGraphStatus::Completed,
            final(self).completed_at matches Some(c) && c.micros >= old(self).started_at.micros,
            *final(self) == (DataTransformationGraph {
                status: DtgGraphStatus::Completed,
                completed_at: final(self).completed_at,
                ..*old(self)
            }),
    {
        let t = now();
        self.complete_at(t);
    }

    /// The nodes that no edge currently leads into, each once, in no
    /// particular order. Unlike `root_nodes`, which is fixed when nodes are
    /// added, this looks at the edges as they are now.
    pub fn recompute_roots(&self) -> (r: Vec<u128>)
        ensures
            r@.no_duplicates(),
            forall|k: u128| #[trigger] r@.contains(k) <==> (self.nodes@.dom().contains(k) && !has_incoming(self.edges@, k)),
    {
        broadcast use vstd::std_specs::hash::group_hash_axioms;
        let mut r: Vec<u128> = Vec::new();
        for node_id in it: self.nodes.keys()
            invariant
                it.seq().unref().to_set() == self.nodes@.dom(),
                it.seq().unref().no_duplicates(),
                r@.no_duplicates(),
                forall|x: u128| #[trigger] r@.contains(x) ==> exists|j: int| 0 <= j < it.index() && it.seq().unref()[j] == x,
                forall|x: u128| #[trigger] r@.contains(x) ==> self.nodes@.dom().contains(x) && !has_incoming(self.edges@, x),
                forall|j: int| 0 <= j < it.index() && !has_incoming(self.edges@, #[trigger] it.seq().unref()[j]) ==> r@.contains(it.seq().unref()[j]),
                it.index() == it.seq().len() ==> forall|k: u128| #[trigger] self.nodes@.dom().contains(k) && !has_incoming(self.edges@, k) ==> r@.contains(k),
        {
            let k = *node_id;
            let ghost r0 = r@;
            let ghost idx = it.index() as int;
            assert(it.seq().unref()[idx] == k);
            assert(it.seq().unref().to_set().contains(k));
            let deps = self.get_dependencies(k);
            proof {
                lemma_no_sources_means_no_incoming(self.edges@, k);
            }
            if deps.len() == 0 {
                assert forall|x: u128| r0.contains(x) implies x != k by {
                    let j = choose|j: int| 0 <= j < idx && it.seq().unref()[j] == x;
                    assert(it.seq().unref()[j] != it.seq().unref()[idx]);
                }
                r.push(k);
                assert(r@ == r0.push(k));
                assert forall|a: int, b: int| 0 <= a < b < r@.len() implies r@[a] != r@[b] by {
                    if b == r0.len() {
                        assert(r0.contains(r0[a]));
                    } else {
                        assert(r0[a] != r0[b]);
                    }
                }
                assert forall|x: u128| #[trigger] r@.contains(x) implies r0.contains(x) || x == k by {
                    let m = choose|m: int| 0 <= m < r@.len() && r@[m] == x;
                    if m < r0.len() {
                        assert(r0[m] == x);
                    }
                }
                assert(r@[r0.len() as int] == k);
            }
            assert forall|x: u128| r0.contains(x) implies r@.contains(x) by {
                let m = choose|m: int| 0 <= m < r0.len() && r0[m] == x;
                assert(r@[m] == x);
            }
            assert forall|j: int| 0 <= j < idx + 1 && !has_incoming(self.edges@, #[trigger] it.seq().unref()[j]) implies r@.contains(it.seq().unref()[j]) by {
                if j < idx {
                    assert(r0.contains(it.seq().unref()[j]));
                }
            }
            assert forall|k2: u128| #[trigger] self.nodes@.dom().contains(k2) && !has_incoming(self.edges@, k2) && idx + 1 == it.seq().len() implies r@.contains(k2) by {
                assert(it.seq().unref().to_set().contains(k2));
                let j = choose|j: int| 0 <= j < it.seq().unref().len() && it.seq().unref()[j] == k2;
                if j < idx {
                    assert(r0.contains(it.seq().unref()[j]));
                }
            }
        }
        r
    }

    /// The sources of all edges into `node_id`, in edge order; a source
    /// appears once per edge.
    pub fn get_dependencies(&self, node_id: u128) -> (r: Vec<u128>)
        ensures
            r@ == sources_into(self.edges@, node_id),
    {
        let mut r: Vec<u128> = Vec::new();
        let n = self.edges.len();
        for i in 0..n
            invariant
                n == self.edges@.len(),
                r@ == sources_into(self.edges@.subrange(0, i as int), node_id),
        {
            proof { lemma_edges_prefix(self.edges@, i as int); }
            if self.edges[i].target == node_id {
                r.push(self.edges[i].source);
            }
        }
        assert(self.edges@.subrange(0, n as int) =~= self.edges@);
        r
    }

    /// The targets of all edges out of `node_id`, in edge order; a target
    /// appears once per edge.
    pub fn get_dependents(&self, node_id: u128) -> (r: Vec<u128>)
        ensures
            r@ == targets_from(self.edges@, node_id),
    {
        let mut r: Vec<u128> = Vec::new();
        let n = self.edges.len();
        for i in 0..n
            invariant
                n == self.edges@.len(),
                r@ == targets_from(self.edges@.subrange(0, i as int), node_id),
        {
            proof { lemma_edges_prefix(self.edges@, i as int); }
            if self.edges[i].source == node_id {
                r.push(self.edges[i].target);
            }
        }
        assert(self.edges@.subrange(0, n as int) =~= self.edges@);
        r
    }
}

} // verus!
