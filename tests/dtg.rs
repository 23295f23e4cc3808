use constellation_core::dtg::DtgError;
use constellation_core::{
    DataTransformationGraph, DtgDataRef, DtgGraphStatus, DtgMetrics, DtgNode, DtgNodeStatus, Timestamp,
};

fn data(kind: &str) -> DtgDataRef {
    DtgDataRef::new(kind.to_string())
}

fn metrics(quality: u32) -> DtgMetrics {
    DtgMetrics {
        cpu_time_ms: 100,
        memory_bytes: 1024,
        network_bytes: 10,
        disk_bytes: 20,
        retry_count: 0,
        quality_score_micro: quality,
        confidence_score_micro: 980_000,
    }
}

fn node_with_input(skill: &str) -> DtgNode {
    let mut n = DtgNode::new(skill.to_string(), "agent".to_string());
    n.add_input(data("json"));
    n
}

#[test]
fn three_node_cycle_is_detected() {
    let mut g = DataTransformationGraph::new("cycle".to_string());
    let a = g.add_node(DtgNode::new("a".to_string(), "x".to_string()));
    let b = g.add_node(DtgNode::new("b".to_string(), "x".to_string()));
    let c = g.add_node(DtgNode::new("c".to_string(), "x".to_string()));
    g.add_edge(a, b, 1, "data_flow".to_string());
    g.add_edge(b, c, 2, "data_flow".to_string());
    assert!(g.is_acyclic());
    g.add_edge(c, a, 3, "data_flow".to_string());
    assert!(!g.is_acyclic());
}

#[test]
fn self_loop_is_a_cycle() {
    let mut g = DataTransformationGraph::new("loop".to_string());
    let a = g.add_node(DtgNode::new("a".to_string(), "x".to_string()));
    g.add_edge(a, a, 1, "data_flow".to_string());
    assert!(!g.is_acyclic());
}

#[test]
fn diamond_and_disconnected_parts_are_acyclic() {
    let mut g = DataTransformationGraph::new("diamond".to_string());
    let a = g.add_node(DtgNode::new("a".to_string(), "x".to_string()));
    let b = g.add_node(DtgNode::new("b".to_string(), "x".to_string()));
    let c = g.add_node(DtgNode::new("c".to_string(), "x".to_string()));
    let d = g.add_node(DtgNode::new("d".to_string(), "x".to_string()));
    let e = g.add_node(DtgNode::new("e".to_string(), "x".to_string()));
    let f = g.add_node(DtgNode::new("f".to_string(), "x".to_string()));
    g.add_edge(a, b, 1, "data_flow".to_string());
    g.add_edge(a, c, 2, "data_flow".to_string());
    g.add_edge(b, d, 3, "data_flow".to_string());
    g.add_edge(c, d, 4, "data_flow".to_string());
    g.add_edge(e, f, 5, "data_flow".to_string());
    assert!(g.is_acyclic());
    g.add_edge(f, e, 6, "data_flow".to_string());
    assert!(!g.is_acyclic());
}

#[test]
fn empty_graph_is_acyclic() {
    let g = DataTransformationGraph::new("empty".to_string());
    assert!(g.is_acyclic());
}

#[test]
fn cycle_among_unknown_ids_is_not_searched() {
    let mut g = DataTransformationGraph::new("dangling".to_string());
    g.add_edge(7, 8, 1, "data_flow".to_string());
    g.add_edge(8, 7, 2, "data_flow".to_string());
    assert!(g.is_acyclic());
    let a = g.add_node(DtgNode::new("a".to_string(), "x".to_string()));
    g.add_edge(a, 7, 3, "data_flow".to_string());
    assert!(!g.is_acyclic());
}

#[test]
fn empty_input_node_stays_root_after_incoming_edges() {
    let mut g = DataTransformationGraph::new("roots".to_string());
    let a = g.add_node(DtgNode::new("a".to_string(), "x".to_string()));
    let b = g.add_node(node_with_input("b"));
    assert_eq!(g.root_nodes, vec![a]);
    g.add_edge(b, a, 1, "data_flow".to_string());
    g.add_edge(b, a, 2, "dependency".to_string());
    assert_eq!(g.root_nodes, vec![a]);
    assert!(g.root_nodes.contains(&a));
}

#[test]
fn dependencies_and_dependents_are_inverse() {
    let mut g = DataTransformationGraph::new("deps".to_string());
    g.add_edge(1, 2, 10, "data_flow".to_string());
    g.add_edge(1, 3, 11, "data_flow".to_string());
    g.add_edge(4, 2, 12, "data_flow".to_string());
    g.add_edge(1, 2, 13, "control_flow".to_string());
    assert_eq!(g.get_dependents(1), vec![2, 3, 2]);
    assert_eq!(g.get_dependencies(2), vec![1, 4, 1]);
    assert_eq!(g.get_dependencies(3), vec![1]);
    assert_eq!(g.get_dependents(4), vec![2]);
    assert_eq!(g.get_dependents(2), Vec::<u128>::new());
    assert_eq!(g.get_dependencies(1), Vec::<u128>::new());
    for e in &g.edges {
        assert!(g.get_dependents(e.source).contains(&e.target));
        assert!(g.get_dependencies(e.target).contains(&e.source));
    }
}

#[test]
fn add_edge_appends_with_empty_metadata() {
    let mut g = DataTransformationGraph::new("edges".to_string());
    g.add_edge(1, 2, 3, "data_flow".to_string());
    assert_eq!(g.edges.len(), 1);
    assert_eq!(g.edges[0].source, 1);
    assert_eq!(g.edges[0].target, 2);
    assert_eq!(g.edges[0].data_ref, 3);
    assert_eq!(g.edges[0].edge_type, "data_flow");
    assert!(g.edges[0].metadata.is_empty());
}

#[test]
fn add_node_replaces_node_with_same_id() {
    let mut g = DataTransformationGraph::new("replace".to_string());
    let n = DtgNode::new("first".to_string(), "x".to_string());
    let mut m = n.clone();
    m.skill_id = "second".to_string();
    let id = g.add_node(n);
    assert_eq!(g.add_node(m), id);
    assert_eq!(g.nodes.len(), 1);
    assert_eq!(g.nodes[&id].skill_id, "second");
    assert_eq!(g.root_nodes, vec![id, id]);
}

#[test]
fn new_node_is_pending_with_default_metrics() {
    let n = DtgNode::new("skill".to_string(), "agent".to_string());
    assert_eq!(n.status, DtgNodeStatus::Pending);
    assert_eq!(n.skill_id, "skill");
    assert_eq!(n.agent_id, "agent");
    assert!(n.completed_at.is_none());
    assert!(n.error.is_none());
    assert!(n.inputs.is_empty() && n.outputs.is_empty());
    assert_eq!(n.metrics, DtgMetrics::default());
    assert_eq!(n.metrics.quality_score_micro, 1_000_000);
    assert_eq!(n.metrics.confidence_score_micro, 1_000_000);
    assert_eq!(n.metrics.cpu_time_ms, 0);
    assert!(n.started_at.micros > 0);
}

#[test]
fn fresh_ids_differ() {
    let a = DtgNode::new("s".to_string(), "a".to_string());
    let b = DtgNode::new("s".to_string(), "a".to_string());
    assert_ne!(a.id, b.id);
    assert_ne!(data("json").id, data("json").id);
}

#[test]
fn mark_completed_sets_completion_after_start() {
    let mut n = DtgNode::new("s".to_string(), "a".to_string());
    n.mark_executing();
    assert_eq!(n.status, DtgNodeStatus::Executing);
    n.mark_completed(metrics(950_000));
    assert_eq!(n.status, DtgNodeStatus::Completed);
    let done = n.completed_at.expect("completed_at is set");
    assert!(done.micros >= n.started_at.micros);
    assert_eq!(n.metrics.quality_score_micro, 950_000);
}

#[test]
fn mark_failed_records_error() {
    let mut n = DtgNode::new("s".to_string(), "a".to_string());
    n.mark_executing();
    n.mark_failed("timeout".to_string());
    assert_eq!(n.status, DtgNodeStatus::Failed);
    assert_eq!(n.error, Some("timeout".to_string()));
    assert!(n.completed_at.unwrap().micros >= n.started_at.micros);
}

#[test]
fn completion_before_start_is_clamped() {
    let mut n = DtgNode::new("s".to_string(), "a".to_string());
    n.start_at(Timestamp::from_micros(5_000));
    n.complete_at(metrics(1), Timestamp::from_micros(4_000));
    assert_eq!(n.completed_at, Some(Timestamp { micros: 5_000 }));
    n.complete_at(metrics(1), Timestamp::from_micros(9_000));
    assert_eq!(n.completed_at, Some(Timestamp { micros: 9_000 }));
    n.fail_at("boom".to_string(), Timestamp::from_micros(1));
    assert_eq!(n.completed_at, Some(Timestamp { micros: 5_000 }));
    assert_eq!(n.status, DtgNodeStatus::Failed);
}

#[test]
fn terminal_statuses() {
    assert!(DtgNodeStatus::Completed.is_terminal());
    assert!(DtgNodeStatus::Failed.is_terminal());
    assert!(DtgNodeStatus::Cancelled.is_terminal());
    assert!(!DtgNodeStatus::Pending.is_terminal());
    assert!(!DtgNodeStatus::Waiting.is_terminal());
    assert!(!DtgNodeStatus::Executing.is_terminal());
}

#[test]
fn graph_lifecycle() {
    let mut g = DataTransformationGraph::new("life".to_string());
    assert_eq!(g.status, DtgGraphStatus::Constructing);
    assert_eq!(g.name, "life");
    g.mark_ready();
    assert_eq!(g.status, DtgGraphStatus::Ready);
    g.start_at(Timestamp::from_micros(100));
    assert_eq!(g.status, DtgGraphStatus::Executing);
    g.complete_at(Timestamp::from_micros(50));
    assert_eq!(g.status, DtgGraphStatus::Completed);
    assert_eq!(g.completed_at, Some(Timestamp { micros: 100 }));
    g.mark_executing();
    g.mark_completed();
    assert!(g.completed_at.unwrap().micros >= g.started_at.micros);
}

#[test]
fn linear_pipeline_scenario() {
    let mut g = DataTransformationGraph::new("Data Processing Pipeline".to_string());
    let raw = data("json");
    let validated = data("json");
    let enriched = data("json");
    let analysis = data("json");
    g.graph_inputs.push(raw.clone());

    let mut validate = DtgNode::new("data_validation".to_string(), "validator_agent".to_string());
    validate.add_output(validated.clone());
    let validate_id = g.add_node(validate);
    g.nodes.get_mut(&validate_id).unwrap().add_input(raw.clone());

    let mut enrich = DtgNode::new("data_enrichment".to_string(), "enricher_agent".to_string());
    enrich.add_input(validated.clone());
    enrich.add_output(enriched.clone());
    let enrich_id = g.add_node(enrich);

    let mut analyze = DtgNode::new("data_analysis".to_string(), "analyzer_agent".to_string());
    analyze.add_input(enriched.clone());
    analyze.add_output(analysis.clone());
    let analyze_id = g.add_node(analyze);

    g.add_edge(validate_id, enrich_id, validated.id, "data_flow".to_string());
    g.add_edge(enrich_id, analyze_id, enriched.id, "data_flow".to_string());
    g.graph_outputs.push(analysis);

    for id in [validate_id, enrich_id, analyze_id] {
        assert_eq!(g.nodes[&id].inputs.len(), 1);
        assert_eq!(g.nodes[&id].outputs.len(), 1);
    }
    assert_eq!(g.root_nodes, vec![validate_id]);
    assert!(g.is_acyclic());
    assert_eq!(g.get_dependencies(enrich_id), vec![validate_id]);
    assert_eq!(g.get_dependents(enrich_id), vec![analyze_id]);

    g.mark_ready();
    g.mark_executing();
    for id in [validate_id, enrich_id, analyze_id] {
        let node = g.nodes.get_mut(&id).unwrap();
        node.mark_executing();
        node.mark_completed(metrics(900_000));
    }
    for id in [validate_id, enrich_id, analyze_id] {
        assert_eq!(g.nodes[&id].status, DtgNodeStatus::Completed);
    }
    g.mark_completed();
    assert_eq!(g.status, DtgGraphStatus::Completed);
    assert!(g.completed_at.is_some());
}

#[test]
fn checked_edge_rejects_unknown_nodes() {
    let mut g = DataTransformationGraph::new("checked".to_string());
    let a = g.add_node(DtgNode::new("a".to_string(), "x".to_string()));
    assert_eq!(g.add_edge_checked(99, a, 1, "data_flow".to_string()), Err(DtgError::UnknownNodeReference(99)));
    assert_eq!(g.add_edge_checked(a, 98, 1, "data_flow".to_string()), Err(DtgError::UnknownNodeReference(98)));
    assert_eq!(g.add_edge_checked(97, 98, 1, "data_flow".to_string()), Err(DtgError::UnknownNodeReference(97)));
    assert!(g.edges.is_empty());
}

#[test]
fn checked_edge_rolls_back_a_cycle() {
    let mut g = DataTransformationGraph::new("checked".to_string());
    let a = g.add_node(DtgNode::new("a".to_string(), "x".to_string()));
    let b = g.add_node(DtgNode::new("b".to_string(), "x".to_string()));
    let c = g.add_node(DtgNode::new("c".to_string(), "x".to_string()));
    assert_eq!(g.add_edge_checked(a, b, 1, "data_flow".to_string()), Ok(()));
    assert_eq!(g.add_edge_checked(b, c, 2, "data_flow".to_string()), Ok(()));
    assert_eq!(g.add_edge_checked(c, a, 3, "data_flow".to_string()), Err(DtgError::CycleIntroduced));
    assert_eq!(g.edges.len(), 2);
    assert_eq!(g.edges[1].data_ref, 2);
    assert!(g.is_acyclic());
    assert_eq!(g.add_edge_checked(a, c, 4, "dependency".to_string()), Ok(()));
    assert_eq!(g.edges.len(), 3);
    assert_eq!(g.edges[2].edge_type, "dependency");
}

#[test]
fn checked_lifecycle_refuses_moves_out_of_terminal_states() {
    let mut n = DtgNode::new("s".to_string(), "a".to_string());
    assert_eq!(
        n.try_complete_at(metrics(1), Timestamp::from_micros(1)),
        Err(DtgError::IllegalStatusTransition { from: DtgNodeStatus::Pending, to: DtgNodeStatus::Completed })
    );
    assert_eq!(n.try_wait(), Ok(()));
    assert_eq!(n.status, DtgNodeStatus::Waiting);
    assert_eq!(n.try_start_at(Timestamp::from_micros(10)), Ok(()));
    assert_eq!(n.started_at, Timestamp { micros: 10 });
    assert_eq!(n.try_complete_at(metrics(2), Timestamp::from_micros(30)), Ok(()));
    assert_eq!(n.completed_at, Some(Timestamp { micros: 30 }));
    let before = n.clone();
    assert_eq!(
        n.try_fail_at("late".to_string(), Timestamp::from_micros(40)),
        Err(DtgError::IllegalStatusTransition { from: DtgNodeStatus::Completed, to: DtgNodeStatus::Failed })
    );
    assert_eq!(n.try_start_at(Timestamp::from_micros(50)).is_err(), true);
    assert_eq!(n.try_cancel_at(Timestamp::from_micros(50)).is_err(), true);
    assert_eq!(n.status, before.status);
    assert_eq!(n.completed_at, before.completed_at);
    assert!(n.error.is_none());
}

#[test]
fn checked_fail_and_cancel() {
    let mut n = DtgNode::new("s".to_string(), "a".to_string());
    assert_eq!(n.try_cancel_at(Timestamp::from_micros(0)), Ok(()));
    assert_eq!(n.status, DtgNodeStatus::Cancelled);
    assert_eq!(n.completed_at, Some(n.started_at));
    let mut m = DtgNode::new("s".to_string(), "a".to_string());
    assert!(m.try_start_at(Timestamp::from_micros(5)).is_ok());
    assert!(m.try_fail_at("oom".to_string(), Timestamp::from_micros(6)).is_ok());
    assert_eq!(m.error, Some("oom".to_string()));
    assert_eq!(m.completed_at, Some(Timestamp { micros: 6 }));
    assert!(!DtgNodeStatus::Executing.can_move_to(DtgNodeStatus::Waiting));
    assert!(DtgNodeStatus::Executing.can_move_to(DtgNodeStatus::Executing));
    assert!(!DtgNodeStatus::Executing.can_move_to(DtgNodeStatus::Pending));
    assert!(!DtgNodeStatus::Waiting.can_move_to(DtgNodeStatus::Completed));
}

#[test]
fn recomputed_roots_follow_current_edges() {
    let mut g = DataTransformationGraph::new("roots".to_string());
    let a = g.add_node(DtgNode::new("a".to_string(), "x".to_string()));
    let b = g.add_node(node_with_input("b"));
    let c = g.add_node(node_with_input("c"));
    g.add_edge(a, b, 1, "data_flow".to_string());
    let mut roots = g.recompute_roots();
    roots.sort();
    let mut expected = vec![a, c];
    expected.sort();
    assert_eq!(roots, expected);
    g.add_edge(b, a, 2, "data_flow".to_string());
    g.add_edge(b, c, 3, "data_flow".to_string());
    assert!(g.recompute_roots().is_empty());
    assert_eq!(g.root_nodes, vec![a]);
}
