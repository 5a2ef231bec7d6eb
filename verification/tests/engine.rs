use camera_toolbox_app::asset::{
    AssetId, CaptureStore, CaptureStoreError, CaptureStoreLimits, CaptureStoreStats,
    EphemeralAsset, IntegrityState, OperationId,
};
use camera_toolbox_app::engine::actor::{
    actor_name, report_action, report_input, report_start, report_stop,
};
use camera_toolbox_app::engine::channel::{create_mailbox, ChannelFull, NodeMessage};
use camera_toolbox_app::engine::graph::{GraphEngine, GraphSpec};
use camera_toolbox_app::engine::node::{NodeAction, NodeError};
use camera_toolbox_app::engine::packet::{DataPacket, DecodedVideoFrame};
use camera_toolbox_app::engine::registry::NodeRegistry;
use camera_toolbox_app::engine::runtime::{EngineServices, EventPart, NodeRuntime, RuntimeEffect};
use camera_toolbox_app::engine::spec::{NodeRuntimeState, NodeSpec, PortCardinality, PortSpec};
use camera_toolbox_app::engine::topology::{EdgeSpec, GraphBuildError, PortEndpoint};
use camera_toolbox_app::json::{JsonMember, JsonValue};
use camera_toolbox_app::source::{SourcePts, StreamFrameIdentity, StreamSessionId};
use std::sync::Arc;

fn operation(value: &str) -> OperationId {
    OperationId::new(value).unwrap()
}

fn asset(id: &str, bytes: usize) -> EphemeralAsset {
    EphemeralAsset {
        id: AssetId::new(id).unwrap(),
        payload: vec![7; bytes],
        source_name: "unit-test".to_owned(),
        integrity: IntegrityState::Verified {
            algorithm: "sha256".to_owned(),
            digest: format!("digest-{id}"),
        },
    }
}

fn store(per_operation: usize, global: usize) -> CaptureStore {
    CaptureStore::new(1, CaptureStoreLimits::new(per_operation, global).unwrap())
}

#[test]
fn a_store_of_any_limits_refuses_what_exceeds_them() {
    let limits = CaptureStoreLimits {
        per_operation_bytes: 8,
        global_bytes: 0,
    };
    let mut store = CaptureStore::new(1, limits);
    assert_eq!(
        store.reserve(operation("op"), 1).unwrap_err(),
        CaptureStoreError::GlobalBudgetExceeded {
            limit: 0,
            requested: 1
        }
    );
    assert_eq!(store.stats(), CaptureStoreStats::default());
}

#[test]
fn enforces_cumulative_operation_and_global_budgets() {
    let mut store = store(6, 10);
    store.reserve(operation("op-a"), 4).unwrap();
    assert_eq!(
        store.reserve(operation("op-a"), 3).unwrap_err(),
        CaptureStoreError::PerOperationBudgetExceeded {
            limit: 6,
            requested: 7
        }
    );
    store.reserve(operation("op-b"), 6).unwrap();
    assert_eq!(
        store.reserve(operation("op-c"), 1).unwrap_err(),
        CaptureStoreError::GlobalBudgetExceeded {
            limit: 10,
            requested: 11
        }
    );
    assert_eq!(
        store.stats(),
        CaptureStoreStats {
            reserved_bytes: 10,
            published_bytes: 0,
            reservation_count: 2,
            asset_count: 0,
        }
    );
}

#[test]
fn dropping_or_failed_publish_rolls_back_reservation() {
    let mut store = store(8, 8);
    let reservation = store.reserve(operation("cancelled"), 8).unwrap();
    assert_eq!(store.stats().reserved_bytes, 8);
    store.roll_back(&reservation);
    assert_eq!(store.stats(), CaptureStoreStats::default());

    let reservation = store.reserve(operation("invalid"), 4).unwrap();
    let mut invalid = asset("invalid", 4);
    invalid.integrity = IntegrityState::Unverified;
    assert_eq!(
        store.publish_validated(&reservation, invalid).unwrap_err(),
        CaptureStoreError::IntegrityNotVerified
    );
    assert_eq!(store.stats(), CaptureStoreStats::default());
}

#[test]
fn what_was_given_back_can_be_reserved_again() {
    let mut store = store(8, 8);
    for attempt in 0..3 {
        let reservation = store.reserve(operation("again"), 8).unwrap();
        assert!(store.reserve(operation("again"), 1).is_err());
        if attempt == 1 {
            store.roll_back(&reservation);
        } else {
            assert_eq!(
                store
                    .publish_validated(&reservation, asset("large", 9))
                    .unwrap_err(),
                CaptureStoreError::PayloadExceedsReservation {
                    reserved: 8,
                    actual: 9
                }
            );
        }
        assert_eq!(store.stats(), CaptureStoreStats::default());
    }
}

#[test]
fn publish_transfers_budget_and_release_returns_it() {
    let mut store = store(8, 8);
    let reservation = store.reserve(operation("capture"), 8).unwrap();
    let published = store
        .publish_validated(&reservation, asset("frame-1", 6))
        .unwrap();
    assert_eq!(
        store.stats(),
        CaptureStoreStats {
            reserved_bytes: 0,
            published_bytes: 6,
            reservation_count: 0,
            asset_count: 1,
        }
    );
    assert_eq!(
        store.release(&published.id).unwrap_err(),
        CaptureStoreError::AssetInUse {
            id: published.id.clone(),
            external_references: 1
        }
    );
    let id = published.id.clone();
    drop(published);
    store.release(&id).unwrap();
    assert_eq!(store.stats(), CaptureStoreStats::default());
}

#[test]
fn store_refuses_what_it_cannot_account_for() {
    assert_eq!(
        CaptureStoreLimits::new(0, 1),
        Err(CaptureStoreError::ZeroBudget)
    );
    assert_eq!(
        CaptureStoreLimits::new(2, 1),
        Err(CaptureStoreError::PerOperationLimitExceedsGlobal {
            per_operation_bytes: 2,
            global_bytes: 1
        })
    );
    let mut store = store(8, 8);
    assert_eq!(
        store.reserve(operation("a"), 0).unwrap_err(),
        CaptureStoreError::EmptyReservation
    );
    let reservation = store.reserve(operation("a"), 3).unwrap();
    assert_eq!(
        store.reserve(operation("a"), usize::MAX).unwrap_err(),
        CaptureStoreError::BudgetArithmeticOverflow
    );
    assert_eq!(
        store.publish_validated(&reservation, asset("big", 4)).unwrap_err(),
        CaptureStoreError::PayloadExceedsReservation {
            reserved: 3,
            actual: 4
        }
    );
    assert_eq!(
        store.publish_validated(&reservation, asset("late", 3)).unwrap_err(),
        CaptureStoreError::ReservationAlreadyConsumed
    );
    let mut other = CaptureStore::new(2, store.limits());
    let foreign = other.reserve(operation("a"), 1).unwrap();
    assert_eq!(
        store.publish_validated(&foreign, asset("x", 1)).unwrap_err(),
        CaptureStoreError::ForeignReservation
    );
    assert_eq!(other.stats().reserved_bytes, 1);
    let unknown = AssetId::new("nope").unwrap();
    assert_eq!(
        store.release(&unknown),
        Err(CaptureStoreError::UnknownAsset(unknown))
    );
    let first = store.reserve(operation("a"), 1).unwrap();
    let second = store.reserve(operation("b"), 1).unwrap();
    let published = store.publish_validated(&first, asset("same", 1)).unwrap();
    assert_eq!(
        store.publish_validated(&second, asset("same", 1)).unwrap_err(),
        CaptureStoreError::DuplicateAsset(AssetId::new("same").unwrap())
    );
    let again = store.get(&published.id).unwrap();
    assert!(Arc::ptr_eq(&again, &published));
    assert_eq!(again.payload, [7]);
    assert!(OperationId::new(" ").is_none());
}

fn json(value: &str) -> DataPacket {
    DataPacket::Json(Arc::new(JsonValue::string(value)))
}

fn input(port: &str, value: &str) -> NodeMessage {
    NodeMessage::Input {
        port: port.to_owned(),
        packet: json(value),
    }
}

#[test]
fn mailbox_drops_new_when_full() {
    let mut mailbox = create_mailbox(1);
    assert!(mailbox.try_send(input("a", "first")).is_ok());
    assert_eq!(mailbox.try_send(input("a", "second")), Err(ChannelFull));
    assert!(matches!(mailbox.try_recv(), Some(NodeMessage::Input { port, .. }) if port == "a"));
}

#[test]
fn mailbox_control_send_delivers_when_input_capacity_is_full() {
    let mut mailbox = create_mailbox(1);
    mailbox.try_send(input("a", "data")).unwrap();
    assert_eq!(mailbox.try_send(input("a", "dropped")), Err(ChannelFull));
    mailbox.send(NodeMessage::Stop).unwrap();
    assert!(matches!(mailbox.try_recv(), Some(NodeMessage::Input { .. })));
    assert!(matches!(mailbox.try_recv(), Some(NodeMessage::Stop)));
    assert!(mailbox.try_recv().is_none());
}

#[test]
fn mailbox_frees_a_place_with_each_input_taken() {
    let mut mailbox = create_mailbox(0);
    for round in 0..3 {
        mailbox.try_send(input("a", "data")).unwrap();
        assert_eq!(
            mailbox.try_send(input("a", "dropped")),
            Err(ChannelFull),
            "{round}"
        );
        assert!(mailbox.try_send(NodeMessage::Action(NodeAction::Arm)).is_ok());
        assert!(matches!(mailbox.try_recv(), Some(NodeMessage::Input { .. })));
        assert!(matches!(
            mailbox.try_recv(),
            Some(NodeMessage::Action(NodeAction::Arm))
        ));
    }
}

#[test]
fn a_stopped_mailbox_takes_nothing() {
    let mut mailbox = create_mailbox(4);
    mailbox.try_send(input("a", "data")).unwrap();
    assert!(mailbox.has_room());
    mailbox.stop();
    assert!(mailbox.try_send(input("a", "late")).is_err());
    assert!(mailbox.send(NodeMessage::Action(NodeAction::Arm)).is_err());
    assert!(matches!(mailbox.try_recv(), Some(NodeMessage::Input { .. })));
    assert!(matches!(mailbox.try_recv(), Some(NodeMessage::Stop)));
    assert!(mailbox.try_recv().is_none());
}

fn port(id: &str, required: bool) -> PortSpec {
    port_card(id, PortCardinality::One, required)
}

fn port_card(id: &str, cardinality: PortCardinality, required: bool) -> PortSpec {
    PortSpec {
        id: id.to_owned(),
        label: id.to_owned(),
        kind: "status.metrics".to_owned(),
        cardinality,
        required,
    }
}

fn node_spec(id: &str, inputs: Vec<PortSpec>, outputs: Vec<PortSpec>) -> NodeSpec {
    node_spec_with_kind(id, "passthrough", inputs, outputs)
}

fn node_spec_with_kind(
    id: &str,
    kind: &str,
    inputs: Vec<PortSpec>,
    outputs: Vec<PortSpec>,
) -> NodeSpec {
    NodeSpec {
        id: id.to_owned(),
        kind: kind.to_owned(),
        title: id.to_owned(),
        inputs,
        outputs,
        config: JsonValue::Object(vec![]),
    }
}

fn edge(id: &str, source: &str, target: &str) -> EdgeSpec {
    edge_with_ports(id, source, "out", target, "in")
}

fn edge_with_ports(
    id: &str,
    source: &str,
    source_port: &str,
    target: &str,
    target_port: &str,
) -> EdgeSpec {
    EdgeSpec {
        id: id.to_owned(),
        source: PortEndpoint::new(source, source_port),
        target: PortEndpoint::new(target, target_port),
    }
}

fn registry(kinds: &[&str]) -> NodeRegistry {
    let mut registry = NodeRegistry::new();
    for kind in kinds {
        registry.register(kind);
    }
    registry
}

fn build_with(
    nodes: Vec<NodeSpec>,
    edges: Vec<EdgeSpec>,
    registry: &NodeRegistry,
) -> Result<GraphEngine, GraphBuildError> {
    let failures = nodes.iter().map(|_| None).collect();
    GraphEngine::build(GraphSpec { nodes, edges }, registry, failures)
}

fn build(nodes: Vec<NodeSpec>, edges: Vec<EdgeSpec>) -> Result<GraphEngine, GraphBuildError> {
    build_with(
        nodes,
        edges,
        &registry(&["passthrough", "emitter", "recorder", "viewer"]),
    )
}

/// Runs the nodes until no message is left; returns what the recorders saw.
fn run(engine: &mut GraphEngine, nodes: &[(&str, &str, &str)]) -> Vec<(String, String)> {
    let mut seen = Vec::new();
    let mut quiet = false;
    while !quiet {
        quiet = true;
        for (node, kind, out) in nodes {
            while let Some(message) = engine.next_message(node) {
                quiet = false;
                match (message, *kind) {
                    (NodeMessage::Action(NodeAction::Trigger), "emitter") => {
                        let packet = DataPacket::Json(Arc::new(JsonValue::Object(vec![
                            JsonMember::new("src", JsonValue::string("emitter")),
                        ])));
                        engine.dispatch(node, out, packet).unwrap();
                    }
                    (NodeMessage::Input { packet, .. }, "passthrough") => {
                        engine.dispatch(node, out, packet).unwrap();
                    }
                    (NodeMessage::Input { port, packet }, "recorder") => {
                        let DataPacket::Json(value) = packet else {
                            panic!("unexpected packet");
                        };
                        seen.push((port, value.get_str("src").unwrap_or("?").to_owned()));
                    }
                    _ => {}
                }
            }
        }
    }
    seen
}

#[test]
fn build_derives_disabled_for_unconnected_required_input() {
    let mut engine = build(
        vec![node_spec("b", vec![port("in", true)], vec![port("out", false)])],
        vec![],
    )
    .unwrap();
    assert!(engine
        .drain_status()
        .iter()
        .any(|status| status.node_id == "b" && status.state == NodeRuntimeState::Disabled));
    assert!(engine.drain_status().is_empty());
}

#[test]
fn build_marks_connected_required_input_idle() {
    let mut engine = build(
        vec![
            node_spec("a", vec![], vec![port("out", false)]),
            node_spec("b", vec![port("in", true)], vec![port("out", false)]),
        ],
        vec![edge("e", "a", "b")],
    )
    .unwrap();
    assert!(engine
        .drain_status()
        .iter()
        .any(|status| status.node_id == "b" && status.state == NodeRuntimeState::Idle));
}

#[test]
fn build_rejects_unknown_kind() {
    let result = build_with(
        vec![node_spec("a", vec![], vec![])],
        vec![],
        &NodeRegistry::new(),
    );
    assert!(matches!(result, Err(GraphBuildError::UnknownKind(_))));
}

#[test]
fn build_reports_a_node_that_cannot_be_made() {
    let result = GraphEngine::build(
        GraphSpec {
            nodes: vec![node_spec("a", vec![], vec![])],
            edges: vec![],
        },
        &registry(&["passthrough"]),
        vec![Some(NodeError::config("bad"))],
    );
    assert_eq!(
        result.err(),
        Some(GraphBuildError::Instantiate(
            "a".to_owned(),
            NodeError::Config("bad".to_owned())
        ))
    );
}

#[test]
fn build_rejects_missing_source_port() {
    let result = build(
        vec![
            node_spec("a", vec![], vec![port("out", false)]),
            node_spec("b", vec![port("in", true)], vec![]),
        ],
        vec![edge_with_ports("e", "a", "nonexistent", "b", "in")],
    );
    assert!(matches!(
        result,
        Err(GraphBuildError::MissingPort(id, port, node))
            if id == "e" && port == "nonexistent" && node == "a"
    ));
}

#[test]
fn build_rejects_missing_target_port() {
    let result = build(
        vec![
            node_spec("a", vec![], vec![port("out", false)]),
            node_spec("b", vec![port("in", true)], vec![]),
        ],
        vec![edge_with_ports("e", "a", "out", "b", "nonexistent")],
    );
    assert!(matches!(
        result,
        Err(GraphBuildError::MissingPort(id, port, node))
            if id == "e" && port == "nonexistent" && node == "b"
    ));
}

#[test]
fn action_reaches_node_instance() {
    let mut engine = build(
        vec![node_spec("a", vec![], vec![port("out", false)])],
        vec![],
    )
    .unwrap();
    assert!(engine.send_action("a", NodeAction::Trigger).is_ok());
    assert!(engine.send_action("missing", NodeAction::Trigger).is_err());
    assert!(matches!(
        engine.next_message("a"),
        Some(NodeMessage::Action(NodeAction::Trigger))
    ));
}

#[test]
fn packet_has_stable_port_kind() {
    let packet = DataPacket::Json(Arc::new(JsonValue::Object(vec![])));
    assert_eq!(packet.port_kind(), Some("status.metrics"));
}

#[test]
fn latest_output_is_none_before_emit() {
    let engine = build(
        vec![node_spec("a", vec![], vec![port("out", false)])],
        vec![],
    )
    .unwrap();
    assert!(engine.latest_output("a").is_none());
    assert!(engine.latest_output("missing").is_none());
}

#[test]
fn graph_fans_out_to_all_targets() {
    let mut engine = build(
        vec![
            node_spec_with_kind("src", "emitter", vec![], vec![port("out", false)]),
            node_spec("a", vec![port("in", false)], vec![port("out", false)]),
            node_spec("b", vec![port("in", false)], vec![port("out", false)]),
        ],
        vec![
            edge_with_ports("e1", "src", "out", "a", "in"),
            edge_with_ports("e2", "src", "out", "b", "in"),
        ],
    )
    .unwrap();
    engine
        .send_action("src", NodeAction::Trigger)
        .expect("trigger src");
    run(
        &mut engine,
        &[
            ("src", "emitter", "out"),
            ("a", "passthrough", "out"),
            ("b", "passthrough", "out"),
        ],
    );
    assert!(engine.latest_output("a").is_some());
    assert!(engine.latest_output("b").is_some());
    let targets = engine.routes("src", "out");
    assert_eq!(targets.len(), 2);
    assert_eq!(targets[1].node_id, "b");
}

#[test]
fn graph_fans_in_distinct_ports() {
    let mut engine = build(
        vec![
            node_spec_with_kind("src_a", "emitter", vec![], vec![port("image", false)]),
            node_spec_with_kind("src_b", "emitter", vec![], vec![port("video", false)]),
            node_spec_with_kind(
                "t",
                "recorder",
                vec![
                    port_card("image", PortCardinality::Many, false),
                    port_card("video", PortCardinality::Many, false),
                ],
                vec![],
            ),
        ],
        vec![
            edge_with_ports("e_img", "src_a", "image", "t", "image"),
            edge_with_ports("e_vid", "src_b", "video", "t", "video"),
        ],
    )
    .unwrap();
    engine
        .send_action("src_a", NodeAction::Trigger)
        .expect("trigger src_a");
    engine
        .send_action("src_b", NodeAction::Trigger)
        .expect("trigger src_b");
    let mut got = run(
        &mut engine,
        &[
            ("src_a", "emitter", "image"),
            ("src_b", "emitter", "video"),
            ("t", "recorder", ""),
        ],
    );
    got.sort();
    assert_eq!(
        got,
        vec![
            ("image".to_owned(), "emitter".to_owned()),
            ("video".to_owned(), "emitter".to_owned()),
        ]
    );
}

fn two_sources(target: PortSpec) -> Vec<NodeSpec> {
    vec![
        node_spec("a1", vec![], vec![port("out", false)]),
        node_spec("a2", vec![], vec![port("out", false)]),
        node_spec("b", vec![target], vec![]),
    ]
}

#[test]
fn build_rejects_cardinality_violation() {
    let result = build(
        two_sources(port("in", true)),
        vec![edge("e1", "a1", "b"), edge("e2", "a2", "b")],
    );
    let err = result.as_ref().err();
    assert!(
        matches!(err, Some(GraphBuildError::CardinalityViolation { edge, node, port })
            if *node == "b" && *port == "in" && (*edge == "e1" || *edge == "e2")),
        "unexpected result: {err:?}"
    );
}

#[test]
fn add_edge_rejects_cardinality_violation_on_one_port() {
    let mut engine = build(two_sources(port("in", true)), vec![]).unwrap();
    engine
        .add_edge(edge("e1", "a1", "b"))
        .expect("first edge ok");
    let second = engine.add_edge(edge("e2", "a2", "b"));
    assert!(
        matches!(second, Err(GraphBuildError::CardinalityViolation { .. })),
        "second edge into One input must be rejected: {second:?}"
    );
}

#[test]
fn add_edge_allows_multiple_sources_into_many_port() {
    let mut engine = build(
        two_sources(port_card("in", PortCardinality::Many, false)),
        vec![],
    )
    .unwrap();
    engine.add_edge(edge("e1", "a1", "b")).expect("first ok");
    engine
        .add_edge(edge("e2", "a2", "b"))
        .expect("second ok on Many input");
}

#[test]
fn add_edge_rejects_cycle() {
    let mut engine = build(
        vec![
            node_spec("a", vec![port("in", false)], vec![port("out", false)]),
            node_spec("b", vec![port("in", false)], vec![port("out", false)]),
        ],
        vec![edge("e1", "a", "b")],
    )
    .unwrap();
    let cycle = engine.add_edge(edge_with_ports("e2", "b", "out", "a", "in"));
    assert!(
        matches!(cycle, Err(GraphBuildError::WouldCreateCycle { .. })),
        "b to a after a to b must be a cycle: {cycle:?}"
    );
    let own = engine.add_edge(edge_with_ports("e3", "a", "out", "a", "in"));
    assert!(matches!(own, Err(GraphBuildError::WouldCreateCycle { .. })));
}

#[test]
fn add_edge_rejects_a_known_edge() {
    let mut engine = build(
        two_sources(port_card("in", PortCardinality::Many, false)),
        vec![edge("e1", "a1", "b")],
    )
    .unwrap();
    assert_eq!(
        engine.add_edge(edge("e1", "a2", "b")),
        Err(GraphBuildError::DuplicateEdge("e1".to_owned()))
    );
    assert_eq!(
        engine.add_edge(edge("e2", "gone", "b")),
        Err(GraphBuildError::MissingNode("e2".to_owned(), "gone".to_owned()))
    );
}

#[test]
fn add_edge_rejects_kind_mismatch() {
    let mut source = node_spec("a", vec![], vec![port("out", false)]);
    source.outputs[0].kind = "stream.video-frame".to_owned();
    let mut engine = build(
        vec![source, node_spec("b", vec![port("in", false)], vec![])],
        vec![],
    )
    .unwrap();
    let result = engine.add_edge(edge("e1", "a", "b"));
    assert!(
        matches!(result, Err(GraphBuildError::PortKindMismatch { .. })),
        "kind mismatch must be rejected: {result:?}"
    );
}

#[test]
fn incremental_add_edge_remove_edge_drives_dataflow() {
    let mut engine = build(
        vec![
            node_spec_with_kind("src", "emitter", vec![], vec![port("out", false)]),
            node_spec("b", vec![port("in", false)], vec![port("out", false)]),
        ],
        vec![],
    )
    .unwrap();
    let actors = [("src", "emitter", "out"), ("b", "passthrough", "out")];

    engine
        .send_action("src", NodeAction::Trigger)
        .expect("trigger");
    run(&mut engine, &actors);
    assert!(engine.latest_output("b").is_none());

    engine
        .add_edge(edge_with_ports("e1", "src", "out", "b", "in"))
        .expect("add edge");
    engine
        .send_action("src", NodeAction::Trigger)
        .expect("trigger");
    run(&mut engine, &actors);
    assert!(engine.latest_output("b").is_some());

    engine.remove_edge("e1").expect("remove edge");
    assert!(engine.routes("src", "out").is_empty());
    let again = engine.remove_edge("e1");
    assert!(
        matches!(again, Err(GraphBuildError::MissingNode(..))),
        "second remove must miss: {again:?}"
    );
}

#[test]
fn edges_of_one_identity_are_all_wired() {
    let mut engine = build(
        vec![
            node_spec_with_kind("src", "emitter", vec![], vec![port("out", false)]),
            node_spec("b", vec![port("in", false)], vec![port("out", false)]),
            node_spec("c", vec![port("in", false)], vec![port("out", false)]),
        ],
        vec![edge("e1", "src", "b"), edge("e1", "src", "c")],
    )
    .unwrap();
    let targets = |engine: &GraphEngine| -> Vec<String> {
        engine
            .routes("src", "out")
            .into_iter()
            .map(|target| target.node_id)
            .collect()
    };
    assert_eq!(targets(&engine), ["b", "c"]);
    let actors = [
        ("src", "emitter", "out"),
        ("b", "passthrough", "out"),
        ("c", "passthrough", "out"),
    ];
    engine
        .send_action("src", NodeAction::Trigger)
        .expect("trigger");
    run(&mut engine, &actors);
    assert!(engine.latest_output("b").is_some());
    assert!(engine.latest_output("c").is_some());

    engine.remove_edge("e1").expect("the edge that is kept");
    assert_eq!(targets(&engine), ["b"]);
    assert!(engine.remove_edge("e1").is_err());
    assert!(engine.has_node("b"));
    engine.remove_node("b").expect("remove node");
    assert!(!engine.has_node("b"));
    assert!(engine.routes("src", "out").is_empty());
}

#[test]
fn incremental_add_remove_node_roundtrip() {
    let registry = registry(&["passthrough", "emitter"]);
    let mut engine = build_with(
        vec![node_spec_with_kind(
            "src",
            "emitter",
            vec![],
            vec![port("out", false)],
        )],
        vec![],
        &registry,
    )
    .unwrap();

    engine
        .add_node(
            node_spec("b", vec![port("in", false)], vec![port("out", false)]),
            &registry,
            None,
        )
        .expect("add node");
    let dup = engine.add_node(node_spec("b", vec![], vec![]), &registry, None);
    assert!(
        matches!(dup, Err(GraphBuildError::DuplicateNode(_))),
        "dup: {dup:?}"
    );

    engine
        .add_edge(edge_with_ports("e1", "src", "out", "b", "in"))
        .expect("add edge");
    engine
        .send_action("src", NodeAction::Trigger)
        .expect("trigger");
    run(
        &mut engine,
        &[("src", "emitter", "out"), ("b", "passthrough", "out")],
    );
    assert!(engine.latest_output("b").is_some());

    let mut mailbox = engine.remove_node("b").expect("remove node");
    assert!(matches!(mailbox.try_recv(), Some(NodeMessage::Stop)));
    let missing = engine.send_action("b", NodeAction::Trigger);
    assert!(
        matches!(missing, Err(NodeError::Precondition(_))),
        "b must be gone: {missing:?}"
    );
    assert!(engine.routes("src", "out").is_empty());
}

#[test]
fn update_node_replaces_config() {
    let mut engine = build(vec![node_spec("a", vec![], vec![])], vec![]).unwrap();
    engine
        .update_node(
            "a",
            JsonValue::Object(vec![JsonMember::new("url", JsonValue::string("rtsp://x"))]),
        )
        .expect("update");
    engine
        .update_node("missing", JsonValue::Object(vec![]))
        .expect_err("missing node must err");
}

#[test]
fn a_full_mailbox_refuses_the_packet_but_not_its_neighbours() {
    let mut engine = build(
        vec![
            node_spec_with_kind("src", "emitter", vec![], vec![port("out", false)]),
            node_spec("a", vec![port("in", false)], vec![]),
            node_spec("b", vec![port("in", false)], vec![]),
        ],
        vec![edge("e1", "src", "a"), edge("e2", "src", "b")],
    )
    .unwrap();
    let mut sent = 0;
    while engine.dispatch("src", "out", json("x")).is_ok() {
        engine.next_message("b").expect("delivered to b");
        sent += 1;
    }
    assert!(sent > 0);
    assert!(engine.next_message("b").is_some(), "b still got the last one");
}

fn frame() -> DecodedVideoFrame {
    DecodedVideoFrame {
        width: 1,
        height: 1,
        rgba: vec![0; 4],
        identity: StreamFrameIdentity {
            stream_id: StreamSessionId::new("s").unwrap(),
            channel: 0,
            frame_sequence: 3,
            source_pts: SourcePts::Unavailable {
                reason: "none".to_owned(),
            },
            host_monotonic_time_ns: 0,
            device_timestamp_ns: None,
        },
    }
}

#[test]
fn viewers_show_their_last_frame() {
    let mut engine = build(
        vec![
            node_spec_with_kind("v2", "viewer", vec![], vec![]),
            node_spec_with_kind("v1", "viewer", vec![], vec![]),
            node_spec("a", vec![], vec![]),
        ],
        vec![],
    )
    .unwrap();
    assert_eq!(engine.viewer_node_ids(), ["v1", "v2"]);
    assert!(engine.viewer_frame("v1").is_none());
    engine.show_frame("v1", Arc::new(frame()));
    engine.show_frame("a", Arc::new(frame()));
    assert_eq!(engine.viewer_frame("v1").unwrap().identity.frame_sequence, 3);
    assert!(engine.viewer_frame("a").is_none());
    assert!(engine.viewer_frame("v2").is_none());
}

#[test]
fn stopping_closes_every_mailbox_once() {
    let mut engine = build(vec![node_spec("a", vec![], vec![])], vec![]).unwrap();
    engine.stop();
    engine.stop();
    assert!(matches!(engine.next_message("a"), Some(NodeMessage::Stop)));
    assert!(engine.next_message("a").is_none());
    assert_eq!(
        engine.send_action("a", NodeAction::Trigger),
        Err(NodeError::Execution("node `a` mailbox closed".to_owned()))
    );
}

#[test]
fn a_node_added_after_the_stop_takes_actions() {
    let mut registry = NodeRegistry::new();
    registry.register("passthrough");
    let mut engine = build(vec![node_spec("a", vec![], vec![])], vec![]).unwrap();
    engine.stop();
    engine
        .add_node(node_spec("late", vec![], vec![]), &registry, None)
        .expect("add node");
    engine
        .send_action("late", NodeAction::Trigger)
        .expect("the new mailbox is open");
    assert!(matches!(
        engine.next_message("late"),
        Some(NodeMessage::Action(NodeAction::Trigger))
    ));
    assert!(engine.send_action("a", NodeAction::Trigger).is_err());
}

#[test]
fn an_output_has_room_until_a_target_is_full() {
    let mut engine = build(
        vec![
            node_spec_with_kind("src", "emitter", vec![], vec![port("out", false)]),
            node_spec("a", vec![port("in", false)], vec![]),
        ],
        vec![edge("e1", "src", "a")],
    )
    .unwrap();
    assert!(engine.has_room("src", "out"));
    while engine.has_room("src", "out") {
        engine.dispatch("src", "out", json("x")).expect("delivered");
    }
    assert!(engine.dispatch("src", "out", json("x")).is_err());
    engine.next_message("a").expect("one input taken");
    assert!(engine.has_room("src", "out"));
}

#[test]
fn reports_and_events_come_out_once_in_order() {
    let mut engine = build(vec![node_spec("a", vec![], vec![])], vec![]).unwrap();
    engine.drain_status();
    engine.report_state("a", NodeRuntimeState::Running, "one");
    engine.report_state("a", NodeRuntimeState::Error, "two");
    engine.report_event("a", "seen");
    let messages: Vec<String> = engine
        .drain_status()
        .into_iter()
        .map(|report| report.message)
        .collect();
    assert_eq!(messages, ["one", "two"]);
    assert_eq!(engine.drain_events().len(), 1);
    assert!(engine.drain_events().is_empty());
}

#[test]
fn graph_errors_have_texts() {
    assert_eq!(
        GraphBuildError::UnknownKind("x".to_owned()).describe(),
        "unknown node kind `x`"
    );
    assert_eq!(
        NodeError::Config("x".to_owned()).describe(),
        "node config error: x"
    );
    assert_eq!(
        GraphBuildError::MissingPort("e".to_owned(), "p".to_owned(), "n".to_owned()).describe(),
        "edge `e` references missing port `p` on node `n`"
    );
    assert_eq!(
        GraphBuildError::CardinalityViolation {
            edge: "e".to_owned(),
            node: "n".to_owned(),
            port: "p".to_owned()
        }
        .describe(),
        "edge `e` connects a second source into cardinality=One input `n:p`"
    );
}

#[test]
fn actors_report_what_their_nodes_refuse() {
    let spec = node_spec_with_kind("n1", "viewer", vec![], vec![]);
    assert_eq!(actor_name(&spec), "node-viewer-n1");
    let mut rt = NodeRuntime::new(EngineServices::default());
    report_start(Ok(()), &mut rt);
    report_input("in", Ok(()), &mut rt);
    report_action(Ok(()), &mut rt);
    report_stop(Ok(()), &mut rt);
    assert!(rt.log.is_empty());
    report_start(Err(NodeError::execution("x")), &mut rt);
    report_input("in", Err(NodeError::execution("x")), &mut rt);
    report_action(Err(NodeError::execution("x")), &mut rt);
    report_stop(Err(NodeError::execution("x")), &mut rt);
    let reason = NodeError::execution("x").describe();
    assert!(matches!(
        &rt.log[0],
        RuntimeEffect::State { state: NodeRuntimeState::Error, message } if *message == reason
    ));
    let texts: Vec<String> = rt.log[1..]
        .iter()
        .map(|effect| match effect {
            RuntimeEffect::Event { parts } => match parts.as_slice() {
                [EventPart::Text(text)] => text.clone(),
                other => panic!("unexpected event {other:?}"),
            },
            other => panic!("unexpected effect {other:?}"),
        })
        .collect();
    assert_eq!(
        texts,
        [
            format!("input on `in` failed: {reason}"),
            format!("action failed: {reason}"),
            format!("stop failed: {reason}"),
        ]
    );
}
