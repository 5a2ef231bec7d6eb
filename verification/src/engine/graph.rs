//! The graph: nodes, the edges between them, and what waits in the nodes' mailboxes.
use crate::engine::channel::{
    create_mailbox, empty_mailbox, ChannelFull, Mailbox, MailboxState, MessageView, NodeMessage,
};
use crate::engine::graph_laws::{
    law_adding_a_node_keeps_consistency, law_adding_an_edge_keeps_consistency,
    law_built_graph_is_consistent, law_removing_a_node_keeps_consistency,
    law_removing_an_edge_keeps_consistency, law_updating_a_node_keeps_consistency,
};
use crate::engine::kinds::VIEWER;
use crate::engine::node::{channel_full, NodeAction, NodeError, NodeErrorView};
use crate::engine::packet::{DataPacket, DecodedVideoFrame, PacketView};
use crate::engine::registry::{named, NodeRegistry};
use crate::engine::spec::{
    event_views, report_views, EventView, NodeEvent, NodeRuntimeState, NodeSpec, NodeStatusReport,
    NodeView, ReportView,
};
use crate::engine::topology::{
    closes_cycle, edge_fault, edge_index, edge_views, find_edge, find_node, initial_state,
    lemma_edge_index, lemma_node_index, node_index, node_views, nodes_distinct, validate_edge,
    wired_message, wired_state, would_create_cycle, EdgeSpec, EdgeView, EndpointView,
    GraphBuildError, GraphErrorView, PortEndpoint,
};
use crate::json::JsonValue;
use crate::text::{
    at_most, concat3, lemma_bytes_at_most_total, lemma_bytes_at_most_transitive, same_text,
    text_at_most, texts,
};
use std::sync::Arc;
use vstd::prelude::*;
use vstd::utf8::encode_utf8;

verus! {

/// The graph that an engine is built from.
#[derive(Debug)]
pub struct GraphSpec {
    pub nodes: Vec<NodeSpec>,
    pub edges: Vec<EdgeSpec>,
}

/// The number of inputs that may wait for one node.
pub const MAILBOX_INPUTS: usize = 4;

/// What the engine keeps for a node beside its specification.
pub struct NodeSlot {
    pub mailbox: Mailbox,
    pub latest: Option<DataPacket>,
    pub frame: Option<Arc<DecodedVideoFrame>>,
}

/// A slot by its values.
pub struct SlotView {
    pub mailbox: MailboxState,
    pub latest: Option<PacketView>,
    pub frame: Option<DecodedVideoFrame>,
}

impl View for NodeSlot {
    type V = SlotView;

    open spec fn view(&self) -> SlotView {
        SlotView {
            mailbox: self.mailbox@,
            latest: match self.latest {
                Some(packet) => Some(packet@),
                None => None,
            },
            frame: match self.frame {
                Some(frame) => Some(*frame),
                None => None,
            },
        }
    }
}

/// Slots by their values.
pub open spec fn slot_views(slots: Seq<NodeSlot>) -> Seq<SlotView> {
    slots.map_values(|slot: NodeSlot| slot@)
}

/// The slot of a node that was told to stop.
pub open spec fn stopped_slot(slot: SlotView) -> SlotView {
    SlotView { mailbox: slot.mailbox.stopped(), ..slot }
}

/// The slot of a node that was just added.
pub open spec fn fresh_slot() -> SlotView {
    SlotView { mailbox: empty_mailbox(MAILBOX_INPUTS), latest: None, frame: None }
}

/// An engine by its values. The edges are kept by identity. The wires are the edges that packets
/// travel along, in the order in which they were connected; where a graph was built from several
/// edges of one identity, every one of them is a wire.
#[verifier::ext_equal]
pub struct GraphState {
    pub nodes: Seq<NodeView>,
    pub slots: Seq<SlotView>,
    pub edges: Seq<EdgeView>,
    pub wires: Seq<EdgeView>,
    pub reports: Seq<ReportView>,
    pub events: Seq<EventView>,
}

/// What is reported of a node that was just wired.
pub open spec fn wired_report(node: NodeView, edges: Seq<EdgeView>) -> ReportView {
    ReportView {
        node: node.id,
        state: wired_state(node, edges),
        message: wired_message(node, edges),
    }
}

/// Why one of the nodes cannot stand in a graph: the first unknown kind or failed instance.
pub open spec fn node_fault(
    nodes: Seq<NodeView>,
    kinds: Seq<Seq<char>>,
    failures: Seq<Option<NodeErrorView>>,
) -> Option<GraphErrorView>
    decreases nodes.len(),
{
    if nodes.len() == 0 {
        None
    } else {
        match node_fault(nodes.drop_last(), kinds, failures) {
            Some(fault) => Some(fault),
            None => instance_fault(nodes.last(), kinds, failures[nodes.len() - 1]),
        }
    }
}

/// Why a node cannot stand in a graph.
pub open spec fn instance_fault(
    node: NodeView,
    kinds: Seq<Seq<char>>,
    failure: Option<NodeErrorView>,
) -> Option<GraphErrorView> {
    if !named(kinds, node.kind) {
        Some(GraphErrorView::UnknownKind(node.kind))
    } else {
        match failure {
            Some(error) => Some(GraphErrorView::Instantiate(node.id, error)),
            None => None,
        }
    }
}

/// Why the edges cannot stand in a graph: the first one that fails beside those before it.
pub open spec fn edges_fault(nodes: Seq<NodeView>, edges: Seq<EdgeView>) -> Option<GraphErrorView>
    decreases edges.len(),
{
    if edges.len() == 0 {
        None
    } else {
        match edges_fault(nodes, edges.drop_last()) {
            Some(fault) => Some(fault),
            None => edge_fault(edges.last(), nodes, edges.drop_last()),
        }
    }
}

/// Why a graph cannot be built.
pub open spec fn build_fault(
    nodes: Seq<NodeView>,
    edges: Seq<EdgeView>,
    kinds: Seq<Seq<char>>,
    failures: Seq<Option<NodeErrorView>>,
) -> Option<GraphErrorView> {
    match node_fault(nodes, kinds, failures) {
        Some(fault) => Some(fault),
        None => edges_fault(nodes, edges),
    }
}

/// The edges with one more; an edge of the same identity makes way for it.
pub open spec fn edge_inserted(edges: Seq<EdgeView>, edge: EdgeView) -> Seq<EdgeView> {
    match edge_index(edges, edge.id) {
        Some(i) => edges.update(i, edge),
        None => edges.push(edge),
    }
}

/// Edges by identity: of several with the same identity the last one counts.
pub open spec fn keyed(edges: Seq<EdgeView>) -> Seq<EdgeView>
    decreases edges.len(),
{
    if edges.len() == 0 {
        Seq::empty()
    } else {
        edge_inserted(keyed(edges.drop_last()), edges.last())
    }
}

/// The reports of nodes that were just wired.
pub open spec fn wired_reports(nodes: Seq<NodeView>, edges: Seq<EdgeView>) -> Seq<ReportView> {
    nodes.map_values(|node: NodeView| wired_report(node, edges))
}

/// The engine that is built from nodes and edges.
pub open spec fn built(nodes: Seq<NodeView>, edges: Seq<EdgeView>) -> GraphState {
    GraphState {
        nodes,
        slots: Seq::new(nodes.len(), |i: int| fresh_slot()),
        edges: keyed(edges),
        wires: edges,
        reports: wired_reports(nodes, edges),
        events: Seq::empty(),
    }
}

/// Whether an edge starts or ends at a node.
pub open spec fn touches(edge: EdgeView, node: Seq<char>) -> bool {
    edge.source.node == node || edge.target.node == node
}

/// The edges that neither start nor end at a node.
pub open spec fn edges_without(edges: Seq<EdgeView>, node: Seq<char>) -> Seq<EdgeView>
    decreases edges.len(),
{
    if edges.len() == 0 {
        Seq::empty()
    } else {
        let rest = edges_without(edges.drop_last(), node);
        if touches(edges.last(), node) {
            rest
        } else {
            rest.push(edges.last())
        }
    }
}

/// The wires but for those of an edge.
pub open spec fn wires_cut(wires: Seq<EdgeView>, edge: EdgeView) -> Seq<EdgeView>
    decreases wires.len(),
{
    if wires.len() == 0 {
        Seq::empty()
    } else {
        let rest = wires_cut(wires.drop_last(), edge);
        if wires.last() == edge {
            rest
        } else {
            rest.push(wires.last())
        }
    }
}

/// Where packets of an output port go: the targets of its wires.
pub open spec fn routes(wires: Seq<EdgeView>, source: EndpointView) -> Seq<EndpointView>
    decreases wires.len(),
{
    if wires.len() == 0 {
        Seq::empty()
    } else {
        let rest = routes(wires.drop_last(), source);
        if wires.last().source == source {
            rest.push(wires.last().target)
        } else {
            rest
        }
    }
}

/// A mailbox that was offered an input: it takes it, or is full or closed and drops it.
pub open spec fn offered(mailbox: MailboxState, port: Seq<char>, packet: PacketView)
    -> MailboxState {
    if mailbox.takes(MessageView::Input { port, packet }) {
        mailbox.queued(MessageView::Input { port, packet })
    } else {
        mailbox
    }
}

/// The slots after a packet was offered to each of some targets in turn.
pub open spec fn offered_all(
    nodes: Seq<NodeView>,
    slots: Seq<SlotView>,
    targets: Seq<EndpointView>,
    packet: PacketView,
) -> Seq<SlotView>
    decreases targets.len(),
{
    if targets.len() == 0 {
        slots
    } else {
        let before = offered_all(nodes, slots, targets.drop_last(), packet);
        let target = targets.last();
        match node_index(nodes, target.node) {
            Some(i) => before.update(
                i,
                SlotView { mailbox: offered(before[i].mailbox, target.port, packet), ..before[i] },
            ),
            None => before,
        }
    }
}

/// Whether one of the targets was full or closed when its turn came.
pub open spec fn refused(
    nodes: Seq<NodeView>,
    slots: Seq<SlotView>,
    targets: Seq<EndpointView>,
    packet: PacketView,
) -> bool
    decreases targets.len(),
{
    if targets.len() == 0 {
        false
    } else {
        let before = offered_all(nodes, slots, targets.drop_last(), packet);
        refused(nodes, slots, targets.drop_last(), packet) || match node_index(
            nodes,
            targets.last().node,
        ) {
            Some(i) => before[i].mailbox.closed || before[i].mailbox.full(),
            None => false,
        }
    }
}

impl GraphState {
    /// The slot of a node.
    pub open spec fn slot(self, node: Seq<char>) -> Option<SlotView> {
        match node_index(self.nodes, node) {
            Some(i) => Some(self.slots[i]),
            None => None,
        }
    }

    /// Whether an input port takes a packet.
    pub open spec fn open(self, target: EndpointView) -> bool {
        match node_index(self.nodes, target.node) {
            Some(i) => !self.slots[i].mailbox.closed && !self.slots[i].mailbox.full(),
            None => true,
        }
    }

    /// Whether every one of some input ports takes a packet.
    pub open spec fn all_open(self, targets: Seq<EndpointView>) -> bool {
        forall|k: int| 0 <= k < targets.len() ==> self.open(#[trigger] targets[k])
    }

    /// A node has been added and reported.
    pub open spec fn with_node(self, node: NodeView) -> GraphState {
        GraphState {
            nodes: self.nodes.push(node),
            slots: self.slots.push(fresh_slot()),
            reports: self.reports.push(wired_report(node, self.edges)),
            ..self
        }
    }

    /// A node is gone, and with it the edges and wires that touched it.
    pub open spec fn without_node(self, i: int) -> GraphState {
        GraphState {
            nodes: self.nodes.remove(i),
            slots: self.slots.remove(i),
            edges: edges_without(self.edges, self.nodes[i].id),
            wires: edges_without(self.wires, self.nodes[i].id),
            ..self
        }
    }

    /// An edge has been added and wired.
    pub open spec fn with_edge(self, edge: EdgeView) -> GraphState {
        GraphState { edges: self.edges.push(edge), wires: self.wires.push(edge), ..self }
    }

    /// An edge is gone, and no packet travels along it any more.
    pub open spec fn without_edge(self, i: int) -> GraphState {
        GraphState {
            edges: self.edges.remove(i),
            wires: wires_cut(self.wires, self.edges[i]),
            ..self
        }
    }

    /// Why a node cannot be added.
    pub open spec fn add_node_fault(
        self,
        node: NodeView,
        kinds: Seq<Seq<char>>,
        failure: Option<NodeErrorView>,
    ) -> Option<GraphErrorView> {
        if node_index(self.nodes, node.id) is Some {
            Some(GraphErrorView::DuplicateNode(node.id))
        } else {
            instance_fault(node, kinds, failure)
        }
    }

    /// Why an edge cannot be added.
    pub open spec fn add_edge_fault(self, edge: EdgeView) -> Option<GraphErrorView> {
        if edge_index(self.edges, edge.id) is Some {
            Some(GraphErrorView::DuplicateEdge(edge.id))
        } else if edge_fault(edge, self.nodes, self.edges) is Some {
            edge_fault(edge, self.nodes, self.edges)
        } else if closes_cycle(self.edges, edge) {
            Some(GraphErrorView::WouldCreateCycle { edge: edge.id })
        } else {
            None
        }
    }

    /// Every node has been told to stop.
    pub open spec fn stopped(self) -> GraphState {
        GraphState { slots: self.slots.map_values(|slot: SlotView| stopped_slot(slot)), ..self }
    }

    /// The slot of a node has been changed.
    pub open spec fn with_slot(self, i: int, slot: SlotView) -> GraphState {
        GraphState { slots: self.slots.update(i, slot), ..self }
    }
}

/// The texts of failures by their values.
pub open spec fn failure_views(failures: Seq<Option<NodeError>>) -> Seq<Option<NodeErrorView>> {
    failures.map_values(
        |failure: Option<NodeError>|
            match failure {
                Some(error) => Some(error@),
                None => None,
            },
    )
}

/// A running graph.
pub struct GraphEngine {
    specs: Vec<NodeSpec>,
    slots: Vec<NodeSlot>,
    edges: Vec<EdgeSpec>,
    wires: Vec<EdgeSpec>,
    reports: Vec<NodeStatusReport>,
    events: Vec<NodeEvent>,
}

impl View for GraphEngine {
    type V = GraphState;

    closed spec fn view(&self) -> GraphState {
        GraphState {
            nodes: node_views(self.specs@),
            slots: slot_views(self.slots@),
            edges: edge_views(self.edges@),
            wires: edge_views(self.wires@),
            reports: report_views(self.reports@),
            events: event_views(self.events@),
        }
    }
}

/// Checks the nodes in order: each kind must be known and each instance must have come up.
fn check_nodes(
    nodes: &Vec<NodeSpec>,
    registry: &NodeRegistry,
    failures: Vec<Option<NodeError>>,
) -> (r: Result<(), GraphBuildError>)
    requires
        failures@.len() == nodes@.len(),
    ensures
        match node_fault(node_views(nodes@), registry@, failure_views(failures@)) {
            Some(fault) => r is Err && r->Err_0@ == fault,
            None => r is Ok,
        },
{
    let ghost views = node_views(nodes@);
    let ghost given = failures@;
    let ghost errors = failure_views(failures@);
    let mut rest: Vec<Option<NodeError>> = failures;
    let mut i: usize = 0;
    proof {
        assert(views.take(0) =~= Seq::<NodeView>::empty());
    }
    while i < nodes.len()
        invariant
            i <= nodes@.len() == views.len(),
            rest@.len() == nodes@.len() - i,
            given == failures@,
            given.len() == nodes@.len(),
            views == node_views(nodes@),
            errors == failure_views(given),
            forall|j: int| 0 <= j < rest@.len() ==> #[trigger] rest@[j] == given[i + j],
            node_fault(views.take(i as int), registry@, errors) is None,
        decreases nodes@.len() - i,
    {
        let ghost next = views.take(i + 1);
        proof {
            assert(next.drop_last() =~= views.take(i as int));
            assert(next.last() == nodes@[i as int]@);
            assert(rest@[0] == given[i as int]);
        }
        let failure: Option<NodeError> = rest.remove(0);
        proof {
            if node_fault(next, registry@, errors) is Some {
                lemma_node_fault_persists(views, registry@, errors, i + 1);
            }
        }
        if !registry.contains(nodes[i].kind.as_str()) {
            return Err(GraphBuildError::UnknownKind(nodes[i].kind.clone()));
        }
        match failure {
            Some(error) => {
                return Err(GraphBuildError::Instantiate(nodes[i].id.clone(), error));
            },
            None => {},
        }
        i = i + 1;
    }
    proof {
        assert(views.take(i as int) =~= views);
    }
    Ok(())
}

proof fn lemma_node_fault_persists(
    nodes: Seq<NodeView>,
    kinds: Seq<Seq<char>>,
    failures: Seq<Option<NodeErrorView>>,
    i: int,
)
    requires
        0 <= i <= nodes.len(),
        node_fault(nodes.take(i), kinds, failures) is Some,
    ensures
        node_fault(nodes, kinds, failures) == node_fault(nodes.take(i), kinds, failures),
    decreases nodes.len() - i,
{
    if i < nodes.len() {
        let next = nodes.take(i + 1);
        assert(next.drop_last() =~= nodes.take(i));
        lemma_node_fault_persists(nodes, kinds, failures, i + 1);
    } else {
        assert(nodes.take(i) =~= nodes);
    }
}

proof fn lemma_edges_fault_persists(nodes: Seq<NodeView>, edges: Seq<EdgeView>, i: int)
    requires
        0 <= i <= edges.len(),
        edges_fault(nodes, edges.take(i)) is Some,
    ensures
        edges_fault(nodes, edges) == edges_fault(nodes, edges.take(i)),
    decreases edges.len() - i,
{
    if i < edges.len() {
        let next = edges.take(i + 1);
        assert(next.drop_last() =~= edges.take(i));
        lemma_edges_fault_persists(nodes, edges, i + 1);
    } else {
        assert(edges.take(i) =~= edges);
    }
}

/// Checks the edges in order, each beside those before it.
fn check_edges(nodes: &Vec<NodeSpec>, edges: &Vec<EdgeSpec>) -> (r: Result<(), GraphBuildError>)
    ensures
        match edges_fault(node_views(nodes@), edge_views(edges@)) {
            Some(fault) => r is Err && r->Err_0@ == fault,
            None => r is Ok,
        },
{
    let ghost views = edge_views(edges@);
    let mut i: usize = 0;
    proof {
        assert(views.take(0) =~= Seq::<EdgeView>::empty());
    }
    while i < edges.len()
        invariant
            i <= edges@.len() == views.len(),
            views == edge_views(edges@),
            edges_fault(node_views(nodes@), views.take(i as int)) is None,
        decreases edges@.len() - i,
    {
        let ghost next = views.take(i + 1);
        proof {
            assert(next.drop_last() =~= views.take(i as int));
            assert(next.last() == edges@[i as int]@);
        }
        match validate_edge(&edges[i], nodes, edges, i) {
            Err(error) => {
                proof {
                    lemma_edges_fault_persists(node_views(nodes@), views, i + 1);
                }
                return Err(error);
            },
            Ok(()) => {},
        }
        i = i + 1;
    }
    proof {
        assert(views.take(i as int) =~= views);
    }
    Ok(())
}

/// Puts an edge among others by its identity.
fn insert_edge(edges: &mut Vec<EdgeSpec>, edge: EdgeSpec)
    ensures
        edge_views(final(edges)@) == edge_inserted(edge_views(old(edges)@), edge@),
{
    let ghost before = edge_views(edges@);
    proof {
        lemma_edge_index(before, edge@.id);
    }
    match find_edge(edges, edge.id.as_str()) {
        Some(i) => {
            edges.set(i, edge);
            proof {
                assert(edge_views(edges@) =~= before.update(i as int, edge@));
            }
        },
        None => {
            edges.push(edge);
            proof {
                assert(edge_views(edges@) =~= before.push(edge@));
            }
        },
    }
}

/// Keeps of several edges with the same identity the last one.
fn key_edges(mut edges: Vec<EdgeSpec>) -> (r: Vec<EdgeSpec>)
    ensures
        edge_views(r@) == keyed(edge_views(edges@)),
{
    let ghost given = edges@;
    let ghost views = edge_views(edges@);
    let mut r: Vec<EdgeSpec> = Vec::new();
    let ghost mut done: int = 0;
    proof {
        assert(views.take(0) =~= Seq::<EdgeView>::empty());
        assert(edge_views(r@) =~= Seq::<EdgeView>::empty());
    }
    while edges.len() > 0
        invariant
            0 <= done <= given.len(),
            done + edges@.len() == given.len(),
            views == edge_views(given),
            edges@ == given.skip(done),
            edge_views(r@) == keyed(views.take(done)),
        decreases edges@.len(),
    {
        let ghost next = views.take(done + 1);
        let edge: EdgeSpec = edges.remove(0);
        proof {
            assert(next.drop_last() =~= views.take(done));
            assert(next.last() == edge@);
            assert(edges@ =~= given.skip(done + 1));
        }
        insert_edge(&mut r, edge);
        proof {
            done = done + 1;
        }
    }
    proof {
        assert(views.take(done) =~= views);
    }
    r
}

fn copy_edges(edges: &Vec<EdgeSpec>) -> (r: Vec<EdgeSpec>)
    ensures
        r@ == edges@,
{
    let mut r: Vec<EdgeSpec> = Vec::new();
    let mut i: usize = 0;
    while i < edges.len()
        invariant
            i <= edges@.len(),
            r@ == edges@.take(i as int),
        decreases edges@.len() - i,
    {
        r.push(edges[i].clone());
        proof {
            assert(r@ =~= edges@.take(i + 1));
        }
        i = i + 1;
    }
    proof {
        assert(edges@.take(i as int) =~= edges@);
    }
    r
}

/// Makes the slot of a new node.
fn new_slot() -> (r: NodeSlot)
    ensures
        r@ == fresh_slot(),
        r.mailbox.wf(),
{
    NodeSlot { mailbox: create_mailbox(MAILBOX_INPUTS), latest: None, frame: None }
}

/// What a node that was just wired reports.
fn report_wired(node: &NodeSpec, edges: &Vec<EdgeSpec>) -> (r: NodeStatusReport)
    ensures
        r@ == wired_report(node@, edge_views(edges@)),
{
    let (state, message): (NodeRuntimeState, String) = initial_state(node, edges);
    NodeStatusReport { node_id: node.id.clone(), state, message }
}

impl GraphEngine {
    /// Every node has one slot, nodes and edges fit together, and every mailbox keeps its bound.
    pub closed spec fn wf(&self) -> bool {
        &&& self.specs@.len() == self.slots@.len()
        &&& self@.consistent()
        &&& forall|i: int| 0 <= i < self.slots@.len() ==> (#[trigger] self.slots@[i]).mailbox.wf()
    }

    /// What a well-formed engine keeps.
    pub proof fn lemma_wf(&self)
        requires
            self.wf(),
        ensures
            self@.nodes.len() == self@.slots.len(),
            self@.consistent(),
            forall|i: int|
                0 <= i < self@.slots.len() ==> (#[trigger] self@.slots[i]).mailbox.bounded(),
    {
        assert forall|i: int| 0 <= i < self@.slots.len() implies (
        #[trigger] self@.slots[i]).mailbox.bounded() by {
            self.slots@[i].mailbox.lemma_wf();
        }
    }

    /// Builds a graph. `failures` tells for each node why its instance did not come up, if so.
    /// Nodes are checked before edges, both in order. Every edge is wired; of several edges with one
    /// identity the last one is kept under it. Two nodes of one identity cannot be told
    /// apart, so a graph that passes the checks must not hold them.
    pub fn build(
        spec: GraphSpec,
        registry: &NodeRegistry,
        failures: Vec<Option<NodeError>>,
    ) -> (r: Result<GraphEngine, GraphBuildError>)
        requires
            failures@.len() == spec.nodes@.len(),
            build_fault(
                node_views(spec.nodes@),
                edge_views(spec.edges@),
                registry@,
                failure_views(failures@),
            ) is None ==> nodes_distinct(node_views(spec.nodes@)),
        ensures
            match build_fault(
                node_views(spec.nodes@),
                edge_views(spec.edges@),
                registry@,
                failure_views(failures@),
            ) {
                Some(fault) => r is Err && r->Err_0@ == fault,
                None => r is Ok && r->Ok_0.wf() && r->Ok_0@ == built(
                    node_views(spec.nodes@),
                    edge_views(spec.edges@),
                ),
            },
    {
        let GraphSpec { nodes, edges } = spec;
        match check_nodes(&nodes, registry, failures) {
            Err(error) => {
                return Err(error);
            },
            Ok(()) => {},
        }
        match check_edges(&nodes, &edges) {
            Err(error) => {
                return Err(error);
            },
            Ok(()) => {},
        }
        let ghost views = node_views(nodes@);
        let mut slots: Vec<NodeSlot> = Vec::new();
        let mut reports: Vec<NodeStatusReport> = Vec::new();
        let mut i: usize = 0;
        while i < nodes.len()
            invariant
                i <= nodes@.len(),
                views == node_views(nodes@),
                slots@.len() == i,
                reports@.len() == i,
                forall|j: int|
                    0 <= j < i ==> (#[trigger] slots@[j])@ == fresh_slot()
                        && slots@[j].mailbox.wf(),
                forall|j: int|
                    0 <= j < i ==> (#[trigger] reports@[j])@ == wired_report(
                        views[j],
                        edge_views(edges@),
                    ),
            decreases nodes@.len() - i,
        {
            slots.push(new_slot());
            reports.push(report_wired(&nodes[i], &edges));
            i = i + 1;
        }
        let ghost all_edges = edge_views(edges@);
        let wires: Vec<EdgeSpec> = copy_edges(&edges);
        let edges: Vec<EdgeSpec> = key_edges(edges);
        let engine = GraphEngine {
            specs: nodes,
            slots,
            edges,
            wires,
            reports,
            events: Vec::new(),
        };
        proof {
            assert(engine@.slots =~= built(views, all_edges).slots);
            assert(engine@.reports =~= built(views, all_edges).reports);
            assert(engine@.events =~= built(views, all_edges).events);
            law_built_graph_is_consistent(views, all_edges, registry@, failure_views(failures@));
        }
        Ok(engine)
    }

    /// Whether the graph has a node of an identity.
    pub fn has_node(&self, node_id: &str) -> (r: bool)
        ensures
            r == (node_index(self@.nodes, node_id@) is Some),
    {
        find_node(&self.specs, node_id).is_some()
    }

    /// Queues an action for a node.
    pub fn send_action(&mut self, node_id: &str, action: NodeAction) -> (r: Result<(), NodeError>)
        requires
            old(self).wf(),
        ensures
            final(self).wf(),
            match node_index(old(self)@.nodes, node_id@) {
                None => r is Err && r->Err_0@ == NodeErrorView::Precondition(
                    "node `"@ + node_id@ + "` not found"@,
                ) && final(self)@ == old(self)@,
                Some(i) => if old(self)@.slots[i].mailbox.closed {
                    r is Err && r->Err_0@ == NodeErrorView::Execution(
                        "node `"@ + node_id@ + "` mailbox closed"@,
                    ) && final(self)@ == old(self)@
                } else {
                    r is Ok && final(self)@ == old(self)@.with_slot(
                        i,
                        SlotView {
                            mailbox: old(self)@.slots[i].mailbox.queued(
                                MessageView::Action(action),
                            ),
                            ..old(self)@.slots[i]
                        },
                    )
                },
            },
    {
        match find_node(&self.specs, node_id) {
            None => Err(NodeError::Precondition(concat3("node `", node_id, "` not found"))),
            Some(i) => {
                let ghost before = self@;
                let sent: Result<(), ChannelFull> = self.slots[i].mailbox.send(
                    NodeMessage::Action(action),
                );
                if sent.is_err() {
                    proof {
                        assert(self@.slots =~= before.slots);
                    }
                    return Err(
                        NodeError::Execution(concat3("node `", node_id, "` mailbox closed")),
                    );
                }
                proof {
                    assert(self@.slots =~= before.slots.update(
                        i as int,
                        SlotView {
                            mailbox: before.slots[i as int].mailbox.queued(
                                MessageView::Action(action),
                            ),
                            ..before.slots[i as int]
                        },
                    ));
                }
                Ok(())
            },
        }
    }

    /// Takes the next message of a node.
    pub fn next_message(&mut self, node_id: &str) -> (r: Option<NodeMessage>)
        requires
            old(self).wf(),
        ensures
            final(self).wf(),
            match node_index(old(self)@.nodes, node_id@) {
                None => r is None && final(self)@ == old(self)@,
                Some(i) => {
                    let slot = old(self)@.slots[i];
                    if slot.mailbox.queue.len() == 0 {
                        r is None && final(self)@ == old(self)@
                    } else {
                        r is Some && r->Some_0@ == slot.mailbox.queue[0] && final(self)@ == old(self)@.with_slot(
                            i,
                            SlotView {
                                mailbox: MailboxState {
                                    queue: slot.mailbox.queue.drop_first(),
                                    ..slot.mailbox
                                },
                                ..slot
                            },
                        )
                    }
                },
            },
    {
        match find_node(&self.specs, node_id) {
            None => None,
            Some(i) => {
                let ghost before = self@;
                let message: Option<NodeMessage> = self.slots[i].mailbox.try_recv();
                proof {
                    let slot = before.slots[i as int];
                    if slot.mailbox.queue.len() == 0 {
                        assert(self@.slots =~= before.slots);
                    } else {
                        assert(self@.slots =~= before.slots.update(
                            i as int,
                            SlotView {
                                mailbox: MailboxState {
                                    queue: slot.mailbox.queue.drop_first(),
                                    ..slot.mailbox
                                },
                                ..slot
                            },
                        ));
                    }
                }
                message
            },
        }
    }

    /// Where packets of an output port go.
    pub fn routes(&self, node_id: &str, port_id: &str) -> (r: Vec<PortEndpoint>)
        ensures
            r@.map_values(|target: PortEndpoint| target@) == routes(
                self@.wires,
                EndpointView { node: node_id@, port: port_id@ },
            ),
    {
        let ghost views = edge_views(self.wires@);
        let ghost source = EndpointView { node: node_id@, port: port_id@ };
        let mut r: Vec<PortEndpoint> = Vec::new();
        let mut i: usize = 0;
        proof {
            assert(views.take(0) =~= Seq::<EdgeView>::empty());
            assert(r@.map_values(|target: PortEndpoint| target@) =~= Seq::<EndpointView>::empty());
        }
        while i < self.wires.len()
            invariant
                i <= self.wires@.len() == views.len(),
                views == edge_views(self.wires@),
                source == (EndpointView { node: node_id@, port: port_id@ }),
                r@.map_values(|target: PortEndpoint| target@) == routes(
                    views.take(i as int),
                    source,
                ),
            decreases self.wires@.len() - i,
        {
            let edge: &EdgeSpec = &self.wires[i];
            let ghost next = views.take(i + 1);
            let ghost before = r@.map_values(|target: PortEndpoint| target@);
            proof {
                assert(next.drop_last() =~= views.take(i as int));
                assert(next.last() == edge@);
            }
            if same_text(edge.source.node_id.as_str(), node_id) && same_text(
                edge.source.port_id.as_str(),
                port_id,
            ) {
                r.push(edge.target.clone());
                proof {
                    assert(r@.map_values(|target: PortEndpoint| target@) =~= before.push(
                        edge@.target,
                    ));
                }
            }
            i = i + 1;
        }
        proof {
            assert(views.take(i as int) =~= views);
        }
        r
    }

    /// Whether every input that an output port is connected to has room.
    pub fn has_room(&self, node_id: &str, port_id: &str) -> (r: bool)
        requires
            self.wf(),
        ensures
            r == self@.all_open(
                routes(self@.wires, EndpointView { node: node_id@, port: port_id@ }),
            ),
    {
        let targets: Vec<PortEndpoint> = self.routes(node_id, port_id);
        let ghost views = targets@.map_values(|target: PortEndpoint| target@);
        proof {
            assert(views == routes(
                self@.wires,
                EndpointView { node: node_id@, port: port_id@ },
            ));
        }
        let mut i: usize = 0;
        while i < targets.len()
            invariant
                i <= targets@.len() == views.len(),
                self.wf(),
                views == targets@.map_values(|target: PortEndpoint| target@),
                views == routes(self@.wires, EndpointView { node: node_id@, port: port_id@ }),
                forall|k: int| 0 <= k < i ==> self@.open(#[trigger] views[k]),
            decreases targets@.len() - i,
        {
            proof {
                assert(views[i as int] == targets@[i as int]@);
            }
            match find_node(&self.specs, targets[i].node_id.as_str()) {
                Some(j) => {
                    proof {
                        assert(self@.slots[j as int] == self.slots@[j as int]@);
                    }
                    if !self.slots[j].mailbox.has_room() {
                        proof {
                            assert(!self@.open(views[i as int]));
                        }
                        return false;
                    }
                },
                None => {},
            }
            i = i + 1;
        }
        true
    }

    /// Offers a packet to one input port; a full mailbox drops it.
    fn offer(&mut self, target: &PortEndpoint, packet: DataPacket) -> (r: bool)
        requires
            old(self).wf(),
        ensures
            final(self).wf(),
            final(self)@.nodes == old(self)@.nodes,
            final(self)@.slots.len() == old(self)@.slots.len(),
            match node_index(old(self)@.nodes, target@.node) {
                Some(i) => r == !(old(self)@.slots[i].mailbox.closed
                    || old(self)@.slots[i].mailbox.full()) && final(self)@ == old(self)@.with_slot(
                    i,
                    SlotView {
                        mailbox: offered(old(self)@.slots[i].mailbox, target@.port, packet@),
                        ..old(self)@.slots[i]
                    },
                ),
                None => r && final(self)@ == old(self)@,
            },
    {
        match find_node(&self.specs, target.node_id.as_str()) {
            Some(i) => {
                let ghost before = self@;
                let message = NodeMessage::Input { port: target.port_id.clone(), packet };
                let sent: bool = self.slots[i].mailbox.try_send(message).is_ok();
                proof {
                    assert(self@.slots =~= before.slots.update(
                        i as int,
                        SlotView {
                            mailbox: offered(
                                before.slots[i as int].mailbox,
                                target@.port,
                                packet@,
                            ),
                            ..before.slots[i as int]
                        },
                    ));
                }
                sent
            },
            None => true,
        }
    }

    /// Sends a packet from an output port to every input that it is connected to. Each target is
    /// offered the packet; where all of them had room it becomes the node's latest output.
    pub fn dispatch(&mut self, node_id: &str, port_id: &str, packet: DataPacket) -> (r: Result<
        (),
        NodeError,
    >)
        requires
            old(self).wf(),
        ensures
            final(self).wf(),
            ({
                let before = old(self)@;
                let targets = routes(
                    before.wires,
                    EndpointView { node: node_id@, port: port_id@ },
                );
                let slots = offered_all(before.nodes, before.slots, targets, packet@);
                if refused(before.nodes, before.slots, targets, packet@) {
                    r is Err && r->Err_0@ == channel_full() && final(self)@ == (GraphState {
                        slots,
                        ..before
                    })
                } else {
                    r is Ok && match node_index(before.nodes, node_id@) {
                        Some(i) => final(self)@ == (GraphState {
                            slots: slots.update(
                                i,
                                SlotView { latest: Some(packet@), ..slots[i] },
                            ),
                            ..before
                        }),
                        None => final(self)@ == (GraphState { slots, ..before }),
                    }
                }
            }),
    {
        let ghost before = self@;
        let targets: Vec<PortEndpoint> = self.routes(node_id, port_id);
        let ghost views = targets@.map_values(|target: PortEndpoint| target@);
        let mut dropped: bool = false;
        let mut i: usize = 0;
        proof {
            assert(views.take(0) =~= Seq::<EndpointView>::empty());
        }
        while i < targets.len()
            invariant
                i <= targets@.len() == views.len(),
                self.wf(),
                views == targets@.map_values(|target: PortEndpoint| target@),
                self@ == (GraphState {
                    slots: offered_all(
                        before.nodes,
                        before.slots,
                        views.take(i as int),
                        packet@,
                    ),
                    ..before
                }),
                dropped == refused(before.nodes, before.slots, views.take(i as int), packet@),
            decreases targets@.len() - i,
        {
            let ghost next = views.take(i + 1);
            proof {
                assert(next.drop_last() =~= views.take(i as int));
                assert(next.last() == targets@[i as int]@);
            }
            if !self.offer(&targets[i], packet.clone()) {
                dropped = true;
            }
            i = i + 1;
        }
        proof {
            assert(views.take(i as int) =~= views);
        }
        if dropped {
            return Err(NodeError::ChannelFull("output channel full".to_owned()));
        }
        match find_node(&self.specs, node_id) {
            Some(i) => {
                let ghost now = self@;
                self.slots[i].latest = Some(packet);
                proof {
                    assert(self@.slots =~= now.slots.update(
                        i as int,
                        SlotView { latest: Some(packet@), ..now.slots[i as int] },
                    ));
                }
            },
            None => {},
        }
        Ok(())
    }

    /// Takes the state reports that have come in, oldest first.
    pub fn drain_status(&mut self) -> (r: Vec<NodeStatusReport>)
        requires
            old(self).wf(),
        ensures
            final(self).wf(),
            report_views(r@) == old(self)@.reports,
            final(self)@ == (GraphState { reports: Seq::empty(), ..old(self)@ }),
    {
        let mut out: Vec<NodeStatusReport> = Vec::new();
        std::mem::swap(&mut out, &mut self.reports);
        proof {
            assert(self@.reports =~= Seq::<ReportView>::empty());
        }
        out
    }

    /// Takes the events that have come in, oldest first.
    pub fn drain_events(&mut self) -> (r: Vec<NodeEvent>)
        requires
            old(self).wf(),
        ensures
            final(self).wf(),
            event_views(r@) == old(self)@.events,
            final(self)@ == (GraphState { events: Seq::empty(), ..old(self)@ }),
    {
        let mut out: Vec<NodeEvent> = Vec::new();
        std::mem::swap(&mut out, &mut self.events);
        proof {
            assert(self@.events =~= Seq::<EventView>::empty());
        }
        out
    }

    /// Takes in a state report of a node.
    pub fn report_state(&mut self, node_id: &str, state: NodeRuntimeState, message: &str)
        requires
            old(self).wf(),
        ensures
            final(self).wf(),
            final(self)@ == (GraphState {
                reports: old(self)@.reports.push(
                    ReportView { node: node_id@, state, message: message@ },
                ),
                ..old(self)@
            }),
    {
        let ghost before = self@;
        self.reports.push(
            NodeStatusReport { node_id: node_id.to_owned(), state, message: message.to_owned() },
        );
        proof {
            assert(self@.reports =~= before.reports.push(
                ReportView { node: node_id@, state, message: message@ },
            ));
        }
    }

    /// Takes in an event of a node.
    pub fn report_event(&mut self, node_id: &str, message: &str)
        requires
            old(self).wf(),
        ensures
            final(self).wf(),
            final(self)@ == (GraphState {
                events: old(self)@.events.push(EventView { node: node_id@, message: message@ }),
                ..old(self)@
            }),
    {
        let ghost before = self@;
        self.events.push(
            NodeEvent { node_id: node_id.to_owned(), message: message.to_owned() },
        );
        proof {
            assert(self@.events =~= before.events.push(
                EventView { node: node_id@, message: message@ },
            ));
        }
    }

    /// The frame that a viewer shows; nothing for other nodes.
    pub fn viewer_frame(&self, node_id: &str) -> (r: Option<&Arc<DecodedVideoFrame>>)
        requires
            self.wf(),
        ensures
            match self@.slot(node_id@) {
                Some(slot) => match slot.frame {
                    Some(frame) => r is Some && **r->Some_0 == frame,
                    None => r is None,
                },
                None => r is None,
            },
    {
        match find_node(&self.specs, node_id) {
            Some(i) => match &self.slots[i].frame {
                Some(frame) => Some(frame),
                None => None,
            },
            None => None,
        }
    }

    /// Shows a frame on a viewer; other nodes show nothing.
    pub fn show_frame(&mut self, node_id: &str, frame: Arc<DecodedVideoFrame>)
        requires
            old(self).wf(),
        ensures
            final(self).wf(),
            match node_index(old(self)@.nodes, node_id@) {
                Some(i) => if old(self)@.nodes[i].kind == VIEWER@ {
                    final(self)@ == old(self)@.with_slot(
                        i,
                        SlotView { frame: Some(*frame), ..old(self)@.slots[i] },
                    )
                } else {
                    final(self)@ == old(self)@
                },
                None => final(self)@ == old(self)@,
            },
    {
        match find_node(&self.specs, node_id) {
            Some(i) => {
                if same_text(self.specs[i].kind.as_str(), VIEWER) {
                    let ghost before = self@;
                    self.slots[i].frame = Some(frame);
                    proof {
                        assert(self@.slots =~= before.slots.update(
                            i as int,
                            SlotView { frame: Some(*frame), ..before.slots[i as int] },
                        ));
                    }
                }
            },
            None => {},
        }
    }

    /// The identities of the viewers, in order.
    pub fn viewer_node_ids(&self) -> (r: Vec<String>)
        ensures
            texts(r@).to_multiset() == viewer_ids(self@.nodes).to_multiset(),
            texts_sorted(texts(r@)),
    {
        let ghost views = node_views(self.specs@);
        let mut r: Vec<String> = Vec::new();
        let mut i: usize = 0;
        proof {
            assert(views.take(0) =~= Seq::<NodeView>::empty());
            assert(texts(r@) =~= Seq::<Seq<char>>::empty());
        }
        while i < self.specs.len()
            invariant
                i <= self.specs@.len() == views.len(),
                views == node_views(self.specs@),
                texts(r@).to_multiset() == viewer_ids(views.take(i as int)).to_multiset(),
                texts_sorted(texts(r@)),
            decreases self.specs@.len() - i,
        {
            let node: &NodeSpec = &self.specs[i];
            let ghost next = views.take(i + 1);
            let ghost rest = viewer_ids(views.take(i as int));
            proof {
                assert(next.drop_last() =~= views.take(i as int));
                assert(next.last() == node@);
                broadcast use vstd::seq_lib::group_to_multiset_ensures;

            }
            if same_text(node.kind.as_str(), VIEWER) {
                insert_sorted(&mut r, node.id.as_str());
                proof {
                    assert(rest.push(node@.id).to_multiset() =~= rest.to_multiset().insert(
                        node@.id,
                    ));
                }
            }
            i = i + 1;
        }
        proof {
            assert(views.take(i as int) =~= views);
        }
        r
    }

    /// The latest output of a node.
    pub fn latest_output(&self, node_id: &str) -> (r: Option<&DataPacket>)
        requires
            self.wf(),
        ensures
            match self@.slot(node_id@) {
                Some(slot) => match slot.latest {
                    Some(packet) => r is Some && r->Some_0@ == packet,
                    None => r is None,
                },
                None => r is None,
            },
    {
        match find_node(&self.specs, node_id) {
            Some(i) => match &self.slots[i].latest {
                Some(packet) => Some(packet),
                None => None,
            },
            None => None,
        }
    }

    /// Stops the graph: every node is told once, and takes nothing more.
    pub fn stop(&mut self)
        requires
            old(self).wf(),
        ensures
            final(self).wf(),
            final(self)@ == old(self)@.stopped(),
    {
        let ghost before = self@;
        let ghost told = before.slots.map_values(|slot: SlotView| stopped_slot(slot));
        let mut i: usize = 0;
        while i < self.slots.len()
            invariant
                self.wf(),
                i <= self@.slots.len(),
                self@ == (GraphState { slots: self@.slots, ..before }),
                told == before.slots.map_values(|slot: SlotView| stopped_slot(slot)),
                self@.slots.len() == before.slots.len(),
                self@.slots.len() == self.slots@.len(),
                forall|j: int| 0 <= j < i ==> #[trigger] self@.slots[j] == told[j],
                forall|j: int|
                    i <= j < self@.slots.len() ==> #[trigger] self@.slots[j] == before.slots[j],
            decreases self.slots@.len() - i,
        {
            let ghost now = self@;
            proof {
                assert(now.slots[i as int] == before.slots[i as int]);
            }
            self.slots[i].mailbox.stop();
            proof {
                assert(self@.slots =~= now.slots.update(i as int, told[i as int]));
            }
            i = i + 1;
        }
        proof {
            assert(self@.slots =~= told);
        }
    }

    /// Adds a node. `failure` tells why its instance did not come up, if so.
    pub fn add_node(
        &mut self,
        node: NodeSpec,
        registry: &NodeRegistry,
        failure: Option<NodeError>,
    ) -> (r: Result<(), GraphBuildError>)
        requires
            old(self).wf(),
        ensures
            final(self).wf(),
            match old(self)@.add_node_fault(
                node@,
                registry@,
                match failure {
                    Some(error) => Some(error@),
                    None => None,
                },
            ) {
                Some(fault) => r is Err && r->Err_0@ == fault && final(self)@ == old(self)@,
                None => r is Ok && final(self)@ == old(self)@.with_node(node@),
            },
    {
        if find_node(&self.specs, node.id.as_str()).is_some() {
            return Err(GraphBuildError::DuplicateNode(node.id.clone()));
        }
        if !registry.contains(node.kind.as_str()) {
            return Err(GraphBuildError::UnknownKind(node.kind.clone()));
        }
        match failure {
            Some(error) => {
                return Err(GraphBuildError::Instantiate(node.id.clone(), error));
            },
            None => {},
        }
        let ghost before = self@;
        let report: NodeStatusReport = report_wired(&node, &self.edges);
        self.reports.push(report);
        self.slots.push(new_slot());
        self.specs.push(node);
        proof {
            assert(self@.nodes =~= before.nodes.push(node@));
            assert(self@.slots =~= before.slots.push(fresh_slot()));
            assert(self@.reports =~= before.reports.push(wired_report(node@, before.edges)));
            law_adding_a_node_keeps_consistency(before, node@);
        }
        Ok(())
    }

    /// Removes a node with every edge and wire that touches it. The mailbox comes back closed, with a stop at
    /// its end, for the node to run out on.
    pub fn remove_node(&mut self, node_id: &str) -> (r: Result<Mailbox, GraphBuildError>)
        requires
            old(self).wf(),
        ensures
            final(self).wf(),
            match node_index(old(self)@.nodes, node_id@) {
                None => r is Err && r->Err_0@ == GraphErrorView::MissingNode(
                    "remove node `"@ + node_id@ + "`"@,
                    node_id@,
                ) && final(self)@ == old(self)@,
                Some(i) => r is Ok && r->Ok_0.wf() && r->Ok_0@
                    == old(self)@.slots[i].mailbox.stopped() && final(self)@
                    == old(self)@.without_node(i),
            },
    {
        match find_node(&self.specs, node_id) {
            None => Err(
                GraphBuildError::MissingNode(
                    concat3("remove node `", node_id, "`"),
                    node_id.to_owned(),
                ),
            ),
            Some(i) => {
                let ghost before = self@;
                proof {
                    lemma_node_index(before.nodes, node_id@);
                    assert(before.nodes[i as int].id == node_id@);
                }
                let mut edges: Vec<EdgeSpec> = Vec::new();
                std::mem::swap(&mut edges, &mut self.edges);
                self.edges = detach(edges, node_id);
                let mut wires: Vec<EdgeSpec> = Vec::new();
                std::mem::swap(&mut wires, &mut self.wires);
                self.wires = detach(wires, node_id);
                let _spec: NodeSpec = self.specs.remove(i);
                let slot: NodeSlot = self.slots.remove(i);
                proof {
                    assert(self@.nodes =~= before.nodes.remove(i as int));
                    assert(self@.slots =~= before.slots.remove(i as int));
                    law_removing_a_node_keeps_consistency(before, i as int);
                    assert(self.wf()) by {
                        assert forall|j: int| 0 <= j < self.slots@.len() implies (
                        #[trigger] self.slots@[j]).mailbox.wf() by {
                            if j < i {
                                assert(self.slots@[j] == old(self).slots@[j]);
                            } else {
                                assert(self.slots@[j] == old(self).slots@[j + 1]);
                            }
                        }
                    }
                }
                let mut mailbox: Mailbox = slot.mailbox;
                mailbox.stop();
                Ok(mailbox)
            },
        }
    }

    /// Adds an edge, unless it is a duplicate, fits no port, breaks a cardinality or closes a
    /// cycle; a refused edge changes nothing.
    pub fn add_edge(&mut self, edge: EdgeSpec) -> (r: Result<(), GraphBuildError>)
        requires
            old(self).wf(),
        ensures
            final(self).wf(),
            match old(self)@.add_edge_fault(edge@) {
                Some(fault) => r is Err && r->Err_0@ == fault && final(self)@ == old(self)@,
                None => r is Ok && final(self)@ == old(self)@.with_edge(edge@),
            },
    {
        if find_edge(&self.edges, edge.id.as_str()).is_some() {
            return Err(GraphBuildError::DuplicateEdge(edge.id.clone()));
        }
        proof {
            assert(self@.edges.take(self.edges@.len() as int) =~= self@.edges);
        }
        match validate_edge(&edge, &self.specs, &self.edges, self.edges.len()) {
            Err(error) => {
                return Err(error);
            },
            Ok(()) => {},
        }
        if would_create_cycle(&self.edges, &edge) {
            return Err(GraphBuildError::WouldCreateCycle { edge: edge.id.clone() });
        }
        let ghost before = self@;
        self.wires.push(edge.clone());
        self.edges.push(edge);
        proof {
            assert(self@.edges =~= before.edges.push(edge@));
            assert(self@.wires =~= before.wires.push(edge@));
            law_adding_an_edge_keeps_consistency(before, edge@);
        }
        Ok(())
    }

    /// Removes an edge, and with it the wire that packets travelled along.
    pub fn remove_edge(&mut self, edge_id: &str) -> (r: Result<(), GraphBuildError>)
        requires
            old(self).wf(),
        ensures
            final(self).wf(),
            match edge_index(old(self)@.edges, edge_id@) {
                None => r is Err && r->Err_0@ == GraphErrorView::MissingNode(
                    "remove edge `"@ + edge_id@ + "`"@,
                    edge_id@,
                ) && final(self)@ == old(self)@,
                Some(i) => r is Ok && final(self)@ == old(self)@.without_edge(i),
            },
    {
        match find_edge(&self.edges, edge_id) {
            None => Err(
                GraphBuildError::MissingNode(
                    concat3("remove edge `", edge_id, "`"),
                    edge_id.to_owned(),
                ),
            ),
            Some(i) => {
                let ghost before = self@;
                proof {
                    lemma_edge_index(before.edges, edge_id@);
                }
                let edge: EdgeSpec = self.edges.remove(i);
                let mut wires: Vec<EdgeSpec> = Vec::new();
                std::mem::swap(&mut wires, &mut self.wires);
                self.wires = cut(wires, &edge);
                proof {
                    assert(edge@ == before.edges[i as int]);
                    assert(self@.edges =~= before.edges.remove(i as int));
                    law_removing_an_edge_keeps_consistency(before, i as int);
                }
                Ok(())
            },
        }
    }

    /// Replaces the configuration of a node; all else of it stays.
    pub fn update_node(&mut self, node_id: &str, config: JsonValue) -> (r: Result<
        (),
        GraphBuildError,
    >)
        requires
            old(self).wf(),
        ensures
            final(self).wf(),
            match node_index(old(self)@.nodes, node_id@) {
                None => r is Err && r->Err_0@ == GraphErrorView::MissingNode(
                    "update node `"@ + node_id@ + "`"@,
                    node_id@,
                ) && final(self)@ == old(self)@,
                Some(i) => r is Ok && final(self)@ == (GraphState {
                    nodes: old(self)@.nodes.update(
                        i,
                        NodeView { config: config@, ..old(self)@.nodes[i] },
                    ),
                    ..old(self)@
                }),
            },
    {
        match find_node(&self.specs, node_id) {
            None => Err(
                GraphBuildError::MissingNode(
                    concat3("update node `", node_id, "`"),
                    node_id.to_owned(),
                ),
            ),
            Some(i) => {
                let ghost before = self@;
                self.specs[i].config = config;
                proof {
                    assert(self@.nodes =~= before.nodes.update(
                        i as int,
                        NodeView { config: config@, ..before.nodes[i as int] },
                    ));
                    law_updating_a_node_keeps_consistency(before, i as int, config@);
                }
                Ok(())
            },
        }
    }
}

/// The identities of the viewers among some nodes.
pub open spec fn viewer_ids(nodes: Seq<NodeView>) -> Seq<Seq<char>>
    decreases nodes.len(),
{
    if nodes.len() == 0 {
        Seq::empty()
    } else {
        let rest = viewer_ids(nodes.drop_last());
        if nodes.last().kind == VIEWER@ {
            rest.push(nodes.last().id)
        } else {
            rest
        }
    }
}

/// Whether texts stand in order.
pub open spec fn texts_sorted(items: Seq<Seq<char>>) -> bool {
    forall|i: int, j: int|
        0 <= i < j < items.len() ==> at_most(#[trigger] items[i], #[trigger] items[j])
}

/// Puts a text among sorted ones.
fn insert_sorted(items: &mut Vec<String>, item: &str)
    requires
        texts_sorted(texts(old(items)@)),
    ensures
        texts_sorted(texts(final(items)@)),
        texts(final(items)@).to_multiset() == texts(old(items)@).to_multiset().insert(item@),
{
    let ghost before = texts(items@);
    let mut i: usize = 0;
    while i < items.len() && text_at_most(items[i].as_str(), item)
        invariant
            i <= items@.len() == before.len(),
            before == texts(items@),
            forall|j: int| 0 <= j < i ==> at_most(#[trigger] before[j], item@),
        decreases items@.len() - i,
    {
        proof {
            assert(before[i as int] == items@[i as int]@);
        }
        i = i + 1;
    }
    proof {
        if i < before.len() {
            assert(before[i as int] == items@[i as int]@);
            assert(!at_most(before[i as int], item@));
            lemma_bytes_at_most_total(encode_utf8(before[i as int]), encode_utf8(item@));
            assert(at_most(item@, before[i as int]));
        }
    }
    items.insert(i, item.to_owned());
    proof {
        let after = texts(items@);
        assert(after =~= before.insert(i as int, item@));
        assert forall|a: int, b: int| 0 <= a < b < after.len() implies at_most(
            #[trigger] after[a],
            #[trigger] after[b],
        ) by {
            if b < i {
                assert(after[a] == before[a] && after[b] == before[b]);
            } else if b == i {
                assert(after[a] == before[a]);
            } else if a < i {
                assert(after[a] == before[a] && after[b] == before[b - 1]);
            } else if a == i {
                assert(after[b] == before[b - 1]);
                if b - 1 > i {
                    assert(at_most(before[i as int], before[b - 1]));
                    lemma_bytes_at_most_transitive(
                        encode_utf8(item@),
                        encode_utf8(before[i as int]),
                        encode_utf8(before[b - 1]),
                    );
                }
            } else {
                assert(after[a] == before[a - 1] && after[b] == before[b - 1]);
            }
        }
        broadcast use vstd::seq_lib::group_to_multiset_ensures;

        assert(after.to_multiset() =~= before.to_multiset().insert(item@));
    }
}

/// Keeps the edges that do not touch a node.
fn detach(mut edges: Vec<EdgeSpec>, node: &str) -> (r: Vec<EdgeSpec>)
    ensures
        edge_views(r@) == edges_without(edge_views(edges@), node@),
{
    let ghost given = edges@;
    let ghost views = edge_views(edges@);
    let mut r: Vec<EdgeSpec> = Vec::new();
    let ghost mut done: int = 0;
    proof {
        assert(views.take(0) =~= Seq::<EdgeView>::empty());
        assert(edge_views(r@) =~= Seq::<EdgeView>::empty());
    }
    while edges.len() > 0
        invariant
            0 <= done <= given.len(),
            done + edges@.len() == given.len(),
            views == edge_views(given),
            edges@ == given.skip(done),
            edge_views(r@) == edges_without(views.take(done), node@),
        decreases edges@.len(),
    {
        let ghost next = views.take(done + 1);
        let ghost before = edge_views(r@);
        let edge: EdgeSpec = edges.remove(0);
        proof {
            assert(next.drop_last() =~= views.take(done));
            assert(next.last() == edge@);
            assert(edges@ =~= given.skip(done + 1));
        }
        if !same_text(edge.source.node_id.as_str(), node) && !same_text(
            edge.target.node_id.as_str(),
            node,
        ) {
            r.push(edge);
            proof {
                assert(edge_views(r@) =~= before.push(edge@));
            }
        }
        proof {
            done = done + 1;
        }
    }
    proof {
        assert(views.take(done) =~= views);
    }
    r
}

fn same_endpoint(a: &PortEndpoint, b: &PortEndpoint) -> (r: bool)
    ensures
        r == (a@ == b@),
{
    same_text(a.node_id.as_str(), b.node_id.as_str()) && same_text(
        a.port_id.as_str(),
        b.port_id.as_str(),
    )
}

fn same_edge(a: &EdgeSpec, b: &EdgeSpec) -> (r: bool)
    ensures
        r == (a@ == b@),
{
    same_text(a.id.as_str(), b.id.as_str()) && same_endpoint(&a.source, &b.source)
        && same_endpoint(&a.target, &b.target)
}

/// Keeps the wires that are not those of an edge.
fn cut(mut wires: Vec<EdgeSpec>, edge: &EdgeSpec) -> (r: Vec<EdgeSpec>)
    ensures
        edge_views(r@) == wires_cut(edge_views(wires@), edge@),
{
    let ghost given = wires@;
    let ghost views = edge_views(wires@);
    let mut r: Vec<EdgeSpec> = Vec::new();
    let ghost mut done: int = 0;
    proof {
        assert(views.take(0) =~= Seq::<EdgeView>::empty());
        assert(edge_views(r@) =~= Seq::<EdgeView>::empty());
    }
    while wires.len() > 0
        invariant
            0 <= done <= given.len(),
            done + wires@.len() == given.len(),
            views == edge_views(given),
            wires@ == given.skip(done),
            edge_views(r@) == wires_cut(views.take(done), edge@),
        decreases wires@.len(),
    {
        let ghost next = views.take(done + 1);
        let ghost before = edge_views(r@);
        let wire: EdgeSpec = wires.remove(0);
        proof {
            assert(next.drop_last() =~= views.take(done));
            assert(next.last() == wire@);
            assert(wires@ =~= given.skip(done + 1));
        }
        if !same_edge(&wire, edge) {
            r.push(wire);
            proof {
                assert(edge_views(r@) =~= before.push(wire@));
            }
        }
        proof {
            done = done + 1;
        }
    }
    proof {
        assert(views.take(done) =~= views);
    }
    r
}

} // verus!
