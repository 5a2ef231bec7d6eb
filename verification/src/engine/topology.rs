//! Edges between ports: what makes an edge acceptable, and when edges form a cycle.
use crate::engine::node::{NodeError, NodeErrorView};
use crate::engine::spec::{
    find_port, port_index, port_views, NodeRuntimeState, NodeSpec,
    NodeView, PortCardinality, PortSpec, PortView,
};
use crate::text::{concat, concat3, concat5, same_text};
use vstd::prelude::*;

verus! {

/// A port of a node, by their identities.
#[derive(Debug)]
pub struct PortEndpoint {
    pub node_id: String,
    pub port_id: String,
}

/// An endpoint by its values.
pub struct EndpointView {
    pub node: Seq<char>,
    pub port: Seq<char>,
}

impl View for PortEndpoint {
    type V = EndpointView;

    open spec fn view(&self) -> EndpointView {
        EndpointView { node: self.node_id@, port: self.port_id@ }
    }
}

impl Clone for PortEndpoint {
    fn clone(&self) -> (r: Self)
        ensures
            r == *self,
    {
        PortEndpoint { node_id: self.node_id.clone(), port_id: self.port_id.clone() }
    }
}

impl PortEndpoint {
    pub fn new(node_id: &str, port_id: &str) -> (r: PortEndpoint)
        ensures
            r@ == (EndpointView { node: node_id@, port: port_id@ }),
    {
        PortEndpoint { node_id: node_id.to_owned(), port_id: port_id.to_owned() }
    }

    pub fn eq_value(&self, other: &PortEndpoint) -> (r: bool)
        ensures
            r == (self@ == other@),
    {
        same_text(self.node_id.as_str(), other.node_id.as_str()) && same_text(
            self.port_id.as_str(),
            other.port_id.as_str(),
        )
    }
}

/// An edge from an output port to an input port.
#[derive(Debug)]
pub struct EdgeSpec {
    pub id: String,
    pub source: PortEndpoint,
    pub target: PortEndpoint,
}

impl Clone for EdgeSpec {
    fn clone(&self) -> (r: Self)
        ensures
            r == *self,
    {
        EdgeSpec {
            id: self.id.clone(),
            source: self.source.clone(),
            target: self.target.clone(),
        }
    }
}

/// An edge by its values.
pub struct EdgeView {
    pub id: Seq<char>,
    pub source: EndpointView,
    pub target: EndpointView,
}

impl View for EdgeSpec {
    type V = EdgeView;

    open spec fn view(&self) -> EdgeView {
        EdgeView { id: self.id@, source: self.source@, target: self.target@ }
    }
}

/// Edges by their values.
pub open spec fn edge_views(edges: Seq<EdgeSpec>) -> Seq<EdgeView> {
    edges.map_values(|edge: EdgeSpec| edge@)
}

/// Nodes by their values.
pub open spec fn node_views(nodes: Seq<NodeSpec>) -> Seq<NodeView> {
    nodes.map_values(|node: NodeSpec| node@)
}

/// Why a graph cannot be built or changed.
#[derive(Debug, PartialEq, Eq)]
pub enum GraphBuildError {
    UnknownKind(String),
    MissingNode(String, String),
    MissingPort(String, String, String),
    Instantiate(String, NodeError),
    CardinalityViolation { edge: String, node: String, port: String },
    DuplicateNode(String),
    DuplicateEdge(String),
    WouldCreateCycle { edge: String },
    PortKindMismatch { edge: String, from: String, to: String },
}

/// A graph error by its values.
pub enum GraphErrorView {
    UnknownKind(Seq<char>),
    MissingNode(Seq<char>, Seq<char>),
    MissingPort(Seq<char>, Seq<char>, Seq<char>),
    Instantiate(Seq<char>, NodeErrorView),
    CardinalityViolation { edge: Seq<char>, node: Seq<char>, port: Seq<char> },
    DuplicateNode(Seq<char>),
    DuplicateEdge(Seq<char>),
    WouldCreateCycle { edge: Seq<char> },
    PortKindMismatch { edge: Seq<char>, from: Seq<char>, to: Seq<char> },
}

impl View for GraphBuildError {
    type V = GraphErrorView;

    open spec fn view(&self) -> GraphErrorView {
        match *self {
            GraphBuildError::UnknownKind(a) => GraphErrorView::UnknownKind(a@),
            GraphBuildError::MissingNode(a, b) => GraphErrorView::MissingNode(a@, b@),
            GraphBuildError::MissingPort(a, b, c) => GraphErrorView::MissingPort(a@, b@, c@),
            GraphBuildError::Instantiate(a, e) => GraphErrorView::Instantiate(a@, e@),
            GraphBuildError::CardinalityViolation { edge, node, port } =>
                GraphErrorView::CardinalityViolation { edge: edge@, node: node@, port: port@ },
            GraphBuildError::DuplicateNode(a) => GraphErrorView::DuplicateNode(a@),
            GraphBuildError::DuplicateEdge(a) => GraphErrorView::DuplicateEdge(a@),
            GraphBuildError::WouldCreateCycle { edge } => GraphErrorView::WouldCreateCycle {
                edge: edge@,
            },
            GraphBuildError::PortKindMismatch { edge, from, to } =>
                GraphErrorView::PortKindMismatch { edge: edge@, from: from@, to: to@ },
        }
    }
}

impl GraphErrorView {
    /// The text that the error is reported by.
    pub open spec fn text(self) -> Seq<char> {
        match self {
            GraphErrorView::UnknownKind(kind) => "unknown node kind `"@ + kind + "`"@,
            GraphErrorView::MissingNode(edge, node) => "edge `"@ + edge
                + "` references missing node `"@ + node + "`"@,
            GraphErrorView::MissingPort(edge, port, node) => "edge `"@ + edge
                + "` references missing port `"@ + port + "` on node `"@ + node + "`"@,
            GraphErrorView::Instantiate(node, error) => "node `"@ + node
                + "` failed to instantiate: "@ + error.text(),
            GraphErrorView::CardinalityViolation { edge, node, port } => "edge `"@ + edge
                + "` connects a second source into cardinality=One input `"@ + node + ":"@ + port
                + "`"@,
            GraphErrorView::DuplicateNode(node) => "node `"@ + node
                + "` already exists (incremental add_node)"@,
            GraphErrorView::DuplicateEdge(edge) => "edge `"@ + edge
                + "` already exists (incremental add_edge)"@,
            GraphErrorView::WouldCreateCycle { edge } => "edge `"@ + edge
                + "` would create a cycle"@,
            GraphErrorView::PortKindMismatch { edge, from, to } => "edge `"@ + edge
                + "` port kinds mismatch: `"@ + from + "` != `"@ + to + "`"@,
        }
    }
}

impl GraphBuildError {
    /// The text that the error is reported by.
    pub fn describe(&self) -> (r: String)
        ensures
            r@ == self@.text(),
    {
        match self {
            GraphBuildError::UnknownKind(kind) => concat3(
                "unknown node kind `",
                kind.as_str(),
                "`",
            ),
            GraphBuildError::MissingNode(edge, node) => concat5(
                "edge `",
                edge.as_str(),
                "` references missing node `",
                node.as_str(),
                "`",
            ),
            GraphBuildError::MissingPort(edge, port, node) => {
                let head: String = concat5(
                    "edge `",
                    edge.as_str(),
                    "` references missing port `",
                    port.as_str(),
                    "` on node `",
                );
                concat3(head.as_str(), node.as_str(), "`")
            },
            GraphBuildError::Instantiate(node, error) => {
                let head: String = concat3("node `", node.as_str(), "` failed to instantiate: ");
                concat(head.as_str(), error.describe().as_str())
            },
            GraphBuildError::CardinalityViolation { edge, node, port } => {
                let head: String = concat5(
                    "edge `",
                    edge.as_str(),
                    "` connects a second source into cardinality=One input `",
                    node.as_str(),
                    ":",
                );
                concat3(head.as_str(), port.as_str(), "`")
            },
            GraphBuildError::DuplicateNode(node) => concat3(
                "node `",
                node.as_str(),
                "` already exists (incremental add_node)",
            ),
            GraphBuildError::DuplicateEdge(edge) => concat3(
                "edge `",
                edge.as_str(),
                "` already exists (incremental add_edge)",
            ),
            GraphBuildError::WouldCreateCycle { edge } => concat3(
                "edge `",
                edge.as_str(),
                "` would create a cycle",
            ),
            GraphBuildError::PortKindMismatch { edge, from, to } => {
                let head: String = concat5(
                    "edge `",
                    edge.as_str(),
                    "` port kinds mismatch: `",
                    from.as_str(),
                    "` != `",
                );
                concat3(head.as_str(), to.as_str(), "`")
            },
        }
    }
}

/// The position of the node with the given identity; the last one where several have it.
pub open spec fn node_index(nodes: Seq<NodeView>, id: Seq<char>) -> Option<int>
    decreases nodes.len(),
{
    if nodes.len() == 0 {
        None
    } else if nodes.last().id == id {
        Some(nodes.len() - 1)
    } else {
        node_index(nodes.drop_last(), id)
    }
}

/// No two nodes share an identity.
pub open spec fn nodes_distinct(nodes: Seq<NodeView>) -> bool {
    forall|i: int, j: int|
        0 <= i < j < nodes.len() ==> (#[trigger] nodes[i]).id != (#[trigger] nodes[j]).id
}

pub proof fn lemma_node_index(nodes: Seq<NodeView>, id: Seq<char>)
    ensures
        match node_index(nodes, id) {
            Some(i) => 0 <= i < nodes.len() && nodes[i].id == id && forall|j: int|
                i < j < nodes.len() ==> (#[trigger] nodes[j]).id != id,
            None => forall|j: int| 0 <= j < nodes.len() ==> (#[trigger] nodes[j]).id != id,
        },
    decreases nodes.len(),
{
    if nodes.len() > 0 && nodes.last().id != id {
        let init = nodes.drop_last();
        lemma_node_index(init, id);
        match node_index(init, id) {
            Some(i) => {
                assert(nodes[i] == init[i]);
                assert forall|j: int| i < j < nodes.len() implies (#[trigger] nodes[j]).id
                    != id by {
                    if j < nodes.len() - 1 {
                        assert(nodes[j] == init[j]);
                    }
                }
            },
            None => {
                assert forall|j: int| 0 <= j < nodes.len() implies (#[trigger] nodes[j]).id
                    != id by {
                    if j < nodes.len() - 1 {
                        assert(nodes[j] == init[j]);
                    }
                }
            },
        }
    }
}

/// Finds the node with the given identity.
pub fn find_node(nodes: &Vec<NodeSpec>, id: &str) -> (r: Option<usize>)
    ensures
        match node_index(node_views(nodes@), id@) {
            Some(i) => r is Some && r->Some_0 == i && i < nodes@.len(),
            None => r is None,
        },
{
    let ghost views = node_views(nodes@);
    let mut i: usize = nodes.len();
    while i > 0
        invariant
            i <= nodes@.len() == views.len(),
            views == node_views(nodes@),
            forall|j: int| i <= j < nodes@.len() ==> (#[trigger] views[j]).id != id@,
        decreases i,
    {
        i = i - 1;
        proof {
            assert(views[i as int] == nodes@[i as int]@);
        }
        if same_text(nodes[i].id.as_str(), id) {
            proof {
                lemma_node_index(views, id@);
            }
            return Some(i);
        }
    }
    proof {
        lemma_node_index(views, id@);
    }
    None
}

/// The position of the first edge with the given identity.
pub open spec fn edge_index(edges: Seq<EdgeView>, id: Seq<char>) -> Option<int>
    decreases edges.len(),
{
    if edges.len() == 0 {
        None
    } else {
        match edge_index(edges.drop_last(), id) {
            Some(i) => Some(i),
            None => if edges.last().id == id {
                Some(edges.len() - 1)
            } else {
                None
            },
        }
    }
}

/// No two edges share an identity.
pub open spec fn edges_distinct(edges: Seq<EdgeView>) -> bool {
    forall|i: int, j: int|
        0 <= i < j < edges.len() ==> (#[trigger] edges[i]).id != (#[trigger] edges[j]).id
}

pub proof fn lemma_edge_index(edges: Seq<EdgeView>, id: Seq<char>)
    ensures
        match edge_index(edges, id) {
            Some(i) => 0 <= i < edges.len() && edges[i].id == id && forall|j: int|
                0 <= j < i ==> (#[trigger] edges[j]).id != id,
            None => forall|j: int| 0 <= j < edges.len() ==> (#[trigger] edges[j]).id != id,
        },
    decreases edges.len(),
{
    if edges.len() > 0 {
        let init = edges.drop_last();
        lemma_edge_index(init, id);
        match edge_index(init, id) {
            Some(i) => {
                assert(edges[i] == init[i]);
                assert forall|j: int| 0 <= j < i implies (#[trigger] edges[j]).id != id by {
                    assert(edges[j] == init[j]);
                }
            },
            None => {
                assert forall|j: int| 0 <= j < edges.len() - 1 implies (#[trigger] edges[j]).id
                    != id by {
                    assert(edges[j] == init[j]);
                }
            },
        }
    }
}

/// Finds the first edge with the given identity.
pub fn find_edge(edges: &Vec<EdgeSpec>, id: &str) -> (r: Option<usize>)
    ensures
        match edge_index(edge_views(edges@), id@) {
            Some(i) => r is Some && r->Some_0 == i && i < edges@.len(),
            None => r is None,
        },
{
    let ghost views = edge_views(edges@);
    let mut i: usize = 0;
    while i < edges.len()
        invariant
            i <= edges@.len() == views.len(),
            views == edge_views(edges@),
            forall|j: int| 0 <= j < i ==> (#[trigger] views[j]).id != id@,
        decreases edges@.len() - i,
    {
        proof {
            assert(views[i as int] == edges@[i as int]@);
        }
        if same_text(edges[i].id.as_str(), id) {
            proof {
                lemma_edge_index(views, id@);
            }
            return Some(i);
        }
        i = i + 1;
    }
    proof {
        lemma_edge_index(views, id@);
    }
    None
}

/// Whether an edge ends in the given port.
pub open spec fn connected(edges: Seq<EdgeView>, node: Seq<char>, port: Seq<char>) -> bool {
    exists|i: int|
        0 <= i < edges.len() && (#[trigger] edges[i]).target == (EndpointView { node, port })
}

/// Whether an edge among the first `count` ends in the given port.
pub fn is_connected(edges: &Vec<EdgeSpec>, count: usize, node: &str, port: &str) -> (r: bool)
    requires
        count <= edges@.len(),
    ensures
        r == connected(edge_views(edges@).take(count as int), node@, port@),
{
    let ghost views = edge_views(edges@).take(count as int);
    let mut i: usize = 0;
    while i < count
        invariant
            i <= count <= edges@.len(),
            views == edge_views(edges@).take(count as int),
            forall|j: int|
                0 <= j < i ==> (#[trigger] views[j]).target != (EndpointView {
                    node: node@,
                    port: port@,
                }),
        decreases count - i,
    {
        proof {
            assert(views[i as int] == edges@[i as int]@);
        }
        if same_text(edges[i].target.node_id.as_str(), node) && same_text(
            edges[i].target.port_id.as_str(),
            port,
        ) {
            return true;
        }
        i = i + 1;
    }
    false
}

/// Why an edge cannot join the edges that are there; nothing where it can.
pub open spec fn edge_fault(
    edge: EdgeView,
    nodes: Seq<NodeView>,
    before: Seq<EdgeView>,
) -> Option<GraphErrorView> {
    let source = node_index(nodes, edge.source.node);
    let target = node_index(nodes, edge.target.node);
    if source is None {
        Some(GraphErrorView::MissingNode(edge.id, edge.source.node))
    } else if target is None {
        Some(GraphErrorView::MissingNode(edge.id, edge.target.node))
    } else {
        let outputs = nodes[source->Some_0].outputs;
        let inputs = nodes[target->Some_0].inputs;
        let from = port_index(outputs, edge.source.port);
        let to = port_index(inputs, edge.target.port);
        if from is None {
            Some(GraphErrorView::MissingPort(edge.id, edge.source.port, edge.source.node))
        } else if to is None {
            Some(GraphErrorView::MissingPort(edge.id, edge.target.port, edge.target.node))
        } else if outputs[from->Some_0].kind != inputs[to->Some_0].kind {
            Some(
                GraphErrorView::PortKindMismatch {
                    edge: edge.id,
                    from: outputs[from->Some_0].kind,
                    to: inputs[to->Some_0].kind,
                },
            )
        } else if inputs[to->Some_0].cardinality == PortCardinality::One && connected(
            before,
            edge.target.node,
            edge.target.port,
        ) {
            Some(
                GraphErrorView::CardinalityViolation {
                    edge: edge.id,
                    node: edge.target.node,
                    port: edge.target.port,
                },
            )
        } else {
            None
        }
    }
}

/// Checks an edge against the nodes and against the first `count` edges.
pub fn validate_edge(edge: &EdgeSpec, nodes: &Vec<NodeSpec>, edges: &Vec<EdgeSpec>, count: usize)
    -> (r: Result<(), GraphBuildError>)
    requires
        count <= edges@.len(),
    ensures
        match edge_fault(edge@, node_views(nodes@), edge_views(edges@).take(count as int)) {
            Some(fault) => r is Err && r->Err_0@ == fault,
            None => r is Ok,
        },
{
    let source: usize = match find_node(nodes, edge.source.node_id.as_str()) {
        Some(i) => i,
        None => {
            return Err(
                GraphBuildError::MissingNode(edge.id.clone(), edge.source.node_id.clone()),
            );
        },
    };
    let target: usize = match find_node(nodes, edge.target.node_id.as_str()) {
        Some(i) => i,
        None => {
            return Err(
                GraphBuildError::MissingNode(edge.id.clone(), edge.target.node_id.clone()),
            );
        },
    };
    proof {
        assert(node_views(nodes@)[source as int] == nodes@[source as int]@);
        assert(node_views(nodes@)[target as int] == nodes@[target as int]@);
    }
    let from: &PortSpec = match find_port(&nodes[source].outputs, edge.source.port_id.as_str()) {
        Some(port) => port,
        None => {
            return Err(
                GraphBuildError::MissingPort(
                    edge.id.clone(),
                    edge.source.port_id.clone(),
                    edge.source.node_id.clone(),
                ),
            );
        },
    };
    let to: &PortSpec = match find_port(&nodes[target].inputs, edge.target.port_id.as_str()) {
        Some(port) => port,
        None => {
            return Err(
                GraphBuildError::MissingPort(
                    edge.id.clone(),
                    edge.target.port_id.clone(),
                    edge.target.node_id.clone(),
                ),
            );
        },
    };
    if !same_text(from.kind.as_str(), to.kind.as_str()) {
        return Err(
            GraphBuildError::PortKindMismatch {
                edge: edge.id.clone(),
                from: from.kind.clone(),
                to: to.kind.clone(),
            },
        );
    }
    if to.cardinality == PortCardinality::One && is_connected(
        edges,
        count,
        edge.target.node_id.as_str(),
        edge.target.port_id.as_str(),
    ) {
        return Err(
            GraphBuildError::CardinalityViolation {
                edge: edge.id.clone(),
                node: edge.target.node_id.clone(),
                port: edge.target.port_id.clone(),
            },
        );
    }
    Ok(())
}

/// Whether `n` edges, one after the other, lead from one node to another.
pub open spec fn path(edges: Seq<EdgeView>, from: Seq<char>, to: Seq<char>, n: nat) -> bool
    decreases n,
{
    if n == 0 {
        from == to
    } else {
        exists|i: int|
            0 <= i < edges.len() && (#[trigger] edges[i]).target.node == to && path(
                edges,
                from,
                edges[i].source.node,
                (n - 1) as nat,
            )
    }
}

/// Whether edges lead from one node to another.
pub open spec fn reaches(edges: Seq<EdgeView>, from: Seq<char>, to: Seq<char>) -> bool {
    exists|n: nat| path(edges, from, to, n)
}

/// Whether no node leads back to itself.
pub open spec fn acyclic(edges: Seq<EdgeView>) -> bool {
    forall|node: Seq<char>, n: nat| n > 0 ==> !#[trigger] path(edges, node, node, n)
}

/// Whether an edge would close a cycle.
pub open spec fn closes_cycle(edges: Seq<EdgeView>, edge: EdgeView) -> bool {
    edge.source.node == edge.target.node || reaches(edges, edge.target.node, edge.source.node)
}

spec fn count_true(flags: Seq<bool>) -> nat
    decreases flags.len(),
{
    if flags.len() == 0 {
        0
    } else {
        count_true(flags.drop_last()) + if flags.last() {
            1nat
        } else {
            0nat
        }
    }
}

proof fn lemma_count_true_bound(flags: Seq<bool>)
    ensures
        count_true(flags) <= flags.len(),
    decreases flags.len(),
{
    if flags.len() > 0 {
        lemma_count_true_bound(flags.drop_last());
    }
}

proof fn lemma_count_true_update(flags: Seq<bool>, i: int)
    requires
        0 <= i < flags.len(),
        !flags[i],
    ensures
        count_true(flags.update(i, true)) == count_true(flags) + 1,
    decreases flags.len(),
{
    let next = flags.update(i, true);
    if i == flags.len() - 1 {
        assert(next.drop_last() =~= flags.drop_last());
    } else {
        assert(next.drop_last() =~= flags.drop_last().update(i, true));
        lemma_count_true_update(flags.drop_last(), i);
    }
}

proof fn lemma_count_false(flags: Seq<bool>)
    requires
        forall|i: int| 0 <= i < flags.len() ==> !#[trigger] flags[i],
    ensures
        count_true(flags) == 0,
    decreases flags.len(),
{
    if flags.len() > 0 {
        lemma_count_false(flags.drop_last());
    }
}

/// A node is one of the reached ones.
spec fn holds_node(reached: Seq<&str>, node: Seq<char>) -> bool {
    exists|k: int| 0 <= k < reached.len() && (#[trigger] reached[k])@ == node
}

proof fn lemma_closed_set_holds_paths(
    edges: Seq<EdgeView>,
    reached: Seq<&str>,
    from: Seq<char>,
    to: Seq<char>,
    n: nat,
)
    requires
        holds_node(reached, from),
        forall|i: int|
            0 <= i < edges.len() && holds_node(reached, (#[trigger] edges[i]).source.node)
                ==> holds_node(reached, edges[i].target.node),
        path(edges, from, to, n),
    ensures
        holds_node(reached, to),
    decreases n,
{
    if n > 0 {
        let i = choose|i: int|
            0 <= i < edges.len() && (#[trigger] edges[i]).target.node == to && path(
                edges,
                from,
                edges[i].source.node,
                (n - 1) as nat,
            );
        lemma_closed_set_holds_paths(edges, reached, from, edges[i].source.node, (n - 1) as nat);
    }
}

proof fn lemma_path_step(edges: Seq<EdgeView>, from: Seq<char>, i: int)
    requires
        0 <= i < edges.len(),
        reaches(edges, from, edges[i].source.node),
    ensures
        reaches(edges, from, edges[i].target.node),
{
    let n = choose|n: nat| path(edges, from, edges[i].source.node, n);
    assert(path(edges, from, edges[i].target.node, (n + 1) as nat));
}

/// One node's outgoing edges, all marked and followed.
fn follow<'a>(
    edges: &'a Vec<EdgeSpec>,
    start: &'a str,
    used: &mut Vec<bool>,
    reached: &mut Vec<&'a str>,
    node: &'a str,
)
    requires
        old(used)@.len() == edges@.len(),
        old(reached)@.len() == 1 + count_true(old(used)@),
        reaches(edge_views(edges@), start@, node@),
        forall|k: int|
            0 <= k < old(reached)@.len() ==> reaches(
                edge_views(edges@),
                start@,
                (#[trigger] old(reached)@[k])@,
            ),
        forall|i: int|
            0 <= i < edges@.len() && #[trigger] old(used)@[i] ==> holds_node(
                old(reached)@,
                edge_views(edges@)[i].target.node,
            ),
    ensures
        final(used)@.len() == edges@.len(),
        final(reached)@.len() == 1 + count_true(final(used)@),
        final(reached)@.len() >= old(reached)@.len(),
        forall|k: int|
            0 <= k < old(reached)@.len() ==> #[trigger] final(reached)@[k] == old(reached)@[k],
        forall|k: int|
            0 <= k < final(reached)@.len() ==> reaches(
                edge_views(edges@),
                start@,
                (#[trigger] final(reached)@[k])@,
            ),
        forall|i: int|
            0 <= i < edges@.len() && #[trigger] final(used)@[i] ==> holds_node(
                final(reached)@,
                edge_views(edges@)[i].target.node,
            ),
        forall|i: int|
            0 <= i < edges@.len() && old(used)@[i] ==> #[trigger] final(used)@[i],
        forall|i: int|
            0 <= i < edges@.len() && (#[trigger] edge_views(edges@)[i]).source.node == node@
                ==> final(used)@[i],
{
    let ghost views = edge_views(edges@);
    let ghost used0 = used@;
    let ghost reached0 = reached@;
    let mut i: usize = 0;
    while i < edges.len()
        invariant
            i <= edges@.len() == used@.len(),
            views == edge_views(edges@),
            views.len() == edges@.len(),
            used0.len() == used@.len(),
            reached@.len() == 1 + count_true(used@),
            reached@.len() >= reached0.len(),
            reaches(views, start@, node@),
            forall|k: int| 0 <= k < reached0.len() ==> #[trigger] reached@[k] == reached0[k],
            forall|k: int|
                0 <= k < reached@.len() ==> reaches(views, start@, (#[trigger] reached@[k])@),
            forall|j: int|
                0 <= j < edges@.len() && #[trigger] used@[j] ==> holds_node(
                    reached@,
                    views[j].target.node,
                ),
            forall|j: int| 0 <= j < edges@.len() && used0[j] ==> #[trigger] used@[j],
            forall|j: int|
                0 <= j < i && (#[trigger] views[j]).source.node == node@ ==> used@[j],
        decreases edges@.len() - i,
    {
        proof {
            assert(views[i as int] == edges@[i as int]@);
        }
        if !used[i] && same_text(edges[i].source.node_id.as_str(), node) {
            let ghost used1 = used@;
            let ghost reached1 = reached@;
            used.set(i, true);
            reached.push(edges[i].target.node_id.as_str());
            proof {
                lemma_count_true_update(used1, i as int);
                lemma_path_step(views, start@, i as int);
                assert forall|j: int| 0 <= j < edges@.len() && #[trigger] used@[j] implies
                    holds_node(reached@, views[j].target.node) by {
                    if j == i {
                        assert(reached@[reached1.len() as int]@ == views[j].target.node);
                    } else {
                        assert(used1[j]);
                        let k = choose|k: int|
                            0 <= k < reached1.len() && (#[trigger] reached1[k])@
                                == views[j].target.node;
                        assert(reached@[k] == reached1[k]);
                    }
                }
            }
        }
        i = i + 1;
    }
}

/// Whether an edge would close a cycle among the given edges.
pub fn would_create_cycle(edges: &Vec<EdgeSpec>, edge: &EdgeSpec) -> (r: bool)
    ensures
        r == closes_cycle(edge_views(edges@), edge@),
{
    if same_text(edge.source.node_id.as_str(), edge.target.node_id.as_str()) {
        return true;
    }
    let ghost views = edge_views(edges@);
    let start: &str = edge.target.node_id.as_str();
    let goal: &str = edge.source.node_id.as_str();
    let mut used: Vec<bool> = Vec::new();
    while used.len() < edges.len()
        invariant
            used@.len() <= edges@.len(),
            forall|i: int| 0 <= i < used@.len() ==> !#[trigger] used@[i],
        decreases edges@.len() - used@.len(),
    {
        used.push(false);
    }
    let mut reached: Vec<&str> = Vec::new();
    reached.push(start);
    proof {
        lemma_count_false(used@);
        assert(path(views, start@, start@, 0));
        assert(reached@[0]@ == start@);
    }
    let mut k: usize = 0;
    while k < reached.len()
        invariant
            k <= reached@.len(),
            start@ == edge@.target.node,
            goal@ == edge@.source.node,
            views == edge_views(edges@),
            views.len() == edges@.len(),
            used@.len() == edges@.len(),
            reached@.len() == 1 + count_true(used@),
            reached@.len() >= 1,
            reached@[0]@ == start@,
            forall|j: int|
                0 <= j < reached@.len() ==> reaches(views, start@, (#[trigger] reached@[j])@),
            forall|j: int| 0 <= j < k ==> (#[trigger] reached@[j])@ != goal@,
            forall|i: int|
                0 <= i < edges@.len() && #[trigger] used@[i] ==> holds_node(
                    reached@,
                    views[i].target.node,
                ),
            forall|j: int, i: int|
                0 <= j < k && 0 <= i < edges@.len() && (#[trigger] views[i]).source.node == (
                #[trigger] reached@[j])@ ==> used@[i],
        decreases edges@.len() + 1 - k,
    {
        let node: &str = reached[k];
        if same_text(node, goal) {
            return true;
        }
        proof {
            lemma_count_true_bound(used@);
        }
        follow(edges, start, &mut used, &mut reached, node);
        proof {
            lemma_count_true_bound(used@);
        }
        k = k + 1;
    }
    proof {
        if reaches(views, start@, goal@) {
            let n = choose|n: nat| path(views, start@, goal@, n);
            assert forall|i: int|
                0 <= i < views.len() && holds_node(
                    reached@,
                    (#[trigger] views[i]).source.node,
                ) implies holds_node(reached@, views[i].target.node) by {
                let j = choose|j: int|
                    0 <= j < reached@.len() && (#[trigger] reached@[j])@ == views[i].source.node;
                assert(used@[i]);
            }
            lemma_closed_set_holds_paths(views, reached@, start@, goal@, n);
            assert(false);
        }
    }
    false
}

proof fn lemma_path_joins(
    edges: Seq<EdgeView>,
    a: Seq<char>,
    b: Seq<char>,
    c: Seq<char>,
    m: nat,
    n: nat,
)
    requires
        path(edges, a, b, m),
        path(edges, b, c, n),
    ensures
        path(edges, a, c, m + n),
    decreases n,
{
    if n > 0 {
        let i = choose|i: int|
            0 <= i < edges.len() && (#[trigger] edges[i]).target.node == c && path(
                edges,
                b,
                edges[i].source.node,
                (n - 1) as nat,
            );
        lemma_path_joins(edges, a, b, edges[i].source.node, m, (n - 1) as nat);
        assert((m + n - 1) as nat == m + (n - 1) as nat);
    }
}

proof fn lemma_path_with_new_edge(
    edges: Seq<EdgeView>,
    edge: EdgeView,
    a: Seq<char>,
    b: Seq<char>,
    n: nat,
)
    requires
        path(edges.push(edge), a, b, n),
    ensures
        (n == 0 && a == b) || (exists|m: nat| m > 0 && #[trigger] path(edges, a, b, m)) || (reaches(
            edges,
            a,
            edge.source.node,
        ) && reaches(edges, edge.target.node, b)),
    decreases n,
{
    if n > 0 {
        let grown = edges.push(edge);
        let i = choose|i: int|
            0 <= i < grown.len() && (#[trigger] grown[i]).target.node == b && path(
                grown,
                a,
                grown[i].source.node,
                (n - 1) as nat,
            );
        let mid = grown[i].source.node;
        lemma_path_with_new_edge(edges, edge, a, mid, (n - 1) as nat);
        assert(path(edges, a, a, 0));
        assert(path(edges, edge.target.node, edge.target.node, 0));
        if i < edges.len() {
            assert(grown[i] == edges[i]);
            if n == 1 {
                assert(path(edges, a, b, 1));
            } else if exists|m: nat| m > 0 && #[trigger] path(edges, a, mid, m) {
                let m = choose|m: nat| m > 0 && #[trigger] path(edges, a, mid, m);
                assert(path(edges, a, b, (m + 1) as nat));
            } else {
                lemma_path_step(edges, edge.target.node, i);
            }
        } else {
            assert(reaches(edges, a, edge.source.node));
            assert(reaches(edges, edge.target.node, b));
        }
    }
}

/// Adding an edge that closes no cycle keeps a graph free of cycles.
pub proof fn law_accepted_edge_keeps_graph_acyclic(edges: Seq<EdgeView>, edge: EdgeView)
    requires
        acyclic(edges),
        !closes_cycle(edges, edge),
    ensures
        acyclic(edges.push(edge)),
{
    let grown = edges.push(edge);
    assert forall|node: Seq<char>, n: nat| n > 0 implies !#[trigger] path(grown, node, node, n) by {
        if path(grown, node, node, n) {
            lemma_path_with_new_edge(edges, edge, node, node, n);
            if reaches(edges, node, edge.source.node) && reaches(edges, edge.target.node, node) {
                let m = choose|m: nat| path(edges, edge.target.node, node, m);
                let k = choose|k: nat| path(edges, node, edge.source.node, k);
                lemma_path_joins(edges, edge.target.node, node, edge.source.node, m, k);
                assert(reaches(edges, edge.target.node, edge.source.node));
            }
        }
    }
}

/// Adding an edge that is refused as a cycle would indeed have closed one.
pub proof fn law_refused_edge_closes_a_cycle(edges: Seq<EdgeView>, edge: EdgeView)
    requires
        closes_cycle(edges, edge),
    ensures
        !acyclic(edges.push(edge)),
{
    let grown = edges.push(edge);
    let last = edges.len() as int;
    assert(grown[last] == edge);
    if edge.source.node == edge.target.node {
        assert(path(grown, edge.source.node, edge.source.node, 0));
        assert(path(grown, edge.source.node, edge.source.node, 1));
    } else {
        let n = choose|n: nat| path(edges, edge.target.node, edge.source.node, n);
        lemma_path_survives_push(edges, edge, edge.target.node, edge.source.node, n);
        assert(path(grown, edge.target.node, grown[last].source.node, n));
        assert(path(grown, edge.target.node, edge.target.node, (n + 1) as nat));
    }
}

proof fn lemma_path_survives_push(
    edges: Seq<EdgeView>,
    edge: EdgeView,
    a: Seq<char>,
    b: Seq<char>,
    n: nat,
)
    requires
        path(edges, a, b, n),
    ensures
        path(edges.push(edge), a, b, n),
    decreases n,
{
    if n > 0 {
        let i = choose|i: int|
            0 <= i < edges.len() && (#[trigger] edges[i]).target.node == b && path(
                edges,
                a,
                edges[i].source.node,
                (n - 1) as nat,
            );
        lemma_path_survives_push(edges, edge, a, edges[i].source.node, (n - 1) as nat);
        assert(edges.push(edge)[i] == edges[i]);
    }
}

/// Dropping edges never makes a cycle: every edge that stays was there before.
pub proof fn law_fewer_edges_stay_acyclic(edges: Seq<EdgeView>, fewer: Seq<EdgeView>)
    requires
        acyclic(edges),
        forall|i: int| 0 <= i < fewer.len() ==> edges.contains(#[trigger] fewer[i]),
    ensures
        acyclic(fewer),
{
    assert forall|node: Seq<char>, n: nat| n > 0 implies !#[trigger] path(fewer, node, node, n) by {
        if path(fewer, node, node, n) {
            lemma_path_in_larger(edges, fewer, node, node, n);
        }
    }
}

proof fn lemma_path_in_larger(
    edges: Seq<EdgeView>,
    fewer: Seq<EdgeView>,
    a: Seq<char>,
    b: Seq<char>,
    n: nat,
)
    requires
        forall|i: int| 0 <= i < fewer.len() ==> edges.contains(#[trigger] fewer[i]),
        path(fewer, a, b, n),
    ensures
        path(edges, a, b, n),
    decreases n,
{
    if n > 0 {
        let i = choose|i: int|
            0 <= i < fewer.len() && (#[trigger] fewer[i]).target.node == b && path(
                fewer,
                a,
                fewer[i].source.node,
                (n - 1) as nat,
            );
        lemma_path_in_larger(edges, fewer, a, fewer[i].source.node, (n - 1) as nat);
        let j = choose|j: int| 0 <= j < edges.len() && edges[j] == fewer[i];
        assert(edges[j].target.node == b);
    }
}

/// The labels of the required inputs of a node that no edge ends in.
pub open spec fn unmet(ports: Seq<PortView>, node: Seq<char>, edges: Seq<EdgeView>) -> Seq<
    Seq<char>,
>
    decreases ports.len(),
{
    if ports.len() == 0 {
        Seq::empty()
    } else {
        let rest = unmet(ports.drop_last(), node, edges);
        let port = ports.last();
        if port.required && !connected(edges, node, port.id) {
            rest.push(port.label)
        } else {
            rest
        }
    }
}

/// Texts with a comma between neighbours.
pub open spec fn comma_list(items: Seq<Seq<char>>) -> Seq<char>
    decreases items.len(),
{
    if items.len() == 0 {
        Seq::empty()
    } else if items.len() == 1 {
        items[0]
    } else {
        comma_list(items.drop_last()) + ", "@ + items.last()
    }
}

/// The state of a node that was just wired: disabled while a required input is open.
pub open spec fn wired_state(node: NodeView, edges: Seq<EdgeView>) -> NodeRuntimeState {
    if unmet(node.inputs, node.id, edges).len() > 0 {
        NodeRuntimeState::Disabled
    } else {
        NodeRuntimeState::Idle
    }
}

/// What is said beside that state.
pub open spec fn wired_message(node: NodeView, edges: Seq<EdgeView>) -> Seq<char> {
    let labels = unmet(node.inputs, node.id, edges);
    if labels.len() > 0 {
        "precondition unmet: connect "@ + comma_list(labels)
    } else {
        "ready to start"@
    }
}

/// The state of a node that was just wired, with what is said beside it.
pub fn initial_state(node: &NodeSpec, edges: &Vec<EdgeSpec>) -> (r: (NodeRuntimeState, String))
    ensures
        r.0 == wired_state(node@, edge_views(edges@)),
        r.1@ == wired_message(node@, edge_views(edges@)),
{
    let ghost views = edge_views(edges@);
    let ghost ports = port_views(node.inputs@);
    let mut missing: String = String::new();
    let mut any: bool = false;
    let mut i: usize = 0;
    proof {
        assert(missing@ =~= Seq::<char>::empty());
        assert(ports.take(0) =~= Seq::<PortView>::empty());
        assert(views.take(edges@.len() as int) =~= views);
    }
    while i < node.inputs.len()
        invariant
            i <= node.inputs@.len() == ports.len(),
            ports == port_views(node.inputs@),
            views == edge_views(edges@),
            views.take(edges@.len() as int) == views,
            any == (unmet(ports.take(i as int), node@.id, views).len() > 0),
            missing@ == comma_list(unmet(ports.take(i as int), node@.id, views)),
        decreases node.inputs@.len() - i,
    {
        let port: &PortSpec = &node.inputs[i];
        let ghost next = ports.take(i + 1);
        let ghost labels = unmet(ports.take(i as int), node@.id, views);
        proof {
            assert(next.drop_last() =~= ports.take(i as int));
            assert(next.last() == port@);
        }
        if port.required && !is_connected(
            edges,
            edges.len(),
            node.id.as_str(),
            port.id.as_str(),
        ) {
            proof {
                assert(labels.push(port.label@).drop_last() =~= labels);
                assert(missing@ + port.label@ =~= port.label@ || labels.len() > 0);
            }
            if any {
                missing.append(", ");
            }
            missing.append(port.label.as_str());
            any = true;
        }
        i = i + 1;
    }
    proof {
        assert(ports.take(i as int) =~= ports);
    }
    if any {
        (NodeRuntimeState::Disabled, concat("precondition unmet: connect ", missing.as_str()))
    } else {
        (NodeRuntimeState::Idle, "ready to start".to_owned())
    }
}

/// A node is disabled exactly while one of its required inputs is open.
pub proof fn law_disabled_means_open_input(node: NodeView, edges: Seq<EdgeView>)
    ensures
        wired_state(node, edges) == NodeRuntimeState::Disabled <==> exists|i: int|
            0 <= i < node.inputs.len() && (#[trigger] node.inputs[i]).required && !connected(
                edges,
                node.id,
                node.inputs[i].id,
            ),
{
    lemma_unmet(node.inputs, node.id, edges);
}

proof fn lemma_unmet(ports: Seq<PortView>, node: Seq<char>, edges: Seq<EdgeView>)
    ensures
        unmet(ports, node, edges).len() > 0 <==> exists|i: int|
            0 <= i < ports.len() && (#[trigger] ports[i]).required && !connected(
                edges,
                node,
                ports[i].id,
            ),
    decreases ports.len(),
{
    if ports.len() > 0 {
        let init = ports.drop_last();
        lemma_unmet(init, node, edges);
        let last = ports.len() - 1;
        if ports[last].required && !connected(edges, node, ports[last].id) {
            assert(ports[last].required);
        } else {
            if exists|i: int|
                0 <= i < init.len() && (#[trigger] init[i]).required && !connected(
                    edges,
                    node,
                    init[i].id,
                ) {
                let i = choose|i: int|
                    0 <= i < init.len() && (#[trigger] init[i]).required && !connected(
                        edges,
                        node,
                        init[i].id,
                    );
                assert(ports[i] == init[i]);
            }
            if exists|i: int|
                0 <= i < ports.len() && (#[trigger] ports[i]).required && !connected(
                    edges,
                    node,
                    ports[i].id,
                ) {
                let i = choose|i: int|
                    0 <= i < ports.len() && (#[trigger] ports[i]).required && !connected(
                        edges,
                        node,
                        ports[i].id,
                    );
                assert(ports[i] == init[i]);
            }
        }
    }
}

} // verus!
