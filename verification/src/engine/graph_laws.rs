//! Laws of the graph: what every change keeps.
use crate::engine::channel::MessageView;
use crate::engine::graph::{
    build_fault, built, edges_fault, edges_without, keyed, routes, touches, wires_cut, GraphState,
};
use crate::engine::node::NodeErrorView;
use crate::engine::spec::{port_index, NodeView, PortCardinality};
use crate::engine::topology::{
    connected, edge_fault, edge_index, edges_distinct, lemma_edge_index, lemma_node_index,
    node_index, nodes_distinct, EdgeView, EndpointView,
};
use crate::json::JsonTree;
use vstd::prelude::*;

verus! {

/// Whether an edge fits the nodes: both ends exist and carry the same kind.
pub open spec fn fits(edge: EdgeView, nodes: Seq<NodeView>) -> bool {
    edge_fault(edge, nodes, Seq::empty()) is None
}

/// The node with the given identity.
pub open spec fn node_named(nodes: Seq<NodeView>, id: Seq<char>) -> Option<NodeView> {
    match node_index(nodes, id) {
        Some(i) => Some(nodes[i]),
        None => None,
    }
}

/// Whether the input that an edge ends in takes one edge only.
pub open spec fn exclusive(edge: EdgeView, nodes: Seq<NodeView>) -> bool {
    match node_named(nodes, edge.target.node) {
        Some(node) => match port_index(node.inputs, edge.target.port) {
            Some(i) => node.inputs[i].cardinality == PortCardinality::One,
            None => false,
        },
        None => false,
    }
}

/// Two edges do not meet in an input that takes one only.
pub open spec fn apart(a: EdgeView, b: EdgeView, nodes: Seq<NodeView>) -> bool {
    a.target == b.target ==> !exclusive(b, nodes)
}

/// Packets travel along every edge.
pub open spec fn wired(edges: Seq<EdgeView>, wires: Seq<EdgeView>) -> bool {
    forall|i: int| 0 <= i < edges.len() ==> wires.contains(#[trigger] edges[i])
}

impl GraphState {
    /// Identities are single, every edge and wire fits its ports, every edge is wired, and no input
    /// that takes one edge has two.
    pub open spec fn consistent(self) -> bool {
        &&& self.nodes.len() == self.slots.len()
        &&& nodes_distinct(self.nodes)
        &&& edges_distinct(self.edges)
        &&& forall|i: int|
            0 <= i < self.edges.len() ==> fits(#[trigger] self.edges[i], self.nodes)
        &&& forall|i: int|
            0 <= i < self.wires.len() ==> fits(#[trigger] self.wires[i], self.nodes)
        &&& wired(self.edges, self.wires)
        &&& forall|i: int, j: int|
            0 <= i < j < self.edges.len() ==> apart(
                #[trigger] self.edges[i],
                #[trigger] self.edges[j],
                self.nodes,
            )
    }
}

proof fn lemma_fault_by_named_nodes(
    edge: EdgeView,
    nodes: Seq<NodeView>,
    others: Seq<NodeView>,
    before: Seq<EdgeView>,
)
    requires
        node_named(nodes, edge.source.node) is Some == node_named(
            others,
            edge.source.node,
        ) is Some,
        node_named(nodes, edge.target.node) is Some == node_named(
            others,
            edge.target.node,
        ) is Some,
        node_named(nodes, edge.source.node) is Some ==> node_named(
            nodes,
            edge.source.node,
        )->Some_0.outputs == node_named(others, edge.source.node)->Some_0.outputs,
        node_named(nodes, edge.target.node) is Some ==> node_named(
            nodes,
            edge.target.node,
        )->Some_0.inputs == node_named(others, edge.target.node)->Some_0.inputs,
    ensures
        edge_fault(edge, nodes, before) == edge_fault(edge, others, before),
        exclusive(edge, nodes) == exclusive(edge, others),
{
}

proof fn lemma_named_after_push(nodes: Seq<NodeView>, node: NodeView, id: Seq<char>)
    requires
        node.id != id,
    ensures
        node_named(nodes.push(node), id) == node_named(nodes, id),
{
    assert(nodes.push(node).drop_last() =~= nodes);
    lemma_node_index(nodes, id);
}

proof fn lemma_named_after_remove(nodes: Seq<NodeView>, i: int, id: Seq<char>)
    requires
        nodes_distinct(nodes),
        0 <= i < nodes.len(),
        nodes[i].id != id,
    ensures
        node_named(nodes.remove(i), id) == node_named(nodes, id),
{
    let fewer = nodes.remove(i);
    lemma_node_index(nodes, id);
    lemma_node_index(fewer, id);
    match node_index(nodes, id) {
        Some(k) => {
            let m = if k < i {
                k
            } else {
                k - 1
            };
            assert(fewer[m] == nodes[k]);
            match node_index(fewer, id) {
                Some(n) => {
                    let back = if n < i {
                        n
                    } else {
                        n + 1
                    };
                    assert(nodes[back] == fewer[n]);
                    assert(back == k);
                },
                None => {},
            }
        },
        None => {
            match node_index(fewer, id) {
                Some(n) => {
                    let back = if n < i {
                        n
                    } else {
                        n + 1
                    };
                    assert(nodes[back] == fewer[n]);
                },
                None => {},
            }
        },
    }
}

proof fn lemma_index_after_update(nodes: Seq<NodeView>, i: int, node: NodeView, id: Seq<char>)
    requires
        0 <= i < nodes.len(),
        node.id == nodes[i].id,
    ensures
        node_index(nodes.update(i, node), id) == node_index(nodes, id),
{
    let updated = nodes.update(i, node);
    lemma_node_index(nodes, id);
    lemma_node_index(updated, id);
    match (node_index(nodes, id), node_index(updated, id)) {
        (Some(a), Some(b)) => {
            assert(updated[a].id == id);
            assert(nodes[b].id == id);
        },
        (Some(a), None) => {
            assert(updated[a].id == id);
        },
        (None, Some(b)) => {
            assert(nodes[b].id == id);
        },
        (None, None) => {},
    }
}

proof fn lemma_edge_fault_by_connection(
    edge: EdgeView,
    nodes: Seq<NodeView>,
    before: Seq<EdgeView>,
)
    ensures
        edge_fault(edge, nodes, before) is None <==> fits(edge, nodes) && !(exclusive(edge, nodes)
            && connected(before, edge.target.node, edge.target.port)),
{
}

proof fn lemma_edges_fault_none(nodes: Seq<NodeView>, edges: Seq<EdgeView>, q: int)
    requires
        edges_fault(nodes, edges) is None,
        0 <= q < edges.len(),
    ensures
        edge_fault(edges[q], nodes, edges.take(q)) is None,
    decreases edges.len(),
{
    if q == edges.len() - 1 {
        assert(edges.drop_last() =~= edges.take(q));
    } else {
        lemma_edges_fault_none(nodes, edges.drop_last(), q);
        assert(edges.drop_last().take(q) =~= edges.take(q));
        assert(edges.drop_last()[q] == edges[q]);
    }
}

proof fn lemma_keyed(edges: Seq<EdgeView>)
    ensures
        edges_distinct(keyed(edges)),
        forall|i: int| 0 <= i < keyed(edges).len() ==> edges.contains(#[trigger] keyed(edges)[i]),
    decreases edges.len(),
{
    if edges.len() > 0 {
        let init = edges.drop_last();
        let edge = edges.last();
        let rest = keyed(init);
        lemma_keyed(init);
        lemma_edge_index(rest, edge.id);
        let all = keyed(edges);
        assert forall|i: int| 0 <= i < all.len() implies edges.contains(#[trigger] all[i]) by {
            if all[i] == edge {
                assert(edges[edges.len() - 1] == edge);
            } else {
                assert(rest[i] == all[i]);
                assert(init.contains(rest[i]));
                let k = choose|k: int| 0 <= k < init.len() && init[k] == rest[i];
                assert(edges[k] == rest[i]);
            }
        }
        assert forall|i: int, j: int| 0 <= i < j < all.len() implies (#[trigger] all[i]).id != (
        #[trigger] all[j]).id by {
            match edge_index(rest, edge.id) {
                Some(k) => {
                    assert(rest[k].id == edge.id);
                    if i == k {
                        assert(all[j] == rest[j]);
                        assert(rest[i].id != rest[j].id);
                    } else if j == k {
                        assert(all[i] == rest[i]);
                        assert(rest[i].id != rest[j].id);
                    } else {
                        assert(all[i] == rest[i] && all[j] == rest[j]);
                    }
                },
                None => {
                    assert(all[i] == rest[i]);
                    if j < rest.len() {
                        assert(all[j] == rest[j]);
                    }
                },
            }
        }
    }
}

/// A graph that was built is consistent.
pub proof fn law_built_graph_is_consistent(
    nodes: Seq<NodeView>,
    edges: Seq<EdgeView>,
    kinds: Seq<Seq<char>>,
    failures: Seq<Option<NodeErrorView>>,
)
    requires
        build_fault(nodes, edges, kinds, failures) is None,
        nodes_distinct(nodes),
    ensures
        built(nodes, edges).consistent(),
{
    let state = built(nodes, edges);
    lemma_keyed(edges);
    assert forall|q: int| 0 <= q < edges.len() implies fits(#[trigger] edges[q], nodes) by {
        lemma_edges_fault_none(nodes, edges, q);
        lemma_edge_fault_by_connection(edges[q], nodes, edges.take(q));
    }
    assert forall|i: int| 0 <= i < state.edges.len() implies fits(
        #[trigger] state.edges[i],
        nodes,
    ) by {
        assert(edges.contains(state.edges[i]));
        let q = choose|q: int| 0 <= q < edges.len() && edges[q] == state.edges[i];
        lemma_edges_fault_none(nodes, edges, q);
        lemma_edge_fault_by_connection(edges[q], nodes, edges.take(q));
    }
    assert forall|i: int, j: int| 0 <= i < j < state.edges.len() implies apart(
        #[trigger] state.edges[i],
        #[trigger] state.edges[j],
        nodes,
    ) by {
        assert(edges.contains(state.edges[i]));
        assert(edges.contains(state.edges[j]));
        let p = choose|p: int| 0 <= p < edges.len() && edges[p] == state.edges[i];
        let q = choose|q: int| 0 <= q < edges.len() && edges[q] == state.edges[j];
        assert(state.edges[i].id != state.edges[j].id);
        if edges[p].target == edges[q].target {
            let (a, b) = if p < q {
                (p, q)
            } else {
                (q, p)
            };
            lemma_edges_fault_none(nodes, edges, b);
            lemma_edge_fault_by_connection(edges[b], nodes, edges.take(b));
            assert(edges.take(b)[a].target == EndpointView {
                node: edges[b].target.node,
                port: edges[b].target.port,
            });
            assert(connected(edges.take(b), edges[b].target.node, edges[b].target.port));
        }
    }
}

proof fn lemma_fit_after_push(edge: EdgeView, nodes: Seq<NodeView>, node: NodeView)
    requires
        fits(edge, nodes),
        node_index(nodes, node.id) is None,
    ensures
        fits(edge, nodes.push(node)),
        exclusive(edge, nodes.push(node)) == exclusive(edge, nodes),
{
    lemma_node_index(nodes, node.id);
    lemma_node_index(nodes, edge.source.node);
    lemma_node_index(nodes, edge.target.node);
    lemma_named_after_push(nodes, node, edge.source.node);
    lemma_named_after_push(nodes, node, edge.target.node);
    lemma_fault_by_named_nodes(edge, nodes, nodes.push(node), Seq::empty());
}

/// Adding a node under a new identity keeps a graph consistent.
pub proof fn law_adding_a_node_keeps_consistency(state: GraphState, node: NodeView)
    requires
        state.consistent(),
        node_index(state.nodes, node.id) is None,
    ensures
        state.with_node(node).consistent(),
{
    let after = state.with_node(node);
    lemma_node_index(state.nodes, node.id);
    assert forall|i: int, j: int| 0 <= i < j < after.nodes.len() implies (
    #[trigger] after.nodes[i]).id != (#[trigger] after.nodes[j]).id by {
        assert(after.nodes[i] == state.nodes[i]);
        if j < state.nodes.len() {
            assert(after.nodes[j] == state.nodes[j]);
        }
    }
    assert forall|i: int| 0 <= i < after.edges.len() implies fits(
        #[trigger] after.edges[i],
        after.nodes,
    ) && exclusive(after.edges[i], after.nodes) == exclusive(after.edges[i], state.nodes) by {
        assert(fits(state.edges[i], state.nodes));
        lemma_fit_after_push(state.edges[i], state.nodes, node);
    }
    assert forall|i: int| 0 <= i < after.wires.len() implies fits(
        #[trigger] after.wires[i],
        after.nodes,
    ) by {
        assert(fits(state.wires[i], state.nodes));
        lemma_fit_after_push(state.wires[i], state.nodes, node);
    }
    assert forall|i: int, j: int| 0 <= i < j < after.edges.len() implies apart(
        #[trigger] after.edges[i],
        #[trigger] after.edges[j],
        after.nodes,
    ) by {
        assert(apart(state.edges[i], state.edges[j], state.nodes));
    }
}

proof fn lemma_edges_without(edges: Seq<EdgeView>, node: Seq<char>)
    ensures
        forall|i: int|
            0 <= i < edges_without(edges, node).len() ==> !touches(
                #[trigger] edges_without(edges, node)[i],
                node,
            ),
        forall|i: int|
            0 <= i < edges_without(edges, node).len() ==> edges.contains(
                #[trigger] edges_without(edges, node)[i],
            ),
        forall|edge: EdgeView|
            edges.contains(edge) && !touches(edge, node) ==> #[trigger] edges_without(
                edges,
                node,
            ).contains(edge),
        edges_distinct(edges) ==> edges_distinct(edges_without(edges, node)),
    decreases edges.len(),
{
    if edges.len() > 0 {
        let init = edges.drop_last();
        let rest = edges_without(init, node);
        let all = edges_without(edges, node);
        lemma_edges_without(init, node);
        assert forall|i: int| 0 <= i < all.len() implies edges.contains(#[trigger] all[i])
            && !touches(all[i], node) by {
            if i < rest.len() {
                assert(all[i] == rest[i]);
                let k = choose|k: int| 0 <= k < init.len() && init[k] == rest[i];
                assert(edges[k] == rest[i]);
            } else {
                assert(edges[edges.len() - 1] == all[i]);
            }
        }
        assert forall|edge: EdgeView|
            edges.contains(edge) && !touches(edge, node) implies #[trigger] edges_without(
            edges,
            node,
        ).contains(edge) by {
            let k = choose|k: int| 0 <= k < edges.len() && edges[k] == edge;
            if k < init.len() {
                assert(init[k] == edge);
                assert(rest.contains(edge));
                let m = choose|m: int| 0 <= m < rest.len() && rest[m] == edge;
                assert(all[m] == edge);
            } else {
                assert(all[all.len() - 1] == edge);
            }
        }
        if edges_distinct(edges) {
            assert(edges_distinct(init)) by {
                assert forall|i: int, j: int| 0 <= i < j < init.len() implies (
                #[trigger] init[i]).id != (#[trigger] init[j]).id by {
                    assert(init[i] == edges[i] && init[j] == edges[j]);
                }
            }
            assert forall|i: int, j: int| 0 <= i < j < all.len() implies (
            #[trigger] all[i]).id != (#[trigger] all[j]).id by {
                assert(all[i] == rest[i]);
                if j < rest.len() {
                    assert(all[j] == rest[j]);
                } else {
                    let k = choose|k: int| 0 <= k < init.len() && init[k] == rest[i];
                    assert(edges[k] == rest[i]);
                    assert(edges[edges.len() - 1] == all[j]);
                }
            }
        }
    }
}

proof fn lemma_fit_after_remove(edge: EdgeView, nodes: Seq<NodeView>, i: int)
    requires
        nodes_distinct(nodes),
        0 <= i < nodes.len(),
        fits(edge, nodes),
        !touches(edge, nodes[i].id),
    ensures
        fits(edge, nodes.remove(i)),
        exclusive(edge, nodes.remove(i)) == exclusive(edge, nodes),
{
    lemma_named_after_remove(nodes, i, edge.source.node);
    lemma_named_after_remove(nodes, i, edge.target.node);
    lemma_fault_by_named_nodes(edge, nodes, nodes.remove(i), Seq::empty());
}

/// Removing a node keeps a graph consistent and leaves no edge or wire that touches the node.
pub proof fn law_removing_a_node_keeps_consistency(state: GraphState, i: int)
    requires
        state.consistent(),
        0 <= i < state.nodes.len(),
    ensures
        state.without_node(i).consistent(),
        forall|k: int|
            0 <= k < state.without_node(i).edges.len() ==> !touches(
                #[trigger] state.without_node(i).edges[k],
                state.nodes[i].id,
            ),
        forall|k: int|
            0 <= k < state.without_node(i).wires.len() ==> !touches(
                #[trigger] state.without_node(i).wires[k],
                state.nodes[i].id,
            ),
{
    let gone = state.nodes[i].id;
    let after = state.without_node(i);
    lemma_edges_without(state.edges, gone);
    lemma_edges_without(state.wires, gone);
    assert forall|a: int, b: int| 0 <= a < b < after.nodes.len() implies (
    #[trigger] after.nodes[a]).id != (#[trigger] after.nodes[b]).id by {
        let x = if a < i {
            a
        } else {
            a + 1
        };
        let y = if b < i {
            b
        } else {
            b + 1
        };
        assert(after.nodes[a] == state.nodes[x] && after.nodes[b] == state.nodes[y]);
    }
    assert forall|k: int| 0 <= k < after.edges.len() implies fits(
        #[trigger] after.edges[k],
        after.nodes,
    ) && exclusive(after.edges[k], after.nodes) == exclusive(after.edges[k], state.nodes) by {
        let edge = after.edges[k];
        assert(state.edges.contains(edge));
        let m = choose|m: int| 0 <= m < state.edges.len() && state.edges[m] == edge;
        assert(fits(state.edges[m], state.nodes));
        assert(state.wires.contains(state.edges[m]));
        assert(!touches(edge, gone));
        lemma_fit_after_remove(edge, state.nodes, i);
    }
    assert forall|k: int| 0 <= k < after.wires.len() implies fits(
        #[trigger] after.wires[k],
        after.nodes,
    ) by {
        let wire = after.wires[k];
        assert(state.wires.contains(wire));
        let m = choose|m: int| 0 <= m < state.wires.len() && state.wires[m] == wire;
        assert(fits(state.wires[m], state.nodes));
        lemma_fit_after_remove(wire, state.nodes, i);
    }
    assert forall|k: int| 0 <= k < after.edges.len() implies after.wires.contains(
        #[trigger] after.edges[k],
    ) by {
        let edge = after.edges[k];
        assert(state.edges.contains(edge));
        let m = choose|m: int| 0 <= m < state.edges.len() && state.edges[m] == edge;
        assert(state.wires.contains(state.edges[m]));
        assert(!touches(edge, gone));
    }
    assert forall|a: int, b: int| 0 <= a < b < after.edges.len() implies apart(
        #[trigger] after.edges[a],
        #[trigger] after.edges[b],
        after.nodes,
    ) by {
        let x = choose|x: int| 0 <= x < state.edges.len() && state.edges[x] == after.edges[a];
        let y = choose|y: int| 0 <= y < state.edges.len() && state.edges[y] == after.edges[b];
        assert(after.edges[a].id != after.edges[b].id);
        if x < y {
            assert(apart(state.edges[x], state.edges[y], state.nodes));
        } else {
            assert(apart(state.edges[y], state.edges[x], state.nodes));
        }
    }
}

/// Adding an edge that is accepted keeps a graph consistent.
pub proof fn law_adding_an_edge_keeps_consistency(state: GraphState, edge: EdgeView)
    requires
        state.consistent(),
        state.add_edge_fault(edge) is None,
    ensures
        state.with_edge(edge).consistent(),
{
    let after = state.with_edge(edge);
    lemma_edge_index(state.edges, edge.id);
    lemma_edge_fault_by_connection(edge, state.nodes, state.edges);
    assert forall|i: int, j: int| 0 <= i < j < after.edges.len() implies (
    #[trigger] after.edges[i]).id != (#[trigger] after.edges[j]).id by {
        assert(after.edges[i] == state.edges[i]);
        if j < state.edges.len() {
            assert(after.edges[j] == state.edges[j]);
        }
    }
    assert forall|i: int| 0 <= i < after.edges.len() implies fits(
        #[trigger] after.edges[i],
        after.nodes,
    ) by {
        if i < state.edges.len() {
            assert(after.edges[i] == state.edges[i]);
        }
    }
    assert forall|i: int| 0 <= i < after.wires.len() implies fits(
        #[trigger] after.wires[i],
        after.nodes,
    ) by {
        if i < state.wires.len() {
            assert(after.wires[i] == state.wires[i]);
        }
    }
    assert forall|i: int| 0 <= i < after.edges.len() implies after.wires.contains(
        #[trigger] after.edges[i],
    ) by {
        if i < state.edges.len() {
            assert(state.wires.contains(state.edges[i]));
            let k = choose|k: int| 0 <= k < state.wires.len() && state.wires[k] == state.edges[i];
            assert(after.wires[k] == after.edges[i]);
        } else {
            assert(after.wires[state.wires.len() as int] == edge);
        }
    }
    assert forall|i: int, j: int| 0 <= i < j < after.edges.len() implies apart(
        #[trigger] after.edges[i],
        #[trigger] after.edges[j],
        after.nodes,
    ) by {
        assert(after.edges[i] == state.edges[i]);
        if j < state.edges.len() {
            assert(after.edges[j] == state.edges[j]);
        } else if state.edges[i].target == edge.target {
            assert(connected(state.edges, edge.target.node, edge.target.port));
        }
    }
}

proof fn lemma_wires_cut(wires: Seq<EdgeView>, edge: EdgeView)
    ensures
        forall|wire: EdgeView| #[trigger]
            wires_cut(wires, edge).contains(wire) <==> wires.contains(wire) && wire != edge,
    decreases wires.len(),
{
    let all = wires_cut(wires, edge);
    if wires.len() > 0 {
        let init = wires.drop_last();
        let rest = wires_cut(init, edge);
        lemma_wires_cut(init, edge);
        assert forall|wire: EdgeView| #[trigger]
            wires_cut(wires, edge).contains(wire) <==> wires.contains(wire) && wire != edge by {
            if all.contains(wire) {
                let k = choose|k: int| 0 <= k < all.len() && all[k] == wire;
                if k < rest.len() {
                    assert(rest[k] == wire);
                    assert(rest.contains(wire));
                    let m = choose|m: int| 0 <= m < init.len() && init[m] == wire;
                    assert(wires[m] == wire);
                } else {
                    assert(wires[wires.len() - 1] == wire);
                }
            }
            if wires.contains(wire) && wire != edge {
                let k = choose|k: int| 0 <= k < wires.len() && wires[k] == wire;
                if k < init.len() {
                    assert(init[k] == wire);
                    assert(rest.contains(wire));
                    let m = choose|m: int| 0 <= m < rest.len() && rest[m] == wire;
                    assert(all[m] == wire);
                } else {
                    assert(all[all.len() - 1] == wire);
                }
            }
        }
    }
}

proof fn lemma_nothing_to_cut(wires: Seq<EdgeView>, edge: EdgeView)
    requires
        !wires.contains(edge),
    ensures
        wires_cut(wires, edge) == wires,
    decreases wires.len(),
{
    if wires.len() > 0 {
        let init = wires.drop_last();
        assert(wires[wires.len() - 1] != edge);
        assert forall|k: int| 0 <= k < init.len() implies init[k] != edge by {
            assert(init[k] == wires[k]);
            assert(wires.contains(wires[k]));
        }
        lemma_nothing_to_cut(init, edge);
        assert(init.push(wires.last()) =~= wires);
    } else {
        assert(wires_cut(wires, edge) =~= wires);
    }
}

/// Removing an edge keeps a graph consistent, and nothing is wired along it any more.
pub proof fn law_removing_an_edge_keeps_consistency(state: GraphState, i: int)
    requires
        state.consistent(),
        0 <= i < state.edges.len(),
    ensures
        state.without_edge(i).consistent(),
        !state.without_edge(i).wires.contains(state.edges[i]),
{
    let after = state.without_edge(i);
    lemma_wires_cut(state.wires, state.edges[i]);
    assert forall|k: int| 0 <= k < after.wires.len() implies fits(
        #[trigger] after.wires[k],
        after.nodes,
    ) by {
        assert(after.wires.contains(after.wires[k]));
        let m = choose|m: int| 0 <= m < state.wires.len() && state.wires[m] == after.wires[k];
        assert(fits(state.wires[m], state.nodes));
    }
    assert forall|a: int| 0 <= a < after.edges.len() implies after.wires.contains(
        #[trigger] after.edges[a],
    ) by {
        let x = if a < i {
            a
        } else {
            a + 1
        };
        assert(after.edges[a] == state.edges[x]);
        assert(state.wires.contains(state.edges[x]));
        assert(state.edges[x].id != state.edges[i].id);
    }
    assert forall|a: int| 0 <= a < after.edges.len() implies fits(
        #[trigger] after.edges[a],
        after.nodes,
    ) by {
        let x = if a < i {
            a
        } else {
            a + 1
        };
        assert(after.edges[a] == state.edges[x]);
    }
    assert forall|a: int, b: int| 0 <= a < b < after.edges.len() implies (
    #[trigger] after.edges[a]).id != (#[trigger] after.edges[b]).id && apart(
        after.edges[a],
        after.edges[b],
        after.nodes,
    ) by {
        let x = if a < i {
            a
        } else {
            a + 1
        };
        let y = if b < i {
            b
        } else {
            b + 1
        };
        assert(after.edges[a] == state.edges[x] && after.edges[b] == state.edges[y]);
        assert(apart(state.edges[x], state.edges[y], state.nodes));
    }
}

proof fn lemma_fit_after_update(edge: EdgeView, nodes: Seq<NodeView>, i: int, config: JsonTree)
    requires
        0 <= i < nodes.len(),
        fits(edge, nodes),
    ensures
        ({
            let updated = nodes.update(i, NodeView { config, ..nodes[i] });
            fits(edge, updated) && exclusive(edge, updated) == exclusive(edge, nodes)
        }),
{
    let node = NodeView { config, ..nodes[i] };
    lemma_index_after_update(nodes, i, node, edge.source.node);
    lemma_index_after_update(nodes, i, node, edge.target.node);
    lemma_node_index(nodes, edge.source.node);
    lemma_node_index(nodes, edge.target.node);
    lemma_fault_by_named_nodes(edge, nodes, nodes.update(i, node), Seq::empty());
}

/// A new configuration keeps a graph consistent.
pub proof fn law_updating_a_node_keeps_consistency(state: GraphState, i: int, config: JsonTree)
    requires
        state.consistent(),
        0 <= i < state.nodes.len(),
    ensures
        (GraphState {
            nodes: state.nodes.update(i, NodeView { config, ..state.nodes[i] }),
            ..state
        }).consistent(),
{
    let node = NodeView { config, ..state.nodes[i] };
    let after = GraphState { nodes: state.nodes.update(i, node), ..state };
    assert forall|a: int, b: int| 0 <= a < b < after.nodes.len() implies (
    #[trigger] after.nodes[a]).id != (#[trigger] after.nodes[b]).id by {
        assert(after.nodes[a].id == state.nodes[a].id);
        assert(after.nodes[b].id == state.nodes[b].id);
    }
    assert forall|k: int| 0 <= k < after.edges.len() implies fits(
        #[trigger] after.edges[k],
        after.nodes,
    ) && exclusive(after.edges[k], after.nodes) == exclusive(after.edges[k], state.nodes) by {
        assert(fits(state.edges[k], state.nodes));
        lemma_fit_after_update(state.edges[k], state.nodes, i, config);
    }
    assert forall|k: int| 0 <= k < after.wires.len() implies fits(
        #[trigger] after.wires[k],
        after.nodes,
    ) by {
        assert(fits(state.wires[k], state.nodes));
        lemma_fit_after_update(state.wires[k], state.nodes, i, config);
    }
    assert forall|a: int, b: int| 0 <= a < b < after.edges.len() implies apart(
        #[trigger] after.edges[a],
        #[trigger] after.edges[b],
        after.nodes,
    ) by {
        assert(apart(state.edges[a], state.edges[b], state.nodes));
    }
}

/// Removing an edge that was just added, and was not wired before, gives the graph back as it was.
pub proof fn law_add_then_remove_edge(state: GraphState, edge: EdgeView)
    requires
        state.add_edge_fault(edge) is None,
        !state.wires.contains(edge),
    ensures
        edge_index(state.with_edge(edge).edges, edge.id) == Some(state.edges.len() as int),
        state.with_edge(edge).without_edge(state.edges.len() as int) == state,
{
    assert(state.wires.push(edge).drop_last() =~= state.wires);
    lemma_nothing_to_cut(state.wires, edge);
    assert(state.edges.push(edge).drop_last() =~= state.edges);
    assert(state.edges.push(edge).remove(state.edges.len() as int) =~= state.edges);
}

/// Removing a node that was just added, and has no edge, gives the nodes and edges back.
pub proof fn law_add_then_remove_node(state: GraphState, node: NodeView)
    requires
        state.consistent(),
        node_index(state.nodes, node.id) is None,
    ensures
        node_index(state.with_node(node).nodes, node.id) == Some(state.nodes.len() as int),
        state.with_node(node).without_node(state.nodes.len() as int).nodes == state.nodes,
        state.with_node(node).without_node(state.nodes.len() as int).slots == state.slots,
        state.with_node(node).without_node(state.nodes.len() as int).edges == state.edges,
        state.with_node(node).without_node(state.nodes.len() as int).wires == state.wires,
{
    let last = state.nodes.len() as int;
    assert(state.nodes.push(node).remove(last) =~= state.nodes);
    assert(state.with_node(node).slots.remove(last) =~= state.slots);
    lemma_node_index(state.nodes, node.id);
    assert forall|i: int| 0 <= i < state.edges.len() implies !touches(
        #[trigger] state.edges[i],
        node.id,
    ) by {
        assert(fits(state.edges[i], state.nodes));
        lemma_node_index(state.nodes, state.edges[i].source.node);
        lemma_node_index(state.nodes, state.edges[i].target.node);
    }
    lemma_untouched_edges_stay(state.edges, node.id);
    assert forall|i: int| 0 <= i < state.wires.len() implies !touches(
        #[trigger] state.wires[i],
        node.id,
    ) by {
        assert(fits(state.wires[i], state.nodes));
        lemma_node_index(state.nodes, state.wires[i].source.node);
        lemma_node_index(state.nodes, state.wires[i].target.node);
    }
    lemma_untouched_edges_stay(state.wires, node.id);
}

proof fn lemma_untouched_edges_stay(edges: Seq<EdgeView>, node: Seq<char>)
    requires
        forall|i: int| 0 <= i < edges.len() ==> !touches(#[trigger] edges[i], node),
    ensures
        edges_without(edges, node) == edges,
    decreases edges.len(),
{
    if edges.len() > 0 {
        lemma_untouched_edges_stay(edges.drop_last(), node);
        assert(edges.drop_last().push(edges.last()) =~= edges);
    } else {
        assert(edges_without(edges, node) =~= edges);
    }
}

/// In a consistent graph packets are only ever routed to input ports that exist.
pub proof fn law_routes_end_in_existing_ports(state: GraphState, source: EndpointView, k: int)
    requires
        state.consistent(),
        0 <= k < routes(state.wires, source).len(),
    ensures
        ({
            let target = routes(state.wires, source)[k];
            node_named(state.nodes, target.node) is Some && port_index(
                node_named(state.nodes, target.node)->Some_0.inputs,
                target.port,
            ) is Some
        }),
{
    lemma_route_is_a_wire(state.wires, source, k);
    let i = choose|i: int|
        0 <= i < state.wires.len() && (#[trigger] state.wires[i]).source == source
            && state.wires[i].target == routes(state.wires, source)[k];
    assert(fits(state.wires[i], state.nodes));
}

proof fn lemma_route_is_a_wire(wires: Seq<EdgeView>, source: EndpointView, k: int)
    requires
        0 <= k < routes(wires, source).len(),
    ensures
        exists|i: int|
            0 <= i < wires.len() && (#[trigger] wires[i]).source == source && wires[i].target
                == routes(wires, source)[k],
    decreases wires.len(),
{
    if wires.len() > 0 {
        let init = wires.drop_last();
        let rest = routes(init, source);
        if k < rest.len() {
            lemma_route_is_a_wire(init, source, k);
            let i = choose|i: int|
                0 <= i < init.len() && (#[trigger] init[i]).source == source && init[i].target
                    == rest[k];
            assert(wires[i] == init[i]);
        } else {
            assert(wires[wires.len() - 1].source == source);
        }
    }
}

/// An edge fans out: after an edge was added its target is among the routes of its source.
pub proof fn law_added_edge_is_routed(state: GraphState, edge: EdgeView)
    ensures
        routes(state.with_edge(edge).wires, edge.source) == routes(state.wires, edge.source).push(
            edge.target,
        ),
{
    assert(state.wires.push(edge).drop_last() =~= state.wires);
}

/// Every edge that a graph was built from is routed, also where several share an identity.
pub proof fn law_every_given_edge_is_routed(nodes: Seq<NodeView>, edges: Seq<EdgeView>, i: int)
    requires
        0 <= i < edges.len(),
    ensures
        routes(built(nodes, edges).wires, edges[i].source).contains(edges[i].target),
{
    lemma_wire_is_a_route(edges, i);
}

/// Every edge of a consistent graph is routed.
pub proof fn law_every_edge_is_routed(state: GraphState, i: int)
    requires
        state.consistent(),
        0 <= i < state.edges.len(),
    ensures
        routes(state.wires, state.edges[i].source).contains(state.edges[i].target),
{
    assert(state.wires.contains(state.edges[i]));
    let k = choose|k: int| 0 <= k < state.wires.len() && state.wires[k] == state.edges[i];
    lemma_wire_is_a_route(state.wires, k);
}

proof fn lemma_wire_is_a_route(wires: Seq<EdgeView>, i: int)
    requires
        0 <= i < wires.len(),
    ensures
        routes(wires, wires[i].source).contains(wires[i].target),
    decreases wires.len(),
{
    let init = wires.drop_last();
    let source = wires[i].source;
    let rest = routes(init, source);
    let all = routes(wires, source);
    if i < init.len() {
        lemma_wire_is_a_route(init, i);
        let k = choose|k: int| 0 <= k < rest.len() && rest[k] == wires[i].target;
        assert(all[k] == wires[i].target);
    } else {
        assert(all[all.len() - 1] == wires[i].target);
    }
}

/// A graph that was stopped takes nothing more: no mailbox accepts a message, and no input port of
/// its nodes a packet. Stopping it again changes nothing.
pub proof fn law_stopped_graph_takes_nothing(state: GraphState, i: int, message: MessageView)
    requires
        state.nodes.len() == state.slots.len(),
        0 <= i < state.nodes.len(),
    ensures
        !state.stopped().slots[i].mailbox.takes(message),
        forall|target: EndpointView|
            node_index(state.nodes, target.node) is Some ==> !#[trigger] state.stopped().open(
                target,
            ),
        state.stopped().stopped() == state.stopped(),
{
    assert forall|target: EndpointView|
        node_index(state.nodes, target.node) is Some implies !#[trigger] state.stopped().open(
        target,
    ) by {
        lemma_node_index(state.nodes, target.node);
    }
    assert(state.stopped().stopped().slots =~= state.stopped().slots);
}

/// A node that is added to a stopped graph takes messages.
pub proof fn law_late_node_is_open(state: GraphState, node: NodeView, message: MessageView)
    requires
        state.nodes.len() == state.slots.len(),
    ensures
        state.stopped().with_node(node).slots.last().mailbox.takes(message),
{
}

} // verus!
