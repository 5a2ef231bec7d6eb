//! Laws of wiring and delivery: which edges a graph takes, where a packet goes, and what a mailbox
//! holds afterwards.
use crate::engine::channel::{bound, empty_mailbox, input_count, MailboxState, MessageView};
use crate::engine::graph::{
    build_fault, built, edges_fault, edges_without, instance_fault, node_fault, offered,
    offered_all, refused, routes, viewer_ids, GraphState, SlotView,
};
use crate::engine::node::NodeErrorView;
use crate::engine::packet::PacketView;
use crate::engine::registry::named;
use crate::engine::spec::{
    lemma_port_index, port_index, NodeRuntimeState, NodeView, PortCardinality, PortView,
};
use crate::engine::topology::{
    connected, edge_fault, lemma_node_index, node_index, nodes_distinct, unmet, wired_message,
    wired_state, EdgeView, EndpointView, GraphErrorView,
};
use vstd::prelude::*;

verus! {

/// Whether a port list has, as the first of its name, a port of some kind.
pub open spec fn offers(ports: Seq<PortView>, p: int, id: Seq<char>) -> bool {
    &&& 0 <= p < ports.len()
    &&& ports[p].id == id
    &&& forall|q: int| 0 <= q < p ==> (#[trigger] ports[q]).id != id
}

/// An edge joins a graph exactly where it leads from an output port that a node has to an input port
/// that a node has, both of one kind, and no earlier edge ends in that input unless it takes many.
pub proof fn law_edges_join_ports_of_one_kind(
    edge: EdgeView,
    nodes: Seq<NodeView>,
    before: Seq<EdgeView>,
)
    requires
        nodes_distinct(nodes),
    ensures
        edge_fault(edge, nodes, before) is None <==> exists|s: int, t: int, p: int, q: int|
            joins(edge, nodes, before, s, t, p, q),
        (forall|i: int| 0 <= i < nodes.len() ==> (#[trigger] nodes[i]).id != edge.source.node)
            ==> edge_fault(edge, nodes, before) == Some(
            GraphErrorView::MissingNode(edge.id, edge.source.node),
        ),
        edge_fault(edge, nodes, before) matches Some(GraphErrorView::PortKindMismatch { edge: e, from, to })
            ==> e == edge.id && from != to,
        edge_fault(edge, nodes, before) matches Some(GraphErrorView::CardinalityViolation { edge: e, node, port })
            ==> e == edge.id && node == edge.target.node && port == edge.target.port && exists|
            i: int,
        | 0 <= i < before.len() && (#[trigger] before[i]).target == edge.target,
{
    lemma_node_index(nodes, edge.source.node);
    lemma_node_index(nodes, edge.target.node);
    let source = node_index(nodes, edge.source.node);
    let target = node_index(nodes, edge.target.node);
    if source is Some {
        lemma_port_index(nodes[source->Some_0].outputs, edge.source.port);
    }
    if target is Some {
        lemma_port_index(nodes[target->Some_0].inputs, edge.target.port);
    }
    if edge_fault(edge, nodes, before) is None {
        let s = source->Some_0;
        let t = target->Some_0;
        let p = port_index(nodes[s].outputs, edge.source.port)->Some_0;
        let q = port_index(nodes[t].inputs, edge.target.port)->Some_0;
        assert(joins(edge, nodes, before, s, t, p, q));
    }
    if exists|s: int, t: int, p: int, q: int| joins(edge, nodes, before, s, t, p, q) {
        let (s, t, p, q) = choose|s: int, t: int, p: int, q: int|
            joins(edge, nodes, before, s, t, p, q);
        assert(nodes[s].id == edge.source.node);
        assert(nodes[t].id == edge.target.node);
        let s2 = source->Some_0;
        let t2 = target->Some_0;
        assert(s == s2) by {
            if s < s2 {
                assert(nodes[s].id != nodes[s2].id);
            } else if s2 < s {
                assert(nodes[s2].id != nodes[s].id);
            }
        }
        assert(t == t2) by {
            if t < t2 {
                assert(nodes[t].id != nodes[t2].id);
            } else if t2 < t {
                assert(nodes[t2].id != nodes[t].id);
            }
        }
        let p2 = port_index(nodes[s].outputs, edge.source.port)->Some_0;
        let q2 = port_index(nodes[t].inputs, edge.target.port)->Some_0;
        assert(nodes[s].outputs[p].id == edge.source.port);
        assert(nodes[t].inputs[q].id == edge.target.port);
        assert(p == p2) by {
            if p2 < p {
                assert(nodes[s].outputs[p2].id != edge.source.port);
            }
        }
        assert(q == q2) by {
            if q2 < q {
                assert(nodes[t].inputs[q2].id != edge.target.port);
            }
        }
        if connected(before, edge.target.node, edge.target.port) {
            let i = choose|i: int|
                0 <= i < before.len() && (#[trigger] before[i]).target == (EndpointView {
                    node: edge.target.node,
                    port: edge.target.port,
                });
            assert(before[i].target == edge.target);
        }
    }
}

/// Whether an edge leads from output `p` of node `s` to input `q` of node `t`.
pub open spec fn joins(
    edge: EdgeView,
    nodes: Seq<NodeView>,
    before: Seq<EdgeView>,
    s: int,
    t: int,
    p: int,
    q: int,
) -> bool {
    &&& 0 <= s < nodes.len() && nodes[s].id == edge.source.node
    &&& 0 <= t < nodes.len() && nodes[t].id == edge.target.node
    &&& offers(nodes[s].outputs, p, edge.source.port)
    &&& offers(nodes[t].inputs, q, edge.target.port)
    &&& nodes[s].outputs[p].kind == nodes[t].inputs[q].kind
    &&& nodes[t].inputs[q].cardinality == PortCardinality::Many || forall|i: int|
        0 <= i < before.len() ==> (#[trigger] before[i]).target != edge.target
}

proof fn lemma_node_fault_none(
    nodes: Seq<NodeView>,
    kinds: Seq<Seq<char>>,
    failures: Seq<Option<NodeErrorView>>,
)
    ensures
        node_fault(nodes, kinds, failures) is None <==> forall|i: int|
            0 <= i < nodes.len() ==> named(kinds, (#[trigger] nodes[i]).kind) && failures[i] is None,
    decreases nodes.len(),
{
    if nodes.len() > 0 {
        let init = nodes.drop_last();
        lemma_node_fault_none(init, kinds, failures);
        assert(forall|i: int| 0 <= i < init.len() ==> init[i] == nodes[i]);
        assert(nodes.last() == nodes[nodes.len() - 1]);
        if forall|i: int|
            0 <= i < nodes.len() ==> named(kinds, (#[trigger] nodes[i]).kind) && failures[i] is None {
            assert forall|i: int| 0 <= i < init.len() implies named(
                kinds,
                (#[trigger] init[i]).kind,
            ) && failures[i] is None by {
                assert(named(kinds, nodes[i].kind));
            }
        }
        if node_fault(nodes, kinds, failures) is None {
            assert forall|i: int| 0 <= i < nodes.len() implies named(
                kinds,
                (#[trigger] nodes[i]).kind,
            ) && failures[i] is None by {
                if i < init.len() {
                    assert(named(kinds, init[i].kind));
                }
            }
        }
    }
}

proof fn lemma_edges_fault_none(nodes: Seq<NodeView>, edges: Seq<EdgeView>)
    ensures
        edges_fault(nodes, edges) is None <==> forall|i: int|
            0 <= i < edges.len() ==> edge_fault(#[trigger] edges[i], nodes, edges.take(i)) is None,
    decreases edges.len(),
{
    if edges.len() > 0 {
        let init = edges.drop_last();
        lemma_edges_fault_none(nodes, init);
        assert forall|i: int| 0 <= i < init.len() implies init[i] == edges[i] && init.take(i)
            == edges.take(i) by {
            assert(init.take(i) =~= edges.take(i));
        }
        assert(edges.take(edges.len() - 1) =~= init);
        if edges_fault(nodes, edges) is None {
            assert forall|i: int| 0 <= i < edges.len() implies edge_fault(
                #[trigger] edges[i],
                nodes,
                edges.take(i),
            ) is None by {
                if i < init.len() {
                    assert(edge_fault(init[i], nodes, init.take(i)) is None);
                }
            }
        }
        if forall|i: int|
            0 <= i < edges.len() ==> edge_fault(#[trigger] edges[i], nodes, edges.take(i)) is None {
            assert forall|i: int| 0 <= i < init.len() implies edge_fault(
                #[trigger] init[i],
                nodes,
                init.take(i),
            ) is None by {
                assert(edge_fault(edges[i], nodes, edges.take(i)) is None);
            }
            assert(edge_fault(edges[edges.len() - 1], nodes, edges.take(edges.len() - 1)) is None);
        }
    }
}

/// A graph is built exactly where every node is of a known kind and its instance came up, and every
/// edge joins the nodes beside the edges before it.
pub proof fn law_graph_is_built_of_sound_parts(
    nodes: Seq<NodeView>,
    edges: Seq<EdgeView>,
    kinds: Seq<Seq<char>>,
    failures: Seq<Option<NodeErrorView>>,
)
    ensures
        build_fault(nodes, edges, kinds, failures) is None <==> {
            &&& forall|i: int|
                0 <= i < nodes.len() ==> kinds.contains((#[trigger] nodes[i]).kind)
                    && failures[i] is None
            &&& forall|i: int|
                0 <= i < edges.len() ==> edge_fault(#[trigger] edges[i], nodes, edges.take(i))
                    is None
        },
{
    lemma_node_fault_none(nodes, kinds, failures);
    lemma_edges_fault_none(nodes, edges);
    assert forall|kind: Seq<char>| named(kinds, kind) == #[trigger] kinds.contains(kind) by {
        if kinds.contains(kind) {
            let k = choose|k: int| 0 <= k < kinds.len() && kinds[k] == kind;
            assert(kinds[k] == kind);
        }
    }
}

/// A fresh engine holds a slot and a report for every node: a mailbox for four inputs in which
/// nothing waits, no output, no frame.
pub proof fn law_fresh_engine_waits(nodes: Seq<NodeView>, edges: Seq<EdgeView>, i: int)
    requires
        0 <= i < nodes.len(),
    ensures
        ({
            let state = built(nodes, edges);
            let slot = state.slots[i];
            &&& state.nodes == nodes && state.wires == edges
            &&& state.slots.len() == nodes.len() && state.reports.len() == nodes.len()
            &&& slot.mailbox.queue.len() == 0 && !slot.mailbox.closed && slot.mailbox.capacity == 4
            &&& slot.latest is None && slot.frame is None
            &&& state.reports[i].node == nodes[i].id
            &&& state.events.len() == 0
        }),
{
}

/// A node joins a running graph exactly where its identity is new, its kind is known, and its
/// instance came up.
pub proof fn law_new_nodes_join(
    state: GraphState,
    node: NodeView,
    kinds: Seq<Seq<char>>,
    failure: Option<NodeErrorView>,
)
    ensures
        state.add_node_fault(node, kinds, failure) is None <==> {
            &&& forall|i: int| 0 <= i < state.nodes.len() ==> (#[trigger] state.nodes[i]).id
                != node.id
            &&& kinds.contains(node.kind)
            &&& failure is None
        },
        (exists|i: int| 0 <= i < state.nodes.len() && (#[trigger] state.nodes[i]).id == node.id)
            ==> state.add_node_fault(node, kinds, failure) == Some(
            GraphErrorView::DuplicateNode(node.id),
        ),
        ({
            let after = state.with_node(node);
            &&& after.nodes == state.nodes.push(node)
            &&& after.slots.len() == state.slots.len() + 1
            &&& after.slots.take(state.slots.len() as int) == state.slots
            &&& after.edges == state.edges && after.wires == state.wires
            &&& after.reports.len() == state.reports.len() + 1
            &&& after.reports.last().node == node.id
        }),
{
    lemma_node_index(state.nodes, node.id);
    if kinds.contains(node.kind) {
        let k = choose|k: int| 0 <= k < kinds.len() && kinds[k] == node.kind;
        assert(kinds[k] == node.kind);
    }
    assert(state.with_node(node).slots.take(state.slots.len() as int) =~= state.slots);
}

proof fn lemma_without(edges: Seq<EdgeView>, node: Seq<char>, edge: EdgeView)
    ensures
        edges_without(edges, node).contains(edge) <==> edges.contains(edge) && edge.source.node
            != node && edge.target.node != node,
    decreases edges.len(),
{
    if edges.len() > 0 {
        let init = edges.drop_last();
        lemma_without(init, node, edge);
        let rest = edges_without(init, node);
        let all = edges_without(edges, node);
        if all.contains(edge) {
            let k = choose|k: int| 0 <= k < all.len() && all[k] == edge;
            if k < rest.len() {
                assert(rest[k] == edge);
                let m = choose|m: int| 0 <= m < init.len() && init[m] == edge;
                assert(edges[m] == edge);
            } else {
                assert(edges[edges.len() - 1] == edge);
            }
        }
        if edges.contains(edge) && edge.source.node != node && edge.target.node != node {
            let m = choose|m: int| 0 <= m < edges.len() && edges[m] == edge;
            if m < init.len() {
                assert(init[m] == edge);
                let k = choose|k: int| 0 <= k < rest.len() && rest[k] == edge;
                assert(all[k] == edge);
            } else {
                assert(all[all.len() - 1] == edge);
            }
        }
    }
}

/// A node that goes takes with it the edges and wires that start or end at it, and no others; the
/// other nodes keep what waits for them.
pub proof fn law_removed_node_takes_its_edges(state: GraphState, i: int, edge: EdgeView, j: int)
    requires
        0 <= i < state.nodes.len(),
        state.slots.len() == state.nodes.len(),
        0 <= j < state.nodes.len(),
        j != i,
    ensures
        ({
            let after = state.without_node(i);
            let id = state.nodes[i].id;
            let k = if j < i {
                j
            } else {
                j - 1
            };
            &&& after.edges.contains(edge) <==> state.edges.contains(edge) && edge.source.node != id
                && edge.target.node != id
            &&& after.wires.contains(edge) <==> state.wires.contains(edge) && edge.source.node != id
                && edge.target.node != id
            &&& after.nodes.len() == state.nodes.len() - 1
            &&& after.nodes[k] == state.nodes[j]
            &&& after.slots[k] == state.slots[j]
        }),
{
    lemma_without(state.edges, state.nodes[i].id, edge);
    lemma_without(state.wires, state.nodes[i].id, edge);
}

/// An edge carries the packets of its own output port and of no other; it is the last to get them.
/// Without wires nothing goes anywhere.
pub proof fn law_edge_feeds_its_own_port_alone(
    state: GraphState,
    edge: EdgeView,
    source: EndpointView,
)
    ensures
        source.node != edge.source.node || source.port != edge.source.port ==> routes(
            state.with_edge(edge).wires,
            source,
        ) == routes(state.wires, source),
        routes(state.with_edge(edge).wires, edge.source) == routes(state.wires, edge.source).push(
            edge.target,
        ),
        routes(Seq::<EdgeView>::empty(), source).len() == 0,
        state.with_edge(edge).edges == state.edges.push(edge),
        state.with_edge(edge).nodes == state.nodes,
        state.with_edge(edge).slots == state.slots,
{
    assert(state.wires.push(edge).drop_last() =~= state.wires);
}

/// Whether no two targets are of one node.
pub open spec fn apart(targets: Seq<EndpointView>) -> bool {
    forall|k: int, l: int|
        0 <= k < l < targets.len() ==> (#[trigger] targets[k]).node != (#[trigger] targets[l]).node
}

proof fn lemma_offered(
    nodes: Seq<NodeView>,
    slots: Seq<SlotView>,
    targets: Seq<EndpointView>,
    packet: PacketView,
)
    requires
        slots.len() == nodes.len(),
        apart(targets),
        nodes_distinct(nodes),
    ensures
        offered_all(nodes, slots, targets, packet).len() == slots.len(),
        forall|i: int|
            0 <= i < nodes.len() && (forall|k: int|
                0 <= k < targets.len() ==> (#[trigger] targets[k]).node != nodes[i].id)
                ==> #[trigger] offered_all(nodes, slots, targets, packet)[i] == slots[i],
        forall|i: int, k: int|
            0 <= i < nodes.len() && 0 <= k < targets.len() && (#[trigger] targets[k]).node
                == nodes[i].id ==> #[trigger] offered_all(nodes, slots, targets, packet)[i] == (
            SlotView { mailbox: offered(slots[i].mailbox, targets[k].port, packet), ..slots[i] }),
        refused(nodes, slots, targets, packet) <==> exists|i: int, k: int|
            0 <= i < nodes.len() && 0 <= k < targets.len() && (#[trigger] targets[k]).node == (
            #[trigger] nodes[i]).id && (slots[i].mailbox.closed || slots[i].mailbox.full()),
    decreases targets.len(),
{
    if targets.len() > 0 {
        let init = targets.drop_last();
        let last = targets.last();
        let n = targets.len() - 1;
        assert(targets[n] == last);
        assert(forall|k: int| 0 <= k < init.len() ==> init[k] == targets[k]);
        assert(apart(init));
        lemma_offered(nodes, slots, init, packet);
        let before = offered_all(nodes, slots, init, packet);
        let all = offered_all(nodes, slots, targets, packet);
        lemma_node_index(nodes, last.node);
        assert forall|k: int| 0 <= k < init.len() implies (#[trigger] init[k]).node
            != last.node by {
            assert(targets[k].node != targets[n].node);
        }
        match node_index(nodes, last.node) {
            None => {
                assert(all == before);
                assert forall|i: int| 0 <= i < nodes.len() implies (#[trigger] nodes[i]).id
                    != last.node by {}
            },
            Some(at) => {
                assert(before[at] == slots[at]) by {
                    assert(nodes[at].id == last.node);
                }
            },
        }
        assert forall|i: int|
            0 <= i < nodes.len() && (forall|k: int|
                0 <= k < targets.len() ==> (#[trigger] targets[k]).node != nodes[i].id) implies
            #[trigger] all[i] == slots[i] by {
            assert(targets[n].node != nodes[i].id);
            assert forall|k: int| 0 <= k < init.len() implies (#[trigger] init[k]).node
                != nodes[i].id by {
                assert(targets[k].node != nodes[i].id);
            }
            assert(before[i] == slots[i]);
        }
        assert forall|i: int, k: int|
            0 <= i < nodes.len() && 0 <= k < targets.len() && (#[trigger] targets[k]).node
                == nodes[i].id implies #[trigger] all[i] == (SlotView {
            mailbox: offered(slots[i].mailbox, targets[k].port, packet),
            ..slots[i]
        }) by {
            if k < n {
                assert(init[k].node == nodes[i].id);
                assert(before[i] == (SlotView {
                    mailbox: offered(slots[i].mailbox, init[k].port, packet),
                    ..slots[i]
                }));
                assert(nodes[i].id != last.node);
            } else {
                let at = node_index(nodes, last.node)->Some_0;
                assert(at == i) by {
                    if at < i {
                        assert(nodes[at].id != nodes[i].id);
                    } else if i < at {
                        assert(nodes[i].id != nodes[at].id);
                    }
                }
            }
        }
        let is_refused = refused(nodes, slots, targets, packet);
        if is_refused {
            if refused(nodes, slots, init, packet) {
                let (i, k) = choose|i: int, k: int|
                    0 <= i < nodes.len() && 0 <= k < init.len() && (#[trigger] init[k]).node == (
                    #[trigger] nodes[i]).id && (slots[i].mailbox.closed || slots[i].mailbox.full());
                assert(targets[k].node == nodes[i].id);
            } else {
                let at = node_index(nodes, last.node)->Some_0;
                assert(targets[n].node == nodes[at].id);
            }
        }
        if exists|i: int, k: int|
            0 <= i < nodes.len() && 0 <= k < targets.len() && (#[trigger] targets[k]).node == (
            #[trigger] nodes[i]).id && (slots[i].mailbox.closed || slots[i].mailbox.full()) {
            let (i, k) = choose|i: int, k: int|
                0 <= i < nodes.len() && 0 <= k < targets.len() && (#[trigger] targets[k]).node == (
                #[trigger] nodes[i]).id && (slots[i].mailbox.closed || slots[i].mailbox.full());
            if k < n {
                assert(init[k].node == nodes[i].id);
            } else {
                let at = node_index(nodes, last.node)->Some_0;
                assert(at == i) by {
                    if at < i {
                        assert(nodes[at].id != nodes[i].id);
                    } else if i < at {
                        assert(nodes[i].id != nodes[at].id);
                    }
                }
            }
        }
    }
}

/// A packet that is sent to targets of different nodes waits afterwards, as the newest message and
/// under the port of the target, with every target that had room; every other mailbox is as it was.
/// The sending is refused exactly where one of the targets had no room.
pub proof fn law_packet_waits_at_every_target_with_room(
    nodes: Seq<NodeView>,
    slots: Seq<SlotView>,
    targets: Seq<EndpointView>,
    packet: PacketView,
    i: int,
    k: int,
)
    requires
        slots.len() == nodes.len(),
        apart(targets),
        nodes_distinct(nodes),
        0 <= i < nodes.len(),
        0 <= k < targets.len(),
    ensures
        ({
            let after = offered_all(nodes, slots, targets, packet);
            let room = !slots[i].mailbox.closed && input_count(slots[i].mailbox.queue)
                < slots[i].mailbox.capacity;
            &&& after.len() == slots.len()
            &&& targets[k].node == nodes[i].id && room ==> after[i].mailbox.queue
                == slots[i].mailbox.queue.push(MessageView::Input { port: targets[k].port, packet })
            &&& targets[k].node == nodes[i].id && !room ==> after[i] == slots[i] && refused(
                nodes,
                slots,
                targets,
                packet,
            )
            &&& (forall|l: int|
                0 <= l < targets.len() ==> (#[trigger] targets[l]).node != nodes[i].id) ==> after[i]
                == slots[i]
            &&& after[i].latest == slots[i].latest && after[i].frame == slots[i].frame
            &&& after[i].mailbox.capacity == slots[i].mailbox.capacity
        }),
        (forall|j: int|
            0 <= j < slots.len() ==> !(#[trigger] slots[j]).mailbox.closed && input_count(
                slots[j].mailbox.queue,
            ) < slots[j].mailbox.capacity) ==> !refused(nodes, slots, targets, packet),
{
    lemma_offered(nodes, slots, targets, packet);
    let after = offered_all(nodes, slots, targets, packet);
    if exists|l: int| 0 <= l < targets.len() && (#[trigger] targets[l]).node == nodes[i].id {
        let l = choose|l: int| 0 <= l < targets.len() && (#[trigger] targets[l]).node == nodes[i].id;
        assert(after[i] == (SlotView {
            mailbox: offered(slots[i].mailbox, targets[l].port, packet),
            ..slots[i]
        }));
    }
}

/// A mailbox holds as many inputs as were asked for, but at least one and at most 256.
pub proof fn law_mailbox_bound_is_the_asked_one(capacity: usize)
    ensures
        1 <= bound(capacity) <= 256,
        1 <= capacity <= 256 ==> bound(capacity) == capacity,
        capacity > 256 ==> bound(capacity) == 256,
        empty_mailbox(bound(capacity)).queue.len() == 0,
        !empty_mailbox(bound(capacity)).closed,
{
}

/// A mailbox refuses a message exactly where it is closed, or where the message is an input and as
/// many inputs wait as it holds; control messages are never held up by inputs.
pub proof fn law_control_is_never_held_up(state: MailboxState, message: MessageView)
    ensures
        !(message is Input) ==> (state.takes(message) <==> !state.closed),
        message is Input ==> (state.takes(message) <==> !state.closed && input_count(state.queue)
            < state.capacity),
        state.queued(message).queue == state.queue.push(message),
        state.queued(message).capacity == state.capacity,
        state.stopped().closed,
        !state.closed ==> state.stopped().queue == state.queue.push(MessageView::Stop),
        state.closed ==> state.stopped() == state,
{
}

/// What waits is counted once each: a queue of inputs counts in full, a queue of control messages
/// not at all.
pub proof fn law_waiting_inputs_are_counted(queue: Seq<MessageView>)
    ensures
        (forall|i: int| 0 <= i < queue.len() ==> #[trigger] queue[i] is Input) ==> input_count(queue)
            == queue.len(),
        (forall|i: int| 0 <= i < queue.len() ==> !(#[trigger] queue[i] is Input)) ==> input_count(
            queue,
        ) == 0,
        input_count(queue) <= queue.len(),
    decreases queue.len(),
{
    if queue.len() > 0 {
        let rest = queue.drop_first();
        law_waiting_inputs_are_counted(rest);
        assert(forall|i: int| 0 <= i < rest.len() ==> rest[i] == queue[i + 1]);
    }
}

/// The viewers of a graph are its nodes of that kind, one for one.
pub proof fn law_viewers_are_the_nodes_of_their_kind(nodes: Seq<NodeView>, node: NodeView)
    ensures
        viewer_ids(Seq::<NodeView>::empty()).len() == 0,
        node.kind == "viewer"@ ==> viewer_ids(nodes.push(node)) == viewer_ids(nodes).push(node.id),
        node.kind != "viewer"@ ==> viewer_ids(nodes.push(node)) == viewer_ids(nodes),
{
    assert(nodes.push(node).drop_last() =~= nodes);
}

/// What a node waits for are its required inputs in which no edge ends, by their labels and in order;
/// it is ready exactly where there are none.
pub proof fn law_nodes_wait_for_required_inputs(
    ports: Seq<PortView>,
    port: PortView,
    node: NodeView,
    edges: Seq<EdgeView>,
)
    ensures
        unmet(Seq::<PortView>::empty(), node.id, edges).len() == 0,
        ({
            let fed = exists|i: int|
                0 <= i < edges.len() && (#[trigger] edges[i]).target.node == node.id
                    && edges[i].target.port == port.id;
            &&& port.required && !fed ==> unmet(ports.push(port), node.id, edges) == unmet(
                ports,
                node.id,
                edges,
            ).push(port.label)
            &&& !port.required || fed ==> unmet(ports.push(port), node.id, edges) == unmet(
                ports,
                node.id,
                edges,
            )
        }),
        wired_state(node, edges) == NodeRuntimeState::Idle <==> unmet(node.inputs, node.id, edges).len()
            == 0,
        wired_state(node, edges) == NodeRuntimeState::Disabled <==> unmet(
            node.inputs,
            node.id,
            edges,
        ).len() > 0,
        unmet(node.inputs, node.id, edges).len() == 0 ==> wired_message(node, edges)
            == "ready to start"@,
        unmet(node.inputs, node.id, edges).len() == 1 ==> wired_message(node, edges)
            == "precondition unmet: connect "@ + unmet(node.inputs, node.id, edges)[0],
{
    assert(ports.push(port).drop_last() =~= ports);
    if connected(edges, node.id, port.id) {
        let i = choose|i: int|
            0 <= i < edges.len() && (#[trigger] edges[i]).target == (EndpointView {
                node: node.id,
                port: port.id,
            });
        assert(edges[i].target.node == node.id && edges[i].target.port == port.id);
    }
    if exists|i: int|
        0 <= i < edges.len() && (#[trigger] edges[i]).target.node == node.id && edges[i].target.port
            == port.id {
        let i = choose|i: int|
            0 <= i < edges.len() && (#[trigger] edges[i]).target.node == node.id
                && edges[i].target.port == port.id;
        assert(edges[i].target == (EndpointView { node: node.id, port: port.id }));
    }
}

/// A node of an unknown kind is told as such before a failure of its instance is.
pub proof fn law_unknown_kinds_are_told_first(
    node: NodeView,
    kinds: Seq<Seq<char>>,
    failure: Option<NodeErrorView>,
)
    ensures
        !kinds.contains(node.kind) ==> instance_fault(node, kinds, failure) == Some(
            GraphErrorView::UnknownKind(node.kind),
        ),
        kinds.contains(node.kind) ==> instance_fault(node, kinds, failure) == (match failure {
            Some(error) => Some(GraphErrorView::Instantiate(node.id, error)),
            None => None,
        }),
{
    if kinds.contains(node.kind) {
        let k = choose|k: int| 0 <= k < kinds.len() && kinds[k] == node.kind;
        assert(kinds[k] == node.kind);
    }
}

/// An input port takes a packet exactly where its node is unknown, or its mailbox is open and holds
/// fewer inputs than it may; targets take one exactly where each of them does.
pub proof fn law_targets_with_room_are_open(
    state: GraphState,
    targets: Seq<EndpointView>,
    target: EndpointView,
    i: int,
)
    requires
        nodes_distinct(state.nodes),
        0 <= i < state.nodes.len(),
    ensures
        state.nodes[i].id == target.node ==> (state.open(target) <==> !state.slots[i].mailbox.closed
            && input_count(state.slots[i].mailbox.queue) < state.slots[i].mailbox.capacity),
        (forall|j: int| 0 <= j < state.nodes.len() ==> (#[trigger] state.nodes[j]).id != target.node)
            ==> state.open(target),
        state.all_open(targets) <==> forall|k: int|
            0 <= k < targets.len() ==> state.open(#[trigger] targets[k]),
{
    lemma_node_index(state.nodes, target.node);
    if state.nodes[i].id == target.node {
        let at = node_index(state.nodes, target.node)->Some_0;
        assert(at == i) by {
            if at < i {
                assert(state.nodes[at].id != state.nodes[i].id);
            } else if i < at {
                assert(state.nodes[i].id != state.nodes[at].id);
            }
        }
    }
}

/// An edge is refused for the node or the port that is missing, and names it: one of its own two ends,
/// which no node has.
pub proof fn law_refused_edges_name_what_is_missing(
    edge: EdgeView,
    nodes: Seq<NodeView>,
    before: Seq<EdgeView>,
)
    ensures
        edge_fault(edge, nodes, before) matches Some(GraphErrorView::MissingNode(e, node)) ==> {
            &&& e == edge.id && (node == edge.source.node || node == edge.target.node)
            &&& forall|i: int| 0 <= i < nodes.len() ==> (#[trigger] nodes[i]).id != node
        },
        edge_fault(edge, nodes, before) matches Some(GraphErrorView::MissingPort(e, port, node)) ==> {
            &&& e == edge.id
            &&& port == edge.source.port && node == edge.source.node || port == edge.target.port
                && node == edge.target.node
        },
        node_index(nodes, edge.source.node) is Some && node_index(nodes, edge.target.node) is None
            ==> edge_fault(edge, nodes, before) == Some(
            GraphErrorView::MissingNode(edge.id, edge.target.node),
        ),
        node_index(nodes, edge.source.node) matches Some(s) ==> (node_index(
            nodes,
            edge.target.node,
        ) matches Some(t) ==> {
            let from = exists|p: int|
                0 <= p < nodes[s].outputs.len() && (#[trigger] nodes[s].outputs[p]).id
                    == edge.source.port;
            let to = exists|q: int|
                0 <= q < nodes[t].inputs.len() && (#[trigger] nodes[t].inputs[q]).id
                    == edge.target.port;
            &&& !from ==> edge_fault(edge, nodes, before) == Some(
                GraphErrorView::MissingPort(edge.id, edge.source.port, edge.source.node),
            )
            &&& from && !to ==> edge_fault(edge, nodes, before) == Some(
                GraphErrorView::MissingPort(edge.id, edge.target.port, edge.target.node),
            )
        }),
{
    lemma_node_index(nodes, edge.source.node);
    lemma_node_index(nodes, edge.target.node);
    if node_index(nodes, edge.source.node) is Some {
        lemma_port_index(
            nodes[node_index(nodes, edge.source.node)->Some_0].outputs,
            edge.source.port,
        );
    }
    if node_index(nodes, edge.target.node) is Some {
        lemma_port_index(
            nodes[node_index(nodes, edge.target.node)->Some_0].inputs,
            edge.target.port,
        );
    }
}

} // verus!
