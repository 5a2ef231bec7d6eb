//! Specifications of nodes and ports, and the states that nodes report.
use crate::json::{JsonTree, JsonValue};
use crate::text::same_text;
use vstd::prelude::*;

verus! {

/// How many edges may end in an input port.
#[derive(Clone, Copy, Debug, PartialEq, Eq, Structural)]
pub enum PortCardinality {
    One,
    Many,
}

/// A port of a node.
#[derive(Debug)]
pub struct PortSpec {
    pub id: String,
    pub label: String,
    pub kind: String,
    pub cardinality: PortCardinality,
    pub required: bool,
}

/// A port by its values.
pub struct PortView {
    pub id: Seq<char>,
    pub label: Seq<char>,
    pub kind: Seq<char>,
    pub cardinality: PortCardinality,
    pub required: bool,
}

impl View for PortSpec {
    type V = PortView;

    open spec fn view(&self) -> PortView {
        PortView {
            id: self.id@,
            label: self.label@,
            kind: self.kind@,
            cardinality: self.cardinality,
            required: self.required,
        }
    }
}

/// A node of a graph.
#[derive(Debug)]
pub struct NodeSpec {
    pub id: String,
    pub kind: String,
    pub title: String,
    pub inputs: Vec<PortSpec>,
    pub outputs: Vec<PortSpec>,
    pub config: JsonValue,
}

/// A node by its values.
pub struct NodeView {
    pub id: Seq<char>,
    pub kind: Seq<char>,
    pub title: Seq<char>,
    pub inputs: Seq<PortView>,
    pub outputs: Seq<PortView>,
    pub config: JsonTree,
}

/// Ports by their values.
pub open spec fn port_views(ports: Seq<PortSpec>) -> Seq<PortView> {
    ports.map_values(|port: PortSpec| port@)
}

impl View for NodeSpec {
    type V = NodeView;

    open spec fn view(&self) -> NodeView {
        NodeView {
            id: self.id@,
            kind: self.kind@,
            title: self.title@,
            inputs: port_views(self.inputs@),
            outputs: port_views(self.outputs@),
            config: self.config@,
        }
    }
}

/// The first port with the given identity.
pub open spec fn port_index(ports: Seq<PortView>, id: Seq<char>) -> Option<int>
    decreases ports.len(),
{
    if ports.len() == 0 {
        None
    } else {
        match port_index(ports.drop_last(), id) {
            Some(i) => Some(i),
            None => if ports.last().id == id {
                Some(ports.len() - 1)
            } else {
                None
            },
        }
    }
}

/// Whether there is a port with the given identity.
pub open spec fn has_port(ports: Seq<PortView>, id: Seq<char>) -> bool {
    port_index(ports, id) is Some
}

pub proof fn lemma_port_index(ports: Seq<PortView>, id: Seq<char>)
    ensures
        match port_index(ports, id) {
            Some(i) => 0 <= i < ports.len() && ports[i].id == id && forall|j: int|
                0 <= j < i ==> (#[trigger] ports[j]).id != id,
            None => forall|j: int| 0 <= j < ports.len() ==> (#[trigger] ports[j]).id != id,
        },
    decreases ports.len(),
{
    if ports.len() > 0 {
        let init = ports.drop_last();
        lemma_port_index(init, id);
        match port_index(init, id) {
            Some(i) => {
                assert(init[i] == ports[i]);
                assert forall|j: int| 0 <= j < i implies (#[trigger] ports[j]).id != id by {
                    assert(init[j] == ports[j]);
                }
            },
            None => {
                assert forall|j: int| 0 <= j < ports.len() - 1 implies (#[trigger] ports[j]).id
                    != id by {
                    assert(init[j] == ports[j]);
                }
            },
        }
    }
}

/// Finds the first port with the given identity.
pub fn find_port<'a>(ports: &'a Vec<PortSpec>, id: &str) -> (r: Option<&'a PortSpec>)
    ensures
        match port_index(port_views(ports@), id@) {
            Some(i) => r is Some && *r->Some_0 == ports@[i] && r->Some_0@ == port_views(ports@)[i],
            None => r is None,
        },
{
    let ghost views = port_views(ports@);
    let mut i: usize = 0;
    while i < ports.len()
        invariant
            i <= ports@.len() == views.len(),
            views == port_views(ports@),
            forall|j: int| 0 <= j < i ==> (#[trigger] views[j]).id != id@,
        decreases ports@.len() - i,
    {
        proof {
            assert(views[i as int] == ports@[i as int]@);
        }
        if same_text(ports[i].id.as_str(), id) {
            proof {
                lemma_port_index(views, id@);
            }
            return Some(&ports[i]);
        }
        i = i + 1;
    }
    proof {
        lemma_port_index(views, id@);
    }
    None
}

/// Whether the node has an output port with the given identity.
pub fn has_output_port(spec: &NodeSpec, id: &str) -> (r: bool)
    ensures
        r == has_port(spec@.outputs, id@),
{
    find_port(&spec.outputs, id).is_some()
}

/// The state that a node reports.
#[derive(Clone, Copy, Debug, PartialEq, Eq, Structural)]
pub enum NodeRuntimeState {
    Disabled,
    Idle,
    Ready,
    Running,
    Warning,
    Error,
}

/// A state that a node reported.
#[derive(Debug)]
pub struct NodeStatusReport {
    pub node_id: String,
    pub state: NodeRuntimeState,
    pub message: String,
}

/// An event that a node reported.
#[derive(Debug)]
pub struct NodeEvent {
    pub node_id: String,
    pub message: String,
}

/// A report by its values.
pub struct ReportView {
    pub node: Seq<char>,
    pub state: NodeRuntimeState,
    pub message: Seq<char>,
}

impl View for NodeStatusReport {
    type V = ReportView;

    open spec fn view(&self) -> ReportView {
        ReportView { node: self.node_id@, state: self.state, message: self.message@ }
    }
}

/// An event by its values.
pub struct EventView {
    pub node: Seq<char>,
    pub message: Seq<char>,
}

impl View for NodeEvent {
    type V = EventView;

    open spec fn view(&self) -> EventView {
        EventView { node: self.node_id@, message: self.message@ }
    }
}

/// Events by their values.
pub open spec fn event_views(events: Seq<NodeEvent>) -> Seq<EventView> {
    events.map_values(|event: NodeEvent| event@)
}

/// Reports by their values.
pub open spec fn report_views(reports: Seq<NodeStatusReport>) -> Seq<ReportView> {
    reports.map_values(|report: NodeStatusReport| report@)
}

} // verus!
