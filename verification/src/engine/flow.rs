//! Pulses that report a packet delivered along an edge.
use vstd::prelude::*;

verus! {

/// The ends of an edge, as fixed when the graph was wired.
#[derive(Clone, Debug, PartialEq, Eq)]
pub struct EdgeLink {
    pub edge_id: String,
    pub source_node_id: String,
    pub source_port_id: String,
    pub target_node_id: String,
    pub target_port_id: String,
}

/// One packet delivered along one edge.
#[derive(Clone, Debug, PartialEq, Eq)]
pub struct EdgeFlowPulse {
    pub edge_id: String,
    pub source_node_id: String,
    pub source_port_id: String,
    pub target_node_id: String,
    pub target_port_id: String,
    pub packet_kind: String,
    pub sequence: Option<u64>,
    pub emitted_at_ns: u64,
}

} // verus!
