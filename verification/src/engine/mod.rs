//! The dataflow engine: node specifications, packets, mailboxes, the graph and the nodes.
pub mod actor;
pub mod channel;
pub mod dataset;
pub mod dispatch_laws;
pub mod flow;
pub mod graph;
pub mod graph_laws;
pub mod i2c_task;
pub mod kinds;
pub mod node;
pub mod nodes;
pub mod packet;
pub mod registry;
pub mod runtime;
pub mod spec;
pub mod topology;
