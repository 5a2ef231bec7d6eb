//! Node errors and actions.
use crate::json::JsonValue;
use vstd::prelude::*;

verus! {

/// Errors of a node.
#[derive(Debug, PartialEq, Eq)]
pub enum NodeError {
    Config(String),
    Precondition(String),
    Execution(String),
    ChannelFull(String),
    UnsupportedAction(String),
}

/// A node error by its text.
pub enum NodeErrorView {
    Config(Seq<char>),
    Precondition(Seq<char>),
    Execution(Seq<char>),
    ChannelFull(Seq<char>),
    UnsupportedAction(Seq<char>),
}

impl View for NodeError {
    type V = NodeErrorView;

    open spec fn view(&self) -> NodeErrorView {
        match *self {
            NodeError::Config(s) => NodeErrorView::Config(s@),
            NodeError::Precondition(s) => NodeErrorView::Precondition(s@),
            NodeError::Execution(s) => NodeErrorView::Execution(s@),
            NodeError::ChannelFull(s) => NodeErrorView::ChannelFull(s@),
            NodeError::UnsupportedAction(s) => NodeErrorView::UnsupportedAction(s@),
        }
    }
}

impl NodeErrorView {
    /// The text that the error is reported by.
    pub open spec fn text(self) -> Seq<char> {
        match self {
            NodeErrorView::Config(s) => "node config error: "@ + s,
            NodeErrorView::Precondition(s) => "node precondition unmet: "@ + s,
            NodeErrorView::Execution(s) => "node execution failed: "@ + s,
            NodeErrorView::ChannelFull(s) => "node output channel full: "@ + s,
            NodeErrorView::UnsupportedAction(s) => "node action unsupported: "@ + s,
        }
    }
}

/// What a full output channel is reported as.
pub open spec fn channel_full() -> NodeErrorView {
    NodeErrorView::ChannelFull("output channel full"@)
}

impl NodeError {
    pub fn config(message: &str) -> (r: NodeError)
        ensures
            r@ == NodeErrorView::Config(message@),
    {
        NodeError::Config(message.to_owned())
    }

    pub fn precondition(message: &str) -> (r: NodeError)
        ensures
            r@ == NodeErrorView::Precondition(message@),
    {
        NodeError::Precondition(message.to_owned())
    }

    pub fn execution(message: &str) -> (r: NodeError)
        ensures
            r@ == NodeErrorView::Execution(message@),
    {
        NodeError::Execution(message.to_owned())
    }

    pub fn unsupported(action: &NodeAction) -> (r: NodeError)
        ensures
            r@ == NodeErrorView::UnsupportedAction(action.label()),
    {
        NodeError::UnsupportedAction(action.name().to_owned())
    }

    /// The text that the error is reported by.
    pub fn describe(&self) -> (r: String)
        ensures
            r@ == self@.text(),
    {
        match self {
            NodeError::Config(s) => crate::text::concat("node config error: ", s.as_str()),
            NodeError::Precondition(s) => crate::text::concat(
                "node precondition unmet: ",
                s.as_str(),
            ),
            NodeError::Execution(s) => crate::text::concat("node execution failed: ", s.as_str()),
            NodeError::ChannelFull(s) => crate::text::concat(
                "node output channel full: ",
                s.as_str(),
            ),
            NodeError::UnsupportedAction(s) => crate::text::concat(
                "node action unsupported: ",
                s.as_str(),
            ),
        }
    }
}

/// Something a user asks of a node.
#[derive(Debug)]
pub enum NodeAction {
    Connect,
    Disconnect,
    Trigger,
    Arm,
    Disarm,
    Custom { name: String, payload: JsonValue },
}

impl NodeAction {
    /// The name of the action.
    pub open spec fn label(self) -> Seq<char> {
        match self {
            NodeAction::Connect => "connect"@,
            NodeAction::Disconnect => "disconnect"@,
            NodeAction::Trigger => "trigger"@,
            NodeAction::Arm => "arm"@,
            NodeAction::Disarm => "disarm"@,
            NodeAction::Custom { name, .. } => name@,
        }
    }

    /// The name of a custom action; nothing for the others.
    pub open spec fn custom(self) -> Option<Seq<char>> {
        match self {
            NodeAction::Custom { name, .. } => Some(name@),
            _ => None,
        }
    }

    pub fn name(&self) -> (r: &str)
        ensures
            r@ == self.label(),
    {
        match self {
            NodeAction::Connect => "connect",
            NodeAction::Disconnect => "disconnect",
            NodeAction::Trigger => "trigger",
            NodeAction::Arm => "arm",
            NodeAction::Disarm => "disarm",
            NodeAction::Custom { name, .. } => name.as_str(),
        }
    }
}

} // verus!
