//! What the actor of a node reports when one of its steps fails. A failing step never ends the actor.
use crate::engine::node::NodeError;
use crate::engine::runtime::NodeRuntime;
use crate::engine::spec::{NodeRuntimeState, NodeSpec};
use crate::text::concat;
use vstd::prelude::*;

verus! {

/// The name of the actor of a node.
pub fn actor_name(spec: &NodeSpec) -> (r: String)
    ensures
        r@ == "node-"@ + spec.kind@ + "-"@ + spec.id@,
{
    let mut s: String = "node-".to_owned();
    s.append(spec.kind.as_str());
    s.append("-");
    s.append(spec.id.as_str());
    s
}

/// A node that cannot start is in error, and its actor goes on.
pub fn report_start(outcome: Result<(), NodeError>, rt: &mut NodeRuntime)
    ensures
        final(rt)@ == (match outcome {
            Ok(()) => old(rt)@,
            Err(error) => old(rt)@.reported(NodeRuntimeState::Error, error@.text()),
        }),
{
    match outcome {
        Ok(()) => {},
        Err(error) => {
            rt.report_state(NodeRuntimeState::Error, error.describe().as_str());
        },
    }
}

/// An input that fails leaves a note.
pub fn report_input(port: &str, outcome: Result<(), NodeError>, rt: &mut NodeRuntime)
    ensures
        final(rt)@ == (match outcome {
            Ok(()) => old(rt)@,
            Err(error) => old(rt)@.noted(
                "input on `"@ + port@ + "` failed: "@ + error@.text(),
            ),
        }),
{
    match outcome {
        Ok(()) => {},
        Err(error) => {
            let mut s: String = "input on `".to_owned();
            s.append(port);
            s.append("` failed: ");
            s.append(error.describe().as_str());
            rt.report_event(s.as_str());
        },
    }
}

/// An action that fails leaves a note.
pub fn report_action(outcome: Result<(), NodeError>, rt: &mut NodeRuntime)
    ensures
        final(rt)@ == (match outcome {
            Ok(()) => old(rt)@,
            Err(error) => old(rt)@.noted("action failed: "@ + error@.text()),
        }),
{
    match outcome {
        Ok(()) => {},
        Err(error) => {
            rt.report_event(concat("action failed: ", error.describe().as_str()).as_str());
        },
    }
}

/// A stop that fails leaves a note.
pub fn report_stop(outcome: Result<(), NodeError>, rt: &mut NodeRuntime)
    ensures
        final(rt)@ == (match outcome {
            Ok(()) => old(rt)@,
            Err(error) => old(rt)@.noted("stop failed: "@ + error@.text()),
        }),
{
    match outcome {
        Ok(()) => {},
        Err(error) => {
            rt.report_event(concat("stop failed: ", error.describe().as_str()).as_str());
        },
    }
}

} // verus!
