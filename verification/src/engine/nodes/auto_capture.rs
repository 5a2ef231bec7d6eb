//! The capture controller: a gate that forwards triggers while it is armed.
use crate::engine::node::{channel_full, NodeAction, NodeError, NodeErrorView};
use crate::engine::nodes::config::failed;
use crate::engine::packet::{DataPacket, PacketView};
use crate::engine::runtime::NodeRuntime;
use crate::engine::spec::{NodeRuntimeState, NodeSpec};
use crate::text::{concat, decimal, decimal_text, same_text};
use vstd::prelude::*;

verus! {

pub struct AutoCaptureFactory;

impl AutoCaptureFactory {
    pub fn kind(&self) -> (r: &'static str)
        ensures
            r@ == "autoCaptureController"@,
    {
        "autoCaptureController"
    }

    /// A controller that is not armed.
    pub fn instantiate(&self, _spec: NodeSpec) -> (r: AutoCaptureNode)
        ensures
            !r.armed,
    {
        AutoCaptureNode { armed: false }
    }
}

pub struct AutoCaptureNode {
    pub armed: bool,
}

/// What is said of a forwarded trigger.
pub open spec fn forwarded_text(frame_sequence: u64) -> Seq<char> {
    "armed capture trigger forwarded for frame "@ + decimal(frame_sequence as nat)
}

impl AutoCaptureNode {
    pub fn on_start(&mut self, rt: &mut NodeRuntime) -> (r: Result<(), NodeError>)
        ensures
            r is Ok,
            *final(self) == *old(self),
            final(rt)@ == old(rt)@.reported(
                NodeRuntimeState::Ready,
                "arm to forward capture triggers"@,
            ),
    {
        rt.report_state(NodeRuntimeState::Ready, "arm to forward capture triggers");
        Ok(())
    }

    /// Forwards a trigger unchanged while armed; anything else on that port is refused.
    pub fn on_input(&mut self, port: &str, packet: DataPacket, rt: &mut NodeRuntime) -> (r: Result<
        (),
        NodeError,
    >)
        ensures
            *final(self) == *old(self),
            if port@ != "trigger"@ || !old(self).armed {
                r is Ok && final(rt)@ == old(rt)@
            } else {
                match packet@ {
                    PacketView::CaptureTrigger { identity } => {
                        let noted = old(rt)@.noted(forwarded_text(identity.frame_sequence));
                        if noted.accepts("trigger"@) {
                            r is Ok && final(rt)@ == noted.emitted("trigger"@, packet@)
                        } else {
                            failed(r, channel_full()) && final(rt)@ == noted
                        }
                    },
                    _ => failed(
                        r,
                        NodeErrorView::Precondition(
                            "autoCaptureController.trigger requires capture.trigger"@,
                        ),
                    ) && final(rt)@ == old(rt)@,
                }
            },
    {
        if !same_text(port, "trigger") || !self.armed {
            return Ok(());
        }
        let sequence: u64 = match &packet {
            DataPacket::CaptureTrigger(trigger) => trigger.frame_identity.frame_sequence,
            _ => {
                return Err(
                    NodeError::precondition(
                        "autoCaptureController.trigger requires capture.trigger",
                    ),
                );
            },
        };
        let text: String = concat(
            "armed capture trigger forwarded for frame ",
            decimal_text(sequence).as_str(),
        );
        rt.report_event(text.as_str());
        rt.emit("trigger", packet)
    }

    pub fn on_action(&mut self, action: NodeAction, rt: &mut NodeRuntime) -> (r: Result<
        (),
        NodeError,
    >)
        ensures
            match action {
                NodeAction::Arm => r is Ok && final(self).armed && final(rt)@ == old(rt)@.reported(NodeRuntimeState::Running, "armed"@),
                NodeAction::Disarm => r is Ok && !final(self).armed && final(rt)@ == old(rt)@.reported(NodeRuntimeState::Idle, "disarmed"@),
                _ => failed(r, NodeErrorView::UnsupportedAction(action.label()))
                    && final(self).armed == old(self).armed && final(rt)@ == old(rt)@,
            },
    {
        match action {
            NodeAction::Arm => {
                self.armed = true;
                rt.report_state(NodeRuntimeState::Running, "armed");
                Ok(())
            },
            NodeAction::Disarm => {
                self.armed = false;
                rt.report_state(NodeRuntimeState::Idle, "disarmed");
                Ok(())
            },
            other => Err(NodeError::unsupported(&other)),
        }
    }

    pub fn on_stop(&mut self, rt: &mut NodeRuntime) -> (r: Result<(), NodeError>)
        ensures
            r is Ok,
            !final(self).armed,
            final(rt)@ == old(rt)@.reported(NodeRuntimeState::Idle, "stopped"@),
    {
        self.armed = false;
        rt.report_state(NodeRuntimeState::Idle, "stopped");
        Ok(())
    }
}

} // verus!
