//! Placeholders for device nodes: they register, start and report their state, and honestly refuse to
//! do anything else.
use crate::engine::node::{NodeAction, NodeError, NodeErrorView};
use crate::engine::nodes::config::failed;
use crate::engine::packet::DataPacket;
use crate::engine::runtime::NodeRuntime;
use crate::engine::spec::NodeRuntimeState;
use crate::text::concat3;
use vstd::prelude::*;

verus! {

/// A node that only reports its state.
pub struct SkeletonNode {
    pub kind: &'static str,
    pub skeleton_note: &'static str,
}

impl SkeletonNode {
    pub fn kind(&self) -> (r: &'static str)
        ensures
            r@ == self.kind@,
    {
        self.kind
    }

    pub fn on_start(&mut self, rt: &mut NodeRuntime) -> (r: Result<(), NodeError>)
        ensures
            r is Ok,
            *final(self) == *old(self),
            final(rt)@ == old(rt)@.reported(NodeRuntimeState::Ready, old(self).skeleton_note@),
    {
        rt.report_state(NodeRuntimeState::Ready, self.skeleton_note);
        Ok(())
    }

    pub fn on_input(&mut self, port: &str, _packet: DataPacket, rt: &mut NodeRuntime) -> (r: Result<
        (),
        NodeError,
    >)
        ensures
            r is Ok,
            *final(self) == *old(self),
            final(rt)@ == old(rt)@.noted(
                "`"@ + port@ + "` not implemented (skeleton; real capability M3)"@,
            ),
    {
        rt.report_event(
            concat3("`", port, "` not implemented (skeleton; real capability M3)").as_str(),
        );
        Ok(())
    }

    pub fn on_action(&mut self, action: NodeAction, _rt: &mut NodeRuntime) -> (r: Result<
        (),
        NodeError,
    >)
        ensures
            failed(r, NodeErrorView::UnsupportedAction(action.label())),
            *final(self) == *old(self),
            final(_rt)@ == old(_rt)@,
    {
        Err(NodeError::unsupported(&action))
    }

    pub fn on_stop(&mut self, rt: &mut NodeRuntime) -> (r: Result<(), NodeError>)
        ensures
            r is Ok,
            *final(self) == *old(self),
            final(rt)@ == old(rt)@.reported(NodeRuntimeState::Idle, "stopped"@),
    {
        rt.report_state(NodeRuntimeState::Idle, "stopped");
        Ok(())
    }
}

/// Placeholders for files over SFTP.
pub struct SftpFileSourceFactory;

impl SftpFileSourceFactory {
    pub fn kind(&self) -> (r: &'static str)
        ensures
            r@ == "sftpFileSource"@,
    {
        "sftpFileSource"
    }

    pub fn instantiate(&self) -> (r: SkeletonNode)
        ensures
            r.kind@ == "sftpFileSource"@,
            r.skeleton_note@ == "skeleton; real SFTP file source pending M3"@,
    {
        SkeletonNode { kind: "sftpFileSource", skeleton_note: "skeleton; real SFTP file source pending M3" }
    }
}

/// Placeholders for SSH sessions.
pub struct SshSessionFactory;

impl SshSessionFactory {
    pub fn kind(&self) -> (r: &'static str)
        ensures
            r@ == "sshSession"@,
    {
        "sshSession"
    }

    pub fn instantiate(&self) -> (r: SkeletonNode)
        ensures
            r.kind@ == "sshSession"@,
            r.skeleton_note@ == "skeleton; real SSH session pending M3"@,
    {
        SkeletonNode { kind: "sshSession", skeleton_note: "skeleton; real SSH session pending M3" }
    }
}

/// Placeholders for X5 devices.
pub struct X5DeviceFactory;

impl X5DeviceFactory {
    pub fn kind(&self) -> (r: &'static str)
        ensures
            r@ == "x5Device"@,
    {
        "x5Device"
    }

    pub fn instantiate(&self) -> (r: SkeletonNode)
        ensures
            r.kind@ == "x5Device"@,
            r.skeleton_note@ == "skeleton; real X5 device control pending M3"@,
    {
        SkeletonNode { kind: "x5Device", skeleton_note: "skeleton; real X5 device control pending M3" }
    }
}

/// Placeholders for I2C transfers.
pub struct I2cTransferFactory;

impl I2cTransferFactory {
    pub fn kind(&self) -> (r: &'static str)
        ensures
            r@ == "i2cTransfer"@,
    {
        "i2cTransfer"
    }

    pub fn instantiate(&self) -> (r: SkeletonNode)
        ensures
            r.kind@ == "i2cTransfer"@,
            r.skeleton_note@ == "skeleton; real I2C transfer pending M3"@,
    {
        SkeletonNode { kind: "i2cTransfer", skeleton_note: "skeleton; real I2C transfer pending M3" }
    }
}

/// Placeholders for EEPROM provisioning.
pub struct EepromProvisionFactory;

impl EepromProvisionFactory {
    pub fn kind(&self) -> (r: &'static str)
        ensures
            r@ == "eepromProvision"@,
    {
        "eepromProvision"
    }

    pub fn instantiate(&self) -> (r: SkeletonNode)
        ensures
            r.kind@ == "eepromProvision"@,
            r.skeleton_note@ == "skeleton; real EEPROM provision pending M3"@,
    {
        SkeletonNode { kind: "eepromProvision", skeleton_note: "skeleton; real EEPROM provision pending M3" }
    }
}

} // verus!
