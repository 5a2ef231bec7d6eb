//! What a node does to the outside: packets, state reports and events, in order.
use crate::engine::node::{channel_full, NodeError, NodeErrorView};
use crate::engine::packet::{DataPacket, PacketView};
use crate::engine::spec::NodeRuntimeState;
use crate::ieee::Real64;
use crate::text::{contains_text, lists};
use vstd::prelude::*;

verus! {

/// A piece of an event: text, or a number that is shown with three decimals.
#[derive(Debug)]
pub enum EventPart {
    Text(String),
    Fixed3(Real64),
}

/// A piece of an event by its values.
pub enum EventPartView {
    Text(Seq<char>),
    Fixed3(Real64),
}

impl View for EventPart {
    type V = EventPartView;

    open spec fn view(&self) -> EventPartView {
        match *self {
            EventPart::Text(s) => EventPartView::Text(s@),
            EventPart::Fixed3(x) => EventPartView::Fixed3(x),
        }
    }
}

/// One thing that a node did.
#[derive(Debug)]
pub enum RuntimeEffect {
    Emit { port: String, packet: DataPacket },
    State { state: NodeRuntimeState, message: String },
    Event { parts: Vec<EventPart> },
}

/// One thing that a node did, by its values.
pub enum EffectView {
    Emit { port: Seq<char>, packet: PacketView },
    State { state: NodeRuntimeState, message: Seq<char> },
    Event { parts: Seq<EventPartView> },
}

/// The pieces of an event by their values.
pub open spec fn part_views(parts: Seq<EventPart>) -> Seq<EventPartView> {
    parts.map_values(|part: EventPart| part@)
}

impl View for RuntimeEffect {
    type V = EffectView;

    open spec fn view(&self) -> EffectView {
        match *self {
            RuntimeEffect::Emit { port, packet } => EffectView::Emit {
                port: port@,
                packet: packet@,
            },
            RuntimeEffect::State { state, message } => EffectView::State { state, message: message@ },
            RuntimeEffect::Event { parts } => EffectView::Event { parts: part_views(parts@) },
        }
    }
}

/// The services that a node may call on.
#[derive(Clone, Copy, Debug, PartialEq, Eq, Structural)]
pub struct EngineServices {
    pub calibration: bool,
    pub image_codec: bool,
    pub stream_factory: bool,
    pub sftp_reader: bool,
    pub ssh_command_executor: bool,
    pub ssh_connection: bool,
    pub i2c_task_executor: bool,
    pub hex_arm: bool,
    pub x5: bool,
}

impl Default for EngineServices {
    fn default() -> (r: Self)
        ensures
            r == EngineServices::none(),
    {
        EngineServices {
            calibration: false,
            image_codec: false,
            stream_factory: false,
            sftp_reader: false,
            ssh_command_executor: false,
            ssh_connection: false,
            i2c_task_executor: false,
            hex_arm: false,
            x5: false,
        }
    }
}

impl EngineServices {
    /// No service at all.
    pub open spec fn none() -> EngineServices {
        EngineServices {
            calibration: false,
            image_codec: false,
            stream_factory: false,
            sftp_reader: false,
            ssh_command_executor: false,
            ssh_connection: false,
            i2c_task_executor: false,
            hex_arm: false,
            x5: false,
        }
    }
}

/// The text of a missing service.
pub open spec fn service_missing(name: Seq<char>) -> NodeErrorView {
    NodeErrorView::Precondition(name + " service is not available"@)
}

/// The side of a node that faces the engine: what it did so far, which of its outputs are full,
/// and which services there are.
#[derive(Debug)]
pub struct NodeRuntime {
    pub log: Vec<RuntimeEffect>,
    pub full_ports: Vec<String>,
    pub services: EngineServices,
}

/// Effects by their values.
pub open spec fn effect_views(log: Seq<RuntimeEffect>) -> Seq<EffectView> {
    log.map_values(|effect: RuntimeEffect| effect@)
}

/// A runtime by its values.
#[verifier::ext_equal]
pub struct RuntimeView {
    pub log: Seq<EffectView>,
    pub full_ports: Seq<String>,
    pub services: EngineServices,
}

impl View for NodeRuntime {
    type V = RuntimeView;

    open spec fn view(&self) -> RuntimeView {
        RuntimeView {
            log: effect_views(self.log@),
            full_ports: self.full_ports@,
            services: self.services,
        }
    }
}

impl RuntimeView {
    /// One more effect.
    pub open spec fn did(self, effect: EffectView) -> RuntimeView {
        RuntimeView { log: self.log.push(effect), ..self }
    }

    /// A state report.
    pub open spec fn reported(self, state: NodeRuntimeState, message: Seq<char>) -> RuntimeView {
        self.did(EffectView::State { state, message })
    }

    /// An event that is plain text.
    pub open spec fn noted(self, text: Seq<char>) -> RuntimeView {
        self.did(EffectView::Event { parts: seq![EventPartView::Text(text)] })
    }

    /// A packet on an output.
    pub open spec fn emitted(self, port: Seq<char>, packet: PacketView) -> RuntimeView {
        self.did(EffectView::Emit { port, packet })
    }

    /// Whether an output takes packets.
    pub open spec fn accepts(self, port: Seq<char>) -> bool {
        !lists(self.full_ports, port)
    }
}

impl NodeRuntime {
    pub fn new(services: EngineServices) -> (r: NodeRuntime)
        ensures
            r@.log.len() == 0,
            r@.full_ports.len() == 0,
            r@.services == services,
            forall|port: Seq<char>| #[trigger] r@.accepts(port),
    {
        NodeRuntime { log: Vec::new(), full_ports: Vec::new(), services }
    }

    fn push(&mut self, effect: RuntimeEffect)
        ensures
            final(self)@ == old(self)@.did(effect@),
    {
        let ghost before = self@;
        self.log.push(effect);
        proof {
            assert(self@.log =~= before.log.push(effect@));
        }
    }

    pub fn report_state(&mut self, state: NodeRuntimeState, message: &str)
        ensures
            final(self)@ == old(self)@.reported(state, message@),
    {
        self.push(RuntimeEffect::State { state, message: message.to_owned() });
    }

    pub fn report_event(&mut self, text: &str)
        ensures
            final(self)@ == old(self)@.noted(text@),
    {
        let mut parts: Vec<EventPart> = Vec::new();
        parts.push(EventPart::Text(text.to_owned()));
        proof {
            assert(part_views(parts@) =~= seq![EventPartView::Text(text@)]);
        }
        self.push(RuntimeEffect::Event { parts });
    }

    /// Reports an event that shows numbers.
    pub fn report_parts(&mut self, parts: Vec<EventPart>)
        ensures
            final(self)@ == old(self)@.did(EffectView::Event { parts: part_views(parts@) }),
    {
        self.push(RuntimeEffect::Event { parts });
    }

    /// Emits a packet; a full output refuses it.
    pub fn emit(&mut self, port: &str, packet: DataPacket) -> (r: Result<(), NodeError>)
        ensures
            if old(self)@.accepts(port@) {
                r is Ok && final(self)@ == old(self)@.emitted(port@, packet@)
            } else {
                r is Err && r->Err_0@ == channel_full() && final(self)@ == old(self)@
            },
    {
        if contains_text(&self.full_ports, port) {
            return Err(NodeError::ChannelFull("output channel full".to_owned()));
        }
        self.push(RuntimeEffect::Emit { port: port.to_owned(), packet });
        Ok(())
    }
}

/// The error of a service that is not there.
pub fn missing_service(name: &str) -> (r: NodeError)
    ensures
        r@ == service_missing(name@),
{
    NodeError::Precondition(crate::text::concat(name, " service is not available"))
}

/// Checks that a service is there.
pub fn require_service(present: bool, name: &str) -> (r: Result<(), NodeError>)
    ensures
        if present {
            r is Ok
        } else {
            r is Err && r->Err_0@ == service_missing(name@)
        },
{
    if present {
        Ok(())
    } else {
        Err(missing_service(name))
    }
}

} // verus!
