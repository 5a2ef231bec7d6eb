//! The Hex Arm device: a node moves the arm only in a session that it connected and initialised
//! itself, and only while control is enabled.
use crate::engine::node::{NodeAction, NodeError, NodeErrorView};
use crate::engine::nodes::config::{config_filled, config_text, failed, filled_text, text_or};
use crate::engine::packet::DataPacket;
use crate::engine::runtime::{
    require_service, service_missing, EngineServices, NodeRuntime, RuntimeView,
};
use crate::engine::spec::{NodeRuntimeState, NodeSpec, NodeView};
use crate::ieee::Real64;
use crate::json::{JsonTree, JsonValue};
use crate::model::{all_finite, every_finite};
use crate::text::{
    concat3, parse_u64, parsed_u64, same_text, split_on, split_trimmed, texts, trim, trimmed,
};
use vstd::prelude::*;

verus! {

/// How the arm is spoken to.
#[derive(Clone, Copy, Debug, PartialEq, Eq, Structural)]
pub enum HexArmTransport {
    WebSocket,
    Kcp,
}

/// The arm that a node speaks to.
#[derive(Debug)]
pub struct HexArmTargetConfig {
    pub host: String,
    pub port: u16,
    pub transport: HexArmTransport,
    pub command_timeout_ms: u64,
    pub connect_timeout_ms: u64,
    pub control_enabled: bool,
}

/// A target by its values.
pub struct HexTargetView {
    pub host: Seq<char>,
    pub port: u16,
    pub transport: HexArmTransport,
    pub command_timeout_ms: u64,
    pub connect_timeout_ms: u64,
    pub control_enabled: bool,
}

impl View for HexArmTargetConfig {
    type V = HexTargetView;

    open spec fn view(&self) -> HexTargetView {
        HexTargetView {
            host: self.host@,
            port: self.port,
            transport: self.transport,
            command_timeout_ms: self.command_timeout_ms,
            connect_timeout_ms: self.connect_timeout_ms,
            control_enabled: self.control_enabled,
        }
    }
}

/// What a target has where its configuration says nothing.
#[derive(Clone, Copy, Debug, PartialEq, Eq, Structural)]
pub struct HexArmDefaults {
    pub port: u16,
    pub command_timeout_ms: u64,
    pub connect_timeout_ms: u64,
}

/// A configured number that must be positive, written as one or as a numeral.
pub open spec fn positive_u64(config: JsonTree, key: Seq<char>, fallback: u64) -> Result<
    u64,
    NodeErrorView,
> {
    match config.member(key) {
        None => Ok(fallback),
        Some(value) => {
            let parsed = match value {
                JsonTree::Uint(n) => Some(n),
                JsonTree::Text(s) => parsed_u64(trimmed(s)),
                _ => None,
            };
            match parsed {
                Some(n) => if n > 0 {
                    Ok(n)
                } else {
                    Err(
                        NodeErrorView::Config(
                            "config `"@ + key + "` must be a positive integer"@,
                        ),
                    )
                },
                None => Err(
                    NodeErrorView::Config("config `"@ + key + "` must be a positive integer"@),
                ),
            }
        },
    }
}

fn config_positive_u64(config: &JsonValue, key: &str, fallback: u64) -> (r: Result<u64, NodeError>)
    ensures
        match positive_u64(config@, key@, fallback) {
            Ok(n) => r == Ok::<u64, NodeError>(n),
            Err(error) => failed(r, error),
        },
{
    match config.get(key) {
        None => Ok(fallback),
        Some(value) => {
            let parsed: Option<u64> = match value {
                JsonValue::Uint(n) => Some(*n),
                JsonValue::Text(s) => parse_u64(trim(s.as_str())),
                _ => None,
            };
            match parsed {
                Some(n) => {
                    if n > 0 {
                        return Ok(n);
                    }
                },
                None => {},
            }
            Err(NodeError::Config(concat3("config `", key, "` must be a positive integer")))
        },
    }
}

/// A configured number that must be positive and fit in 16 bits.
pub open spec fn positive_u16(config: JsonTree, key: Seq<char>, fallback: u16) -> Result<
    u16,
    NodeErrorView,
> {
    match positive_u64(config, key, fallback as u64) {
        Ok(n) => if n <= 0xffff {
            Ok(n as u16)
        } else {
            Err(NodeErrorView::Config("config `"@ + key + "` must fit in u16"@))
        },
        Err(error) => Err(error),
    }
}

fn config_positive_u16(config: &JsonValue, key: &str, fallback: u16) -> (r: Result<u16, NodeError>)
    ensures
        match positive_u16(config@, key@, fallback) {
            Ok(n) => r == Ok::<u16, NodeError>(n),
            Err(error) => failed(r, error),
        },
{
    match config_positive_u64(config, key, fallback as u64) {
        Ok(n) => if n <= 0xffff {
            Ok(n as u16)
        } else {
            Err(NodeError::Config(concat3("config `", key, "` must fit in u16")))
        },
        Err(error) => Err(error),
    }
}

/// A configured boolean, written as one or as a word.
pub open spec fn strict_bool(config: JsonTree, key: Seq<char>, fallback: bool) -> Result<
    bool,
    NodeErrorView,
> {
    match config.member(key) {
        None => Ok(fallback),
        Some(JsonTree::Bool(b)) => Ok(b),
        Some(JsonTree::Text(s)) => if trimmed(s) == "true"@ {
            Ok(true)
        } else if trimmed(s) == "false"@ {
            Ok(false)
        } else {
            Err(NodeErrorView::Config("config `"@ + key + "` must be a boolean"@))
        },
        Some(_) => Err(NodeErrorView::Config("config `"@ + key + "` must be a boolean"@)),
    }
}

fn config_strict_bool(config: &JsonValue, key: &str, fallback: bool) -> (r: Result<
    bool,
    NodeError,
>)
    ensures
        match strict_bool(config@, key@, fallback) {
            Ok(b) => r == Ok::<bool, NodeError>(b),
            Err(error) => failed(r, error),
        },
{
    match config.get(key) {
        None => {
            return Ok(fallback);
        },
        Some(JsonValue::Bool(b)) => {
            return Ok(*b);
        },
        Some(JsonValue::Text(s)) => {
            let word: &str = trim(s.as_str());
            if same_text(word, "true") {
                return Ok(true);
            }
            if same_text(word, "false") {
                return Ok(false);
            }
        },
        Some(_) => {},
    }
    Err(NodeError::Config(concat3("config `", key, "` must be a boolean")))
}

/// The target of a configuration.
pub open spec fn hex_target(config: JsonTree, defaults: HexArmDefaults) -> Result<
    HexTargetView,
    NodeErrorView,
> {
    match filled_text(config, "host"@) {
        None => Err(NodeErrorView::Precondition("hexArmDevice host must be configured"@)),
        Some(host) => match positive_u16(config, "port"@, defaults.port) {
            Err(error) => Err(error),
            Ok(port) => match positive_u64(
                config,
                "commandTimeoutMs"@,
                defaults.command_timeout_ms,
            ) {
                Err(error) => Err(error),
                Ok(command_timeout_ms) => match positive_u64(
                    config,
                    "connectTimeoutMs"@,
                    defaults.connect_timeout_ms,
                ) {
                    Err(error) => Err(error),
                    Ok(connect_timeout_ms) => match strict_bool(
                        config,
                        "controlEnabled"@,
                        false,
                    ) {
                        Err(error) => Err(error),
                        Ok(control_enabled) => {
                            let word = trimmed(text_or(config, "transport"@, ""@));
                            if word == ""@ || word == "websocket"@ {
                                Ok(
                                    HexTargetView {
                                        host,
                                        port,
                                        transport: HexArmTransport::WebSocket,
                                        command_timeout_ms,
                                        connect_timeout_ms,
                                        control_enabled,
                                    },
                                )
                            } else if word == "kcp"@ {
                                Ok(
                                    HexTargetView {
                                        host,
                                        port,
                                        transport: HexArmTransport::Kcp,
                                        command_timeout_ms,
                                        connect_timeout_ms,
                                        control_enabled,
                                    },
                                )
                            } else {
                                Err(
                                    NodeErrorView::Config(
                                        "config `transport` must be `websocket` or `kcp`, got `"@
                                            + word + "`"@,
                                    ),
                                )
                            }
                        },
                    },
                },
            },
        },
    }
}

fn read_target(config: &JsonValue, defaults: HexArmDefaults) -> (r: Result<
    HexArmTargetConfig,
    NodeError,
>)
    ensures
        match hex_target(config@, defaults) {
            Ok(target) => r is Ok && r->Ok_0@ == target,
            Err(error) => failed(r, error),
        },
{
    let host: String = match config_filled(config, "host") {
        Some(host) => host.to_owned(),
        None => {
            return Err(NodeError::precondition("hexArmDevice host must be configured"));
        },
    };
    let port: u16 = match config_positive_u16(config, "port", defaults.port) {
        Ok(n) => n,
        Err(error) => {
            return Err(error);
        },
    };
    let command_timeout_ms: u64 = match config_positive_u64(
        config,
        "commandTimeoutMs",
        defaults.command_timeout_ms,
    ) {
        Ok(n) => n,
        Err(error) => {
            return Err(error);
        },
    };
    let connect_timeout_ms: u64 = match config_positive_u64(
        config,
        "connectTimeoutMs",
        defaults.connect_timeout_ms,
    ) {
        Ok(n) => n,
        Err(error) => {
            return Err(error);
        },
    };
    let control_enabled: bool = match config_strict_bool(config, "controlEnabled", false) {
        Ok(b) => b,
        Err(error) => {
            return Err(error);
        },
    };
    let word: &str = trim(config_text(config, "transport", ""));
    let transport: HexArmTransport = if same_text(word, "") || same_text(word, "websocket") {
        HexArmTransport::WebSocket
    } else if same_text(word, "kcp") {
        HexArmTransport::Kcp
    } else {
        return Err(
            NodeError::Config(
                concat3("config `transport` must be `websocket` or `kcp`, got `", word, "`"),
            ),
        );
    };
    Ok(
        HexArmTargetConfig {
            host,
            port,
            transport,
            command_timeout_ms,
            connect_timeout_ms,
            control_enabled,
        },
    )
}

/// Joint positions as they were configured: numerals that are still to be read, or numbers.
#[derive(Debug)]
pub enum JointSource {
    Numerals(Vec<String>),
    Numbers(Vec<Real64>),
}

/// Joint positions as they were configured, by their values.
pub enum JointSourceView {
    Numerals(Seq<Seq<char>>),
    Numbers(Seq<Real64>),
}

impl View for JointSource {
    type V = JointSourceView;

    open spec fn view(&self) -> JointSourceView {
        match *self {
            JointSource::Numerals(items) => JointSourceView::Numerals(texts(items@)),
            JointSource::Numbers(items) => JointSourceView::Numbers(items@),
        }
    }
}

/// Whether every document is a number.
pub open spec fn all_numbers(items: Seq<JsonTree>) -> bool {
    forall|i: int| 0 <= i < items.len() ==> (#[trigger] items[i]).number() is Some
}

/// The numbers of documents that are numbers.
pub open spec fn numbers(items: Seq<JsonTree>) -> Seq<Real64> {
    items.map_values(|item: JsonTree| item.number()->Some_0)
}

/// The configured joint positions.
pub open spec fn joint_source(config: JsonTree) -> Result<JointSourceView, NodeErrorView> {
    match config.member("jointPositions"@) {
        Some(JsonTree::Text(s)) => Ok(
            JointSourceView::Numerals(
                split_on(s, ',').map_values(|piece: Seq<char>| trimmed(piece)),
            ),
        ),
        Some(JsonTree::Array(items)) => if all_numbers(items) {
            Ok(JointSourceView::Numbers(numbers(items)))
        } else {
            Err(
                NodeErrorView::Config(
                    "config `jointPositions` must contain only numeric radians"@,
                ),
            )
        },
        _ => Err(
            NodeErrorView::Precondition("config `jointPositions` must be a non-empty radian list"@),
        ),
    }
}

fn read_joint_source(config: &JsonValue) -> (r: Result<JointSource, NodeError>)
    ensures
        match joint_source(config@) {
            Ok(source) => r is Ok && r->Ok_0@ == source,
            Err(error) => failed(r, error),
        },
{
    match config.get("jointPositions") {
        Some(value) => {
            match value.as_str() {
                Some(s) => {
                    return Ok(JointSource::Numerals(split_trimmed(s, ',')));
                },
                None => {},
            }
            match value.as_array() {
                Some(items) => {
                    let ghost documents = crate::json::trees(items@);
                    let mut out: Vec<Real64> = Vec::new();
                    let mut i: usize = 0;
                    while i < items.len()
                        invariant
                            i <= items@.len() == documents.len(),
                            documents == crate::json::trees(items@),
                            config@.member("jointPositions"@) == Some(JsonTree::Array(documents)),
                            out@.len() == i,
                            forall|j: int|
                                0 <= j < i ==> (#[trigger] documents[j]).number() == Some(out@[j]),
                        decreases items@.len() - i,
                    {
                        proof {
                            assert(documents[i as int] == items@[i as int]@);
                        }
                        match items[i].as_real() {
                            Some(x) => {
                                out.push(x);
                            },
                            None => {
                                proof {
                                    assert(documents[i as int].number() is None);
                                }
                                return Err(
                                    NodeError::config(
                                        "config `jointPositions` must contain only numeric radians",
                                    ),
                                );
                            },
                        }
                        i = i + 1;
                    }
                    proof {
                        assert(all_numbers(documents));
                        assert(out@ =~= numbers(documents));
                    }
                    return Ok(JointSource::Numbers(out));
                },
                None => {},
            }
        },
        None => {},
    }
    Err(NodeError::precondition("config `jointPositions` must be a non-empty radian list"))
}

/// Joint positions of which each was read, or not.
pub open spec fn joint_positions(parsed: Seq<Option<Real64>>) -> Result<Seq<Real64>, NodeErrorView> {
    if exists|i: int| 0 <= i < parsed.len() && #[trigger] parsed[i] is None {
        Err(
            NodeErrorView::Config(
                "config `jointPositions` must be a comma-separated radian list"@,
            ),
        )
    } else {
        let values = parsed.map_values(|x: Option<Real64>| x->Some_0);
        if values.len() == 0 || !all_finite(values) {
            Err(
                NodeErrorView::Precondition("joint positions must be non-empty finite radians"@),
            )
        } else {
            Ok(values)
        }
    }
}

/// Checks joint positions of which each was read, or not.
pub fn check_joint_positions(parsed: &Vec<Option<Real64>>) -> (r: Result<Vec<Real64>, NodeError>)
    ensures
        match joint_positions(parsed@) {
            Ok(values) => r is Ok && r->Ok_0@ == values,
            Err(error) => failed(r, error),
        },
{
    let mut values: Vec<Real64> = Vec::new();
    let mut i: usize = 0;
    while i < parsed.len()
        invariant
            i <= parsed@.len(),
            values@.len() == i,
            forall|j: int| 0 <= j < i ==> #[trigger] parsed@[j] == Some(values@[j]),
        decreases parsed@.len() - i,
    {
        match parsed[i] {
            Some(x) => {
                values.push(x);
            },
            None => {
                proof {
                    assert(parsed@[i as int] is None);
                }
                return Err(
                    NodeError::config(
                        "config `jointPositions` must be a comma-separated radian list",
                    ),
                );
            },
        }
        i = i + 1;
    }
    proof {
        assert(values@ =~= parsed@.map_values(|x: Option<Real64>| x->Some_0));
    }
    if values.len() == 0 || !every_finite(values.as_slice()) {
        return Err(NodeError::precondition("joint positions must be non-empty finite radians"));
    }
    Ok(values)
}

pub struct HexArmDeviceFactory;

impl HexArmDeviceFactory {
    pub fn kind(&self) -> (r: &'static str)
        ensures
            r@ == "hexArmDevice"@,
    {
        "hexArmDevice"
    }

    pub fn instantiate(&self, spec: NodeSpec, defaults: HexArmDefaults) -> (r: HexArmDeviceNode)
        ensures
            r == (HexArmDeviceNode {
                spec,
                connected: false,
                api_control_initialized: false,
                defaults,
            }),
    {
        HexArmDeviceNode { spec, connected: false, api_control_initialized: false, defaults }
    }
}

pub struct HexArmDeviceNode {
    pub spec: NodeSpec,
    pub connected: bool,
    pub api_control_initialized: bool,
    pub defaults: HexArmDefaults,
}

/// The session of a node.
pub struct HexSession {
    pub connected: bool,
    pub initialized: bool,
}

impl View for HexArmDeviceNode {
    type V = HexSession;

    open spec fn view(&self) -> HexSession {
        HexSession { connected: self.connected, initialized: self.api_control_initialized }
    }
}

/// A call on the arm.
#[derive(Clone, Copy, Debug, PartialEq, Eq, Structural)]
pub enum HexCall {
    Connect,
    Disconnect,
    Probe,
    Status,
    InitializeApiControl,
    Calibrate,
    ClearParkingStop,
    ZeroCurrent,
    SendJointPositions,
}

/// A call with its target, and with the joint positions where it sends some.
#[derive(Debug)]
pub struct HexRequest {
    pub call: HexCall,
    pub target: HexArmTargetConfig,
    pub joints: Option<JointSource>,
}

/// A call with its target by its values.
pub struct HexRequestView {
    pub call: HexCall,
    pub target: HexTargetView,
    pub joints: Option<JointSourceView>,
}

impl View for HexRequest {
    type V = HexRequestView;

    open spec fn view(&self) -> HexRequestView {
        HexRequestView {
            call: self.call,
            target: self.target@,
            joints: match self.joints {
                Some(joints) => Some(joints@),
                None => None,
            },
        }
    }
}

/// Why the arm must not be controlled; nothing where it may.
pub open spec fn control_fault(session: HexSession, target: HexTargetView) -> Option<
    NodeErrorView,
> {
    if !target.control_enabled {
        Some(
            NodeErrorView::Precondition(
                "hex arm control is disabled; set controlEnabled=true before control actions"@,
            ),
        )
    } else if !session.connected {
        Some(
            NodeErrorView::Precondition("hex arm session is not connected; connect first"@),
        )
    } else if !session.initialized {
        Some(
            NodeErrorView::Precondition(
                "hex arm API control is not initialized; initialize_api_control first"@,
            ),
        )
    } else {
        None
    }
}

/// The call that an action names.
pub open spec fn hex_call(action: NodeAction) -> Option<HexCall> {
    match action {
        NodeAction::Connect => Some(HexCall::Connect),
        NodeAction::Disconnect => Some(HexCall::Disconnect),
        NodeAction::Trigger => Some(HexCall::Status),
        NodeAction::Custom { name, .. } => {
            if name@ == "probe"@ {
                Some(HexCall::Probe)
            } else if name@ == "status"@ {
                Some(HexCall::Status)
            } else if name@ == "initialize_api_control"@ {
                Some(HexCall::InitializeApiControl)
            } else if name@ == "calibrate"@ {
                Some(HexCall::Calibrate)
            } else if name@ == "clear_parking_stop"@ {
                Some(HexCall::ClearParkingStop)
            } else if name@ == "zero_current"@ {
                Some(HexCall::ZeroCurrent)
            } else if name@ == "send_joint_positions"@ {
                Some(HexCall::SendJointPositions)
            } else {
                None
            }
        },
        _ => None,
    }
}

/// Whether a call moves the arm or changes how it may be moved.
pub open spec fn controls(call: HexCall) -> bool {
    match call {
        HexCall::Calibrate => true,
        HexCall::ClearParkingStop => true,
        HexCall::ZeroCurrent => true,
        HexCall::SendJointPositions => true,
        _ => false,
    }
}

/// Why a call must not be made; nothing where it may.
pub open spec fn call_fault(session: HexSession, target: HexTargetView, call: HexCall) -> Option<
    NodeErrorView,
> {
    match call {
        HexCall::Connect => None,
        HexCall::Probe => None,
        HexCall::Status => None,
        HexCall::Disconnect => if session.connected {
            None
        } else {
            Some(
                NodeErrorView::Precondition(
                    "hex arm session is not connected; refusing untracked disconnect"@,
                ),
            )
        },
        HexCall::InitializeApiControl => if target.control_enabled && session.connected {
            None
        } else {
            control_fault(session, target)
        },
        _ => control_fault(session, target),
    }
}

/// The request of an action.
pub open spec fn hex_request(
    config: JsonTree,
    defaults: HexArmDefaults,
    session: HexSession,
    services: EngineServices,
    action: NodeAction,
) -> Result<HexRequestView, NodeErrorView> {
    if !services.hex_arm {
        Err(service_missing("hex_arm_client"@))
    } else {
        match hex_target(config, defaults) {
            Err(error) => Err(error),
            Ok(target) => match hex_call(action) {
                None => Err(NodeErrorView::UnsupportedAction(action.label())),
                Some(call) => match call_fault(session, target, call) {
                    Some(error) => Err(error),
                    None => if call == HexCall::SendJointPositions {
                        match joint_source(config) {
                            Err(error) => Err(error),
                            Ok(joints) => Ok(
                                HexRequestView { call, target, joints: Some(joints) },
                            ),
                        }
                    } else {
                        Ok(HexRequestView { call, target, joints: None })
                    },
                },
            },
        }
    }
}

/// The session after a call that succeeded.
pub open spec fn after_call(session: HexSession, call: HexCall) -> HexSession {
    match call {
        HexCall::Connect => HexSession { connected: true, initialized: false },
        HexCall::Disconnect => HexSession { connected: false, initialized: false },
        HexCall::InitializeApiControl => HexSession { initialized: true, ..session },
        _ => session,
    }
}

/// What is said of a call that succeeded.
pub open spec fn call_reported(rt: RuntimeView, call: HexCall) -> RuntimeView {
    match call {
        HexCall::Connect => rt.noted("hex arm connected"@).reported(
            NodeRuntimeState::Idle,
            "connected; initialize API control next"@,
        ),
        HexCall::Disconnect => rt.noted("hex arm disconnected"@).reported(
            NodeRuntimeState::Idle,
            "disconnected"@,
        ),
        HexCall::Probe => rt.noted("hex arm probe ready"@),
        HexCall::Status => rt.noted("hex arm status ready"@),
        HexCall::InitializeApiControl => rt.noted("hex arm API control initialized"@),
        HexCall::Calibrate => rt.noted("hex arm calibration requested"@),
        HexCall::ClearParkingStop => rt.noted("hex arm parking stop cleared"@),
        HexCall::ZeroCurrent => rt.noted("hex arm current zeroed"@),
        HexCall::SendJointPositions => rt.noted("hex arm joint positions sent"@),
    }
}

/// Whether a new target must not inherit the session of an old one.
pub open spec fn must_disconnect(before: HexTargetView, after: HexTargetView) -> bool {
    before.host != after.host || before.port != after.port || before.transport != after.transport
        || (before.control_enabled && !after.control_enabled)
}

/// The target that a new configuration has to be disconnected from first, if any.
pub open spec fn update_disconnects(
    config: JsonTree,
    update: JsonTree,
    defaults: HexArmDefaults,
    session: HexSession,
) -> Result<Option<HexTargetView>, NodeErrorView> {
    match hex_target(update, defaults) {
        Err(error) => Err(error),
        Ok(after) => if !session.connected {
            Ok(None)
        } else {
            match hex_target(config, defaults) {
                Err(error) => Err(error),
                Ok(before) => if must_disconnect(before, after) {
                    Ok(Some(before))
                } else {
                    Ok(None)
                },
            }
        },
    }
}

impl HexArmDeviceNode {
    /// The arm that the configuration names.
    pub fn target(&self) -> (r: Result<HexArmTargetConfig, NodeError>)
        ensures
            match hex_target(self.spec.config@, self.defaults) {
                Ok(target) => r is Ok && r->Ok_0@ == target,
                Err(error) => failed(r, error),
            },
    {
        read_target(&self.spec.config, self.defaults)
    }

    pub fn on_start(&mut self, rt: &mut NodeRuntime) -> (r: Result<(), NodeError>)
        ensures
            r is Ok,
            *final(self) == *old(self),
            final(rt)@ == old(rt)@.reported(
                NodeRuntimeState::Ready,
                "connect before initializing Hex Arm API control"@,
            ),
    {
        rt.report_state(NodeRuntimeState::Ready, "connect before initializing Hex Arm API control");
        Ok(())
    }

    pub fn on_input(&mut self, _port: &str, _packet: DataPacket, _rt: &mut NodeRuntime) -> (r:
        Result<(), NodeError>)
        ensures
            r is Ok,
            *final(self) == *old(self),
            final(_rt)@ == old(_rt)@,
    {
        Ok(())
    }

    fn require_control_session(&self, target: &HexArmTargetConfig) -> (r: Result<(), NodeError>)
        ensures
            match control_fault(self@, target@) {
                Some(error) => failed(r, error),
                None => r is Ok,
            },
    {
        if !target.control_enabled {
            return Err(
                NodeError::precondition(
                    "hex arm control is disabled; set controlEnabled=true before control actions",
                ),
            );
        }
        if !self.connected {
            return Err(
                NodeError::precondition("hex arm session is not connected; connect first"),
            );
        }
        if !self.api_control_initialized {
            return Err(
                NodeError::precondition(
                    "hex arm API control is not initialized; initialize_api_control first",
                ),
            );
        }
        Ok(())
    }

    fn call_of(action: &NodeAction) -> (r: Option<HexCall>)
        ensures
            r == hex_call(*action),
    {
        match action {
            NodeAction::Connect => Some(HexCall::Connect),
            NodeAction::Disconnect => Some(HexCall::Disconnect),
            NodeAction::Trigger => Some(HexCall::Status),
            NodeAction::Custom { name, .. } => {
                let name: &str = name.as_str();
                if same_text(name, "probe") {
                    Some(HexCall::Probe)
                } else if same_text(name, "status") {
                    Some(HexCall::Status)
                } else if same_text(name, "initialize_api_control") {
                    Some(HexCall::InitializeApiControl)
                } else if same_text(name, "calibrate") {
                    Some(HexCall::Calibrate)
                } else if same_text(name, "clear_parking_stop") {
                    Some(HexCall::ClearParkingStop)
                } else if same_text(name, "zero_current") {
                    Some(HexCall::ZeroCurrent)
                } else if same_text(name, "send_joint_positions") {
                    Some(HexCall::SendJointPositions)
                } else {
                    None
                }
            },
            _ => None,
        }
    }

    fn check_call(&self, target: &HexArmTargetConfig, call: HexCall) -> (r: Result<(), NodeError>)
        ensures
            match call_fault(self@, target@, call) {
                Some(error) => failed(r, error),
                None => r is Ok,
            },
    {
        match call {
            HexCall::Connect => Ok(()),
            HexCall::Probe => Ok(()),
            HexCall::Status => Ok(()),
            HexCall::Disconnect => {
                if self.connected {
                    Ok(())
                } else {
                    Err(
                        NodeError::precondition(
                            "hex arm session is not connected; refusing untracked disconnect",
                        ),
                    )
                }
            },
            HexCall::InitializeApiControl => {
                if target.control_enabled && self.connected {
                    Ok(())
                } else {
                    self.require_control_session(target)
                }
            },
            _ => self.require_control_session(target),
        }
    }

    /// Begins an action: checks that the call it names may be made, and says what to call.
    pub fn on_action(&mut self, action: NodeAction, rt: &mut NodeRuntime) -> (r: Result<
        HexRequest,
        NodeError,
    >)
        ensures
            *final(self) == *old(self),
            match hex_request(
                old(self).spec.config@,
                old(self).defaults,
                old(self)@,
                old(rt)@.services,
                action,
            ) {
                Err(error) => failed(r, error) && final(rt)@ == old(rt)@,
                Ok(request) => r is Ok && r->Ok_0@ == request && final(rt)@ == (if request.call
                    == HexCall::Connect {
                    old(rt)@.reported(NodeRuntimeState::Running, "connecting Hex Arm"@)
                } else {
                    old(rt)@
                }),
            },
    {
        match require_service(rt.services.hex_arm, "hex_arm_client") {
            Ok(()) => {},
            Err(error) => {
                return Err(error);
            },
        }
        let target: HexArmTargetConfig = match self.target() {
            Ok(target) => target,
            Err(error) => {
                return Err(error);
            },
        };
        let call: HexCall = match HexArmDeviceNode::call_of(&action) {
            Some(call) => call,
            None => {
                return Err(NodeError::unsupported(&action));
            },
        };
        match self.check_call(&target, call) {
            Ok(()) => {},
            Err(error) => {
                return Err(error);
            },
        }
        let joints: Option<JointSource> = if call == HexCall::SendJointPositions {
            match read_joint_source(&self.spec.config) {
                Ok(joints) => Some(joints),
                Err(error) => {
                    return Err(error);
                },
            }
        } else {
            None
        };
        if call == HexCall::Connect {
            rt.report_state(NodeRuntimeState::Running, "connecting Hex Arm");
        }
        Ok(HexRequest { call, target, joints })
    }

    /// Finishes an action, for whatever the arm answered. A call that failed changes nothing.
    pub fn call_finished(
        &mut self,
        call: HexCall,
        reply: Result<(), String>,
        rt: &mut NodeRuntime,
    ) -> (r: Result<(), NodeError>)
        ensures
            final(self).spec == old(self).spec,
            final(self).defaults == old(self).defaults,
            match reply {
                Err(text) => failed(r, NodeErrorView::Execution(text@)) && final(self)@ == old(self)@ && final(rt)@ == old(rt)@,
                Ok(_) => r is Ok && final(self)@ == after_call(old(self)@, call) && final(rt)@
                    == call_reported(old(rt)@, call),
            },
    {
        match reply {
            Err(text) => {
                return Err(NodeError::Execution(text));
            },
            Ok(()) => {},
        }
        match call {
            HexCall::Connect => {
                self.connected = true;
                self.api_control_initialized = false;
                rt.report_event("hex arm connected");
                rt.report_state(NodeRuntimeState::Idle, "connected; initialize API control next");
            },
            HexCall::Disconnect => {
                self.connected = false;
                self.api_control_initialized = false;
                rt.report_event("hex arm disconnected");
                rt.report_state(NodeRuntimeState::Idle, "disconnected");
            },
            HexCall::Probe => {
                rt.report_event("hex arm probe ready");
            },
            HexCall::Status => {
                rt.report_event("hex arm status ready");
            },
            HexCall::InitializeApiControl => {
                self.api_control_initialized = true;
                rt.report_event("hex arm API control initialized");
            },
            HexCall::Calibrate => {
                rt.report_event("hex arm calibration requested");
            },
            HexCall::ClearParkingStop => {
                rt.report_event("hex arm parking stop cleared");
            },
            HexCall::ZeroCurrent => {
                rt.report_event("hex arm current zeroed");
            },
            HexCall::SendJointPositions => {
                rt.report_event("hex arm joint positions sent");
            },
        }
        Ok(())
    }

    /// The target that a new configuration has to be disconnected from first, if any.
    pub fn plan_config_update(&self, update: &JsonValue) -> (r: Result<
        Option<HexArmTargetConfig>,
        NodeError,
    >)
        ensures
            match update_disconnects(self.spec.config@, update@, self.defaults, self@) {
                Err(error) => failed(r, error),
                Ok(None) => r == Ok::<Option<HexArmTargetConfig>, NodeError>(None),
                Ok(Some(target)) => r is Ok && r->Ok_0 is Some && r->Ok_0->Some_0@ == target,
            },
    {
        let after: HexArmTargetConfig = match read_target(update, self.defaults) {
            Ok(target) => target,
            Err(error) => {
                return Err(error);
            },
        };
        if !self.connected {
            return Ok(None);
        }
        let before: HexArmTargetConfig = match self.target() {
            Ok(target) => target,
            Err(error) => {
                return Err(error);
            },
        };
        if !same_text(before.host.as_str(), after.host.as_str()) || before.port != after.port
            || before.transport != after.transport || (before.control_enabled
            && !after.control_enabled) {
            Ok(Some(before))
        } else {
            Ok(None)
        }
    }

    /// Takes a new configuration. An unusable one changes nothing. One for another target, or
    /// without control, ends the session whatever the arm answered to the disconnection
    /// (`disconnected`), and is taken only where that succeeded.
    pub fn on_config_update(
        &mut self,
        update: JsonValue,
        disconnected: Result<(), String>,
        rt: &mut NodeRuntime,
    ) -> (r: Result<(), NodeError>)
        ensures
            final(self).defaults == old(self).defaults,
            match update_disconnects(
                old(self).spec.config@,
                update@,
                old(self).defaults,
                old(self)@,
            ) {
                Err(error) => failed(r, error) && *final(self) == *old(self) && final(rt)@ == old(rt)@,
                Ok(None) => r is Ok && final(self)@ == old(self)@ && final(self).spec@ == (
                NodeView { config: update@, ..old(self).spec@ }) && final(rt)@ == old(rt)@.noted(
                    "hex arm configuration updated"@,
                ),
                Ok(Some(_)) => {
                    &&& final(self)@ == (HexSession { connected: false, initialized: false })
                    &&& if !old(rt)@.services.hex_arm {
                        failed(r, service_missing("hex_arm_client"@)) && final(self).spec == old(self).spec && final(rt)@ == old(rt)@
                    } else {
                        match disconnected {
                            Err(text) => failed(r, NodeErrorView::Execution(text@)) && final(self).spec == old(self).spec && final(rt)@ == old(rt)@,
                            Ok(_) => r is Ok && final(self).spec@ == (NodeView {
                                config: update@,
                                ..old(self).spec@
                            }) && final(rt)@ == old(rt)@.noted("hex arm configuration updated"@),
                        }
                    }
                },
            },
    {
        match self.plan_config_update(&update) {
            Err(error) => {
                return Err(error);
            },
            Ok(None) => {},
            Ok(Some(_)) => {
                self.connected = false;
                self.api_control_initialized = false;
                match require_service(rt.services.hex_arm, "hex_arm_client") {
                    Ok(()) => {},
                    Err(error) => {
                        return Err(error);
                    },
                }
                match disconnected {
                    Ok(()) => {},
                    Err(text) => {
                        return Err(NodeError::Execution(text));
                    },
                }
            },
        }
        self.spec.config = update;
        rt.report_event("hex arm configuration updated");
        Ok(())
    }

    /// Stops the node: a connected session is ended whatever the arm answered to the
    /// disconnection, unless there is no way to ask for it.
    pub fn on_stop(&mut self, disconnected: Result<(), String>, rt: &mut NodeRuntime) -> (r: Result<
        (),
        NodeError,
    >)
        ensures
            final(self).spec == old(self).spec,
            final(self).defaults == old(self).defaults,
            if old(self).connected && !old(rt)@.services.hex_arm {
                failed(r, service_missing("hex_arm_client"@)) && final(self)@ == old(self)@
                    && final(rt)@ == old(rt)@
            } else if old(self).connected && hex_target(
                old(self).spec.config@,
                old(self).defaults,
            ) is Err {
                failed(r, hex_target(old(self).spec.config@, old(self).defaults)->Err_0) && final(self)@ == old(self)@ && final(rt)@ == old(rt)@
            } else {
                &&& final(self)@ == (HexSession { connected: false, initialized: false })
                &&& final(rt)@ == old(rt)@.reported(NodeRuntimeState::Idle, "stopped"@)
                &&& if old(self).connected && disconnected is Err {
                    failed(r, NodeErrorView::Execution(disconnected->Err_0@))
                } else {
                    r is Ok
                }
            },
    {
        let mut result: Result<(), NodeError> = Ok(());
        if self.connected {
            match require_service(rt.services.hex_arm, "hex_arm_client") {
                Ok(()) => {},
                Err(error) => {
                    return Err(error);
                },
            }
            match self.target() {
                Ok(_) => {},
                Err(error) => {
                    return Err(error);
                },
            }
            match disconnected {
                Ok(()) => {},
                Err(text) => {
                    result = Err(NodeError::Execution(text));
                },
            }
        }
        self.connected = false;
        self.api_control_initialized = false;
        rt.report_state(NodeRuntimeState::Idle, "stopped");
        result
    }
}

/// The arm is moved, calibrated or released only where control is enabled, in a session that is
/// connected and initialised.
pub proof fn law_control_needs_initialized_session(
    config: JsonTree,
    defaults: HexArmDefaults,
    session: HexSession,
    services: EngineServices,
    action: NodeAction,
)
    requires
        hex_request(config, defaults, session, services, action) is Ok,
        controls(hex_request(config, defaults, session, services, action)->Ok_0.call),
    ensures
        session.connected,
        session.initialized,
        hex_request(config, defaults, session, services, action)->Ok_0.target.control_enabled,
        services.hex_arm,
{
}

/// Looking at the arm needs no permission: with a client and a readable target, `probe` and
/// `status` are called whatever the session is and whether or not control is enabled, and they
/// leave the session as it is.
pub proof fn law_looking_needs_no_permission(
    config: JsonTree,
    defaults: HexArmDefaults,
    session: HexSession,
    services: EngineServices,
    action: NodeAction,
)
    requires
        services.hex_arm,
        hex_target(config, defaults) is Ok,
        action is Trigger || (action is Custom && (action->name@ == "probe"@ || action->name@
            == "status"@)),
    ensures
        hex_request(config, defaults, session, services, action) is Ok,
        ({
            let request = hex_request(config, defaults, session, services, action)->Ok_0;
            &&& request.call == (if action is Custom && action->name@ == "probe"@ {
                HexCall::Probe
            } else {
                HexCall::Status
            })
            &&& request.target == hex_target(config, defaults)->Ok_0
            &&& after_call(session, request.call) == session
        }),
{
}

/// Control is initialised only in a connected session: every call that may be made keeps that.
pub proof fn law_initialized_means_connected(
    session: HexSession,
    target: HexTargetView,
    call: HexCall,
)
    requires
        session.initialized ==> session.connected,
        call_fault(session, target, call) is None,
    ensures
        after_call(session, call).initialized ==> after_call(session, call).connected,
{
}

/// A reconnection has to be initialised anew.
pub proof fn law_reconnecting_forgets_control(session: HexSession)
    ensures
        !after_call(session, HexCall::Connect).initialized,
        !after_call(session, HexCall::Disconnect).connected,
{
}

/// A configuration that keeps the target and the permission keeps the session.
pub proof fn law_same_target_keeps_session(
    config: JsonTree,
    update: JsonTree,
    defaults: HexArmDefaults,
    session: HexSession,
)
    requires
        hex_target(config, defaults) is Ok,
        hex_target(update, defaults) is Ok,
        !must_disconnect(hex_target(config, defaults)->Ok_0, hex_target(update, defaults)->Ok_0),
    ensures
        update_disconnects(config, update, defaults, session) == Ok::<
            Option<HexTargetView>,
            NodeErrorView,
        >(None),
{
}

} // verus!
