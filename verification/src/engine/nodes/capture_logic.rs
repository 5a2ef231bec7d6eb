//! Capture logic: scoring of detections, a threshold, a consecutive hold and capture requests. The
//! identity of a frame travels through all of them unchanged.
use crate::engine::node::{channel_full, NodeAction, NodeError, NodeErrorView};
use crate::engine::nodes::config::{
    config_strict_real, config_strict_u16, config_strict_u64, config_text, failed,
    in_unit_interval, strict_real, strict_u16, strict_u64, text_or, unit_interval, ONE,
};
use crate::engine::packet::{
    optional_identity, CalibrationFrameScore, CaptureMode, CaptureRequest, CaptureRequestView,
    CaptureSignal, CaptureTarget, CaptureTrigger, DataPacket, FrameProvenance, IdentityView,
    ImageFrameIdentity, PacketView, ProvenanceView,
};
use crate::engine::runtime::{
    part_views, EffectView, EventPart, EventPartView, NodeRuntime, RuntimeView,
};
use crate::engine::spec::{NodeRuntimeState, NodeSpec, NodeView};
use crate::ieee::Real64;
use crate::json::{JsonTree, JsonValue};
use crate::text::{concat3, decimal, decimal_text, same_text};
use std::sync::Arc;
use vstd::prelude::*;

verus! {

pub struct CalibrationFrameScorerFactory;

impl CalibrationFrameScorerFactory {
    pub fn kind(&self) -> (r: &'static str)
        ensures
            r@ == "calibrationFrameScorer"@,
    {
        "calibrationFrameScorer"
    }

    pub fn instantiate(&self, spec: NodeSpec) -> (r: CalibrationFrameScorerNode)
        ensures
            r.spec == spec,
    {
        CalibrationFrameScorerNode { spec }
    }
}

/// Scores a detection by how many of the expected corners it holds.
pub struct CalibrationFrameScorerNode {
    pub spec: NodeSpec,
}

/// The number of corners that a full detection holds.
pub open spec fn expected_corners(config: JsonTree) -> Result<u64, NodeErrorView> {
    match strict_u64(config, "expectedCorners"@, 88) {
        Ok(n) => if 0 < n <= usize::MAX {
            Ok(n)
        } else {
            Err(
                NodeErrorView::Config(
                    "calibrationFrameScorer.expectedCorners must be a positive usize"@,
                ),
            )
        },
        Err(error) => Err(error),
    }
}

fn read_expected_corners(config: &JsonValue) -> (r: Result<usize, NodeError>)
    ensures
        match expected_corners(config@) {
            Ok(n) => r is Ok && r->Ok_0 == n,
            Err(error) => failed(r, error),
        },
{
    match config_strict_u64(config, "expectedCorners", 88) {
        Ok(n) => if n > 0 && n <= usize::MAX as u64 {
            Ok(n as usize)
        } else {
            Err(
                NodeError::config(
                    "calibrationFrameScorer.expectedCorners must be a positive usize",
                ),
            )
        },
        Err(error) => Err(error),
    }
}

/// What a scorer does with a score: it emits it under the identity of the detection and says so.
pub open spec fn scored(rt: RuntimeView, score: Real64, identity: IdentityView) -> RuntimeView {
    rt.emitted("score"@, PacketView::Score { score, identity }).did(
        EffectView::Event {
            parts: seq![
                EventPartView::Text("calibration frame scored "@),
                EventPartView::Fixed3(score),
            ],
        },
    )
}

impl CalibrationFrameScorerNode {
    pub fn on_start(&mut self, rt: &mut NodeRuntime) -> (r: Result<(), NodeError>)
        ensures
            r is Ok,
            *final(self) == *old(self),
            final(rt)@ == old(rt)@.reported(NodeRuntimeState::Ready, "waiting for detections"@),
    {
        rt.report_state(NodeRuntimeState::Ready, "waiting for detections");
        Ok(())
    }

    /// Scores a detection: `quotient` divides its number of corners by the expected one, and the
    /// score is that share, at most one.
    pub fn on_input<F: Fn(usize, usize) -> Real64>(
        &mut self,
        port: &str,
        packet: DataPacket,
        rt: &mut NodeRuntime,
        quotient: F,
    ) -> (r: Result<(), NodeError>)
        requires
            forall|n: usize, d: usize| d > 0 ==> #[trigger] quotient.requires((n, d)),
        ensures
            *final(self) == *old(self),
            if port@ != "detection"@ {
                r is Ok && final(rt)@ == old(rt)@
            } else {
                match packet@ {
                    PacketView::Detection { detection, identity } => match expected_corners(
                        old(self).spec.config@,
                    ) {
                        Ok(expected) => if old(rt)@.accepts("score"@) {
                            r is Ok && exists|share: Real64| #[trigger]
                                quotient.ensures(
                                    (detection.corners@.len() as usize, expected as usize),
                                    share,
                                ) && final(rt)@ == scored(
                                    old(rt)@,
                                    share.smaller(Real64 { bits: ONE }),
                                    identity,
                                )
                        } else {
                            failed(r, channel_full()) && final(rt)@ == old(rt)@
                        },
                        Err(error) => failed(r, error) && final(rt)@ == old(rt)@,
                    },
                    _ => failed(
                        r,
                        NodeErrorView::Precondition(
                            "calibrationFrameScorer.detection requires calib.detection"@,
                        ),
                    ) && final(rt)@ == old(rt)@,
                }
            },
    {
        if !same_text(port, "detection") {
            return Ok(());
        }
        match packet {
            DataPacket::Detection(detection) => {
                let expected: usize = match read_expected_corners(&self.spec.config) {
                    Ok(n) => n,
                    Err(error) => {
                        return Err(error);
                    },
                };
                let corners: usize = detection.detection.corners.len();
                let share: Real64 = quotient(corners, expected);
                let score: Real64 = share.min(Real64::from_bits(ONE));
                let ghost before = rt@;
                let packet = DataPacket::Score(
                    Arc::new(
                        CalibrationFrameScore {
                            score,
                            frame_identity: detection.frame_identity.clone(),
                        },
                    ),
                );
                match rt.emit("score", packet) {
                    Ok(()) => {},
                    Err(error) => {
                        return Err(error);
                    },
                }
                let mut parts: Vec<EventPart> = Vec::new();
                parts.push(EventPart::Text("calibration frame scored ".to_owned()));
                parts.push(EventPart::Fixed3(score));
                proof {
                    assert(part_views(parts@) =~= seq![
                        EventPartView::Text("calibration frame scored "@),
                        EventPartView::Fixed3(score),
                    ]);
                }
                rt.report_parts(parts);
                proof {
                    let wanted = expected_corners(self.spec.config@)->Ok_0;
                    assert(wanted as usize == expected);
                    assert(detection.detection.corners@.len() as usize == corners);
                    assert(quotient.ensures(
                        (detection.detection.corners@.len() as usize, wanted as usize),
                        share,
                    ));
                    assert(rt@ == scored(before, score, detection.frame_identity@));
                }
                Ok(())
            },
            _ => Err(
                NodeError::precondition(
                    "calibrationFrameScorer.detection requires calib.detection",
                ),
            ),
        }
    }

    pub fn on_action(&mut self, action: NodeAction, _rt: &mut NodeRuntime) -> (r: Result<
        (),
        NodeError,
    >)
        ensures
            failed(r, NodeErrorView::UnsupportedAction(action.label())),
            *final(self) == *old(self),
            final(_rt)@ == old(_rt)@,
    {
        Err(NodeError::unsupported(&action))
    }

    /// Takes a configuration with a usable number of corners; another one changes nothing.
    pub fn on_config_update(&mut self, config: JsonValue, _rt: &mut NodeRuntime) -> (r: Result<
        (),
        NodeError,
    >)
        ensures
            final(_rt)@ == old(_rt)@,
            match expected_corners(config@) {
                Ok(_) => r is Ok && final(self).spec@ == (NodeView {
                    config: config@,
                    ..old(self).spec@
                }),
                Err(error) => failed(r, error) && *final(self) == *old(self),
            },
    {
        match read_expected_corners(&config) {
            Ok(_) => {
                self.spec.config = config;
                Ok(())
            },
            Err(error) => Err(error),
        }
    }

    pub fn on_stop(&mut self, rt: &mut NodeRuntime) -> (r: Result<(), NodeError>)
        ensures
            r is Ok,
            *final(self) == *old(self),
            final(rt)@ == old(rt)@.reported(NodeRuntimeState::Idle, "stopped"@),
    {
        rt.report_state(NodeRuntimeState::Idle, "stopped");
        Ok(())
    }
}

pub struct ScoreThresholdGateFactory;

impl ScoreThresholdGateFactory {
    pub fn kind(&self) -> (r: &'static str)
        ensures
            r@ == "scoreThresholdGate"@,
    {
        "scoreThresholdGate"
    }

    pub fn instantiate(&self, spec: NodeSpec) -> (r: ScoreThresholdGateNode)
        ensures
            r.spec == spec,
    {
        ScoreThresholdGateNode { spec }
    }
}

/// Turns scores into signals that say whether a threshold is met.
pub struct ScoreThresholdGateNode {
    pub spec: NodeSpec,
}

/// The default threshold, 0.4.
pub const DEFAULT_THRESHOLD: u64 = 0x3fd9_9999_9999_999a;

/// The threshold of a gate.
pub open spec fn threshold(config: JsonTree) -> Result<Real64, NodeErrorView> {
    match strict_real(config, "threshold"@, DEFAULT_THRESHOLD) {
        Ok(x) => if unit_interval(x) {
            Ok(x)
        } else {
            Err(
                NodeErrorView::Config(
                    "scoreThresholdGate.threshold must be finite and within [0, 1]"@,
                ),
            )
        },
        Err(error) => Err(error),
    }
}

fn read_threshold(config: &JsonValue) -> (r: Result<Real64, NodeError>)
    ensures
        match threshold(config@) {
            Ok(x) => r == Ok::<Real64, NodeError>(x),
            Err(error) => failed(r, error),
        },
{
    match config_strict_real(config, "threshold", DEFAULT_THRESHOLD) {
        Ok(x) => if in_unit_interval(x) {
            Ok(x)
        } else {
            Err(
                NodeError::config("scoreThresholdGate.threshold must be finite and within [0, 1]"),
            )
        },
        Err(error) => Err(error),
    }
}

/// What a gate does with a score.
pub open spec fn gated(rt: RuntimeView, score: Real64, limit: Real64, identity: IdentityView)
    -> RuntimeView {
    let accepted = limit.at_most(score);
    rt.emitted("signal"@, PacketView::CaptureSignal { accepted, identity }).did(
        EffectView::Event {
            parts: seq![
                EventPartView::Text("frame score "@),
                EventPartView::Fixed3(score),
                EventPartView::Text(
                    if accepted {
                        " meets threshold "@
                    } else {
                        " below threshold "@
                    },
                ),
                EventPartView::Fixed3(limit),
            ],
        },
    )
}

impl ScoreThresholdGateNode {
    pub fn on_start(&mut self, rt: &mut NodeRuntime) -> (r: Result<(), NodeError>)
        ensures
            r is Ok,
            *final(self) == *old(self),
            final(rt)@ == old(rt)@.reported(NodeRuntimeState::Ready, "waiting for frame scores"@),
    {
        rt.report_state(NodeRuntimeState::Ready, "waiting for frame scores");
        Ok(())
    }

    /// Signals whether a score meets the threshold, under the identity of the score.
    pub fn on_input(&mut self, port: &str, packet: DataPacket, rt: &mut NodeRuntime) -> (r: Result<
        (),
        NodeError,
    >)
        ensures
            *final(self) == *old(self),
            if port@ != "score"@ {
                r is Ok && final(rt)@ == old(rt)@
            } else {
                match packet@ {
                    PacketView::Score { score, identity } => if !unit_interval(score) {
                        failed(
                            r,
                            NodeErrorView::Precondition(
                                "scoreThresholdGate received a score outside [0, 1]"@,
                            ),
                        ) && final(rt)@ == old(rt)@
                    } else {
                        match threshold(old(self).spec.config@) {
                            Ok(limit) => if old(rt)@.accepts("signal"@) {
                                r is Ok && final(rt)@ == gated(old(rt)@, score, limit, identity)
                            } else {
                                failed(r, channel_full()) && final(rt)@ == old(rt)@
                            },
                            Err(error) => failed(r, error) && final(rt)@ == old(rt)@,
                        }
                    },
                    _ => failed(
                        r,
                        NodeErrorView::Precondition(
                            "scoreThresholdGate.score requires capture.score"@,
                        ),
                    ) && final(rt)@ == old(rt)@,
                }
            },
    {
        if !same_text(port, "score") {
            return Ok(());
        }
        match packet {
            DataPacket::Score(score) => {
                if !in_unit_interval(score.score) {
                    return Err(
                        NodeError::precondition(
                            "scoreThresholdGate received a score outside [0, 1]",
                        ),
                    );
                }
                let limit: Real64 = match read_threshold(&self.spec.config) {
                    Ok(x) => x,
                    Err(error) => {
                        return Err(error);
                    },
                };
                let accepted: bool = limit.le(score.score);
                let packet = DataPacket::CaptureSignal(
                    Arc::new(
                        CaptureSignal { accepted, frame_identity: score.frame_identity.clone() },
                    ),
                );
                match rt.emit("signal", packet) {
                    Ok(()) => {},
                    Err(error) => {
                        return Err(error);
                    },
                }
                let mut parts: Vec<EventPart> = Vec::new();
                parts.push(EventPart::Text("frame score ".to_owned()));
                parts.push(EventPart::Fixed3(score.score));
                if accepted {
                    parts.push(EventPart::Text(" meets threshold ".to_owned()));
                } else {
                    parts.push(EventPart::Text(" below threshold ".to_owned()));
                }
                parts.push(EventPart::Fixed3(limit));
                proof {
                    assert(part_views(parts@) =~= seq![
                        EventPartView::Text("frame score "@),
                        EventPartView::Fixed3(score.score),
                        EventPartView::Text(
                            if accepted {
                                " meets threshold "@
                            } else {
                                " below threshold "@
                            },
                        ),
                        EventPartView::Fixed3(limit),
                    ]);
                }
                rt.report_parts(parts);
                Ok(())
            },
            _ => Err(
                NodeError::precondition("scoreThresholdGate.score requires capture.score"),
            ),
        }
    }

    pub fn on_action(&mut self, action: NodeAction, _rt: &mut NodeRuntime) -> (r: Result<
        (),
        NodeError,
    >)
        ensures
            failed(r, NodeErrorView::UnsupportedAction(action.label())),
            *final(self) == *old(self),
            final(_rt)@ == old(_rt)@,
    {
        Err(NodeError::unsupported(&action))
    }

    /// Takes a configuration with a usable threshold; another one changes nothing.
    pub fn on_config_update(&mut self, config: JsonValue, _rt: &mut NodeRuntime) -> (r: Result<
        (),
        NodeError,
    >)
        ensures
            final(_rt)@ == old(_rt)@,
            match threshold(config@) {
                Ok(_) => r is Ok && final(self).spec@ == (NodeView {
                    config: config@,
                    ..old(self).spec@
                }),
                Err(error) => failed(r, error) && *final(self) == *old(self),
            },
    {
        match read_threshold(&config) {
            Ok(_) => {
                self.spec.config = config;
                Ok(())
            },
            Err(error) => Err(error),
        }
    }

    pub fn on_stop(&mut self, rt: &mut NodeRuntime) -> (r: Result<(), NodeError>)
        ensures
            r is Ok,
            *final(self) == *old(self),
            final(rt)@ == old(rt)@.reported(NodeRuntimeState::Idle, "stopped"@),
    {
        rt.report_state(NodeRuntimeState::Idle, "stopped");
        Ok(())
    }
}

pub struct ConsecutiveHoldGateFactory;

impl ConsecutiveHoldGateFactory {
    pub fn kind(&self) -> (r: &'static str)
        ensures
            r@ == "consecutiveHoldGate"@,
    {
        "consecutiveHoldGate"
    }

    pub fn instantiate(&self, spec: NodeSpec) -> (r: ConsecutiveHoldGateNode)
        ensures
            r.spec == spec,
            r@ == fresh_hold(),
    {
        ConsecutiveHoldGateNode { spec, consecutive_count: 0, last_identity: None }
    }
}

/// Fires a trigger once enough accepted signals of different frames have come in a row.
pub struct ConsecutiveHoldGateNode {
    pub spec: NodeSpec,
    pub consecutive_count: u8,
    pub last_identity: Option<ImageFrameIdentity>,
}

/// What a hold gate remembers.
pub struct HoldState {
    pub count: u8,
    pub last: Option<IdentityView>,
}

impl View for ConsecutiveHoldGateNode {
    type V = HoldState;

    open spec fn view(&self) -> HoldState {
        HoldState {
            count: self.consecutive_count,
            last: optional_identity(self.last_identity),
        }
    }
}

/// A gate that has seen nothing.
pub open spec fn fresh_hold() -> HoldState {
    HoldState { count: 0, last: None }
}

/// The number of signals that a gate waits for.
pub open spec fn hold_count(config: JsonTree) -> Result<u8, NodeErrorView> {
    match strict_u64(config, "holdCount"@, 3) {
        Ok(n) => if 1 <= n <= 30 {
            Ok(n as u8)
        } else {
            Err(NodeErrorView::Config("consecutiveHoldGate.holdCount must be within 1..=30"@))
        },
        Err(error) => Err(error),
    }
}

fn read_hold_count(config: &JsonValue) -> (r: Result<u8, NodeError>)
    ensures
        match hold_count(config@) {
            Ok(n) => r == Ok::<u8, NodeError>(n),
            Err(error) => failed(r, error),
        },
{
    match config_strict_u64(config, "holdCount", 3) {
        Ok(n) => if n >= 1 && n <= 30 {
            Ok(n as u8)
        } else {
            Err(NodeError::config("consecutiveHoldGate.holdCount must be within 1..=30"))
        },
        Err(error) => Err(error),
    }
}

/// One more signal in a row, as far as it can be counted.
pub open spec fn one_more(count: u8) -> u8 {
    if count == 255 {
        255
    } else {
        (count + 1) as u8
    }
}

/// What a signal does to a gate that waits for `hold` of them.
pub enum HoldStep {
    /// The frame was seen just before.
    Duplicate,
    /// The signal was not accepted, so the row starts over.
    Rejected,
    /// More signals are needed.
    Holding(u8),
    /// The row is complete.
    Fire,
}

pub open spec fn hold_step(
    state: HoldState,
    accepted: bool,
    identity: IdentityView,
    hold: u8,
) -> HoldStep {
    if state.last == Some(identity) {
        HoldStep::Duplicate
    } else if !accepted {
        HoldStep::Rejected
    } else if one_more(state.count) < hold {
        HoldStep::Holding(one_more(state.count))
    } else {
        HoldStep::Fire
    }
}

/// What is held after a signal whose trigger, if any, found room.
pub open spec fn after_signal(
    state: HoldState,
    accepted: bool,
    identity: IdentityView,
    hold: u8,
) -> HoldState {
    match hold_step(state, accepted, identity, hold) {
        HoldStep::Duplicate => state,
        HoldStep::Rejected => HoldState { count: 0, last: Some(identity) },
        HoldStep::Holding(count) => HoldState { count, last: Some(identity) },
        HoldStep::Fire => HoldState { count: 0, last: Some(identity) },
    }
}

/// The text of an unfinished row.
pub open spec fn holding_text(count: u8, hold: u8) -> Seq<char> {
    "consecutive hold "@ + decimal(count as nat) + "/"@ + decimal(hold as nat)
}

impl ConsecutiveHoldGateNode {
    pub fn on_start(&mut self, rt: &mut NodeRuntime) -> (r: Result<(), NodeError>)
        ensures
            r is Ok,
            *final(self) == *old(self),
            final(rt)@ == old(rt)@.reported(
                NodeRuntimeState::Ready,
                "waiting for accepted frame signals"@,
            ),
    {
        rt.report_state(NodeRuntimeState::Ready, "waiting for accepted frame signals");
        Ok(())
    }

    /// Counts an accepted signal of another frame than the last one, and fires when the row is
    /// complete. A trigger that finds no room leaves the row complete, so that the next accepted
    /// signal tries again.
    pub fn on_input(&mut self, port: &str, packet: DataPacket, rt: &mut NodeRuntime) -> (r: Result<
        (),
        NodeError,
    >)
        ensures
            final(self).spec == old(self).spec,
            if port@ != "signal"@ {
                r is Ok && final(self)@ == old(self)@ && final(rt)@ == old(rt)@
            } else {
                match packet@ {
                    PacketView::CaptureSignal { accepted, identity } => if old(self)@.last == Some(
                        identity,
                    ) {
                        r is Ok && final(self)@ == old(self)@ && final(rt)@ == old(rt)@.noted(
                            "ignored duplicate signal for the same source frame"@,
                        )
                    } else if !accepted {
                        r is Ok && final(self)@ == (HoldState { count: 0, last: Some(identity) })
                            && final(rt)@ == old(rt)@.noted(
                            "rejected signal reset consecutive hold"@,
                        )
                    } else {
                        match hold_count(old(self).spec.config@) {
                            Err(error) => failed(r, error) && final(self)@ == (HoldState {
                                last: Some(identity),
                                ..old(self)@
                            }) && final(rt)@ == old(rt)@,
                            Ok(hold) => match hold_step(old(self)@, accepted, identity, hold) {
                                HoldStep::Holding(count) => r is Ok && final(self)@
                                    == after_signal(old(self)@, accepted, identity, hold)
                                    && final(rt)@ == old(rt)@.noted(holding_text(count, hold)),
                                _ => if old(rt)@.accepts("trigger"@) {
                                    r is Ok && final(self)@ == after_signal(
                                        old(self)@,
                                        accepted,
                                        identity,
                                        hold,
                                    ) && final(rt)@ == old(rt)@.emitted(
                                        "trigger"@,
                                        PacketView::CaptureTrigger { identity },
                                    ).noted("capture trigger emitted after consecutive hold"@)
                                } else {
                                    failed(r, channel_full()) && final(self)@ == (HoldState {
                                        count: one_more(old(self)@.count),
                                        last: Some(identity),
                                    }) && final(rt)@ == old(rt)@
                                },
                            },
                        }
                    },
                    _ => failed(
                        r,
                        NodeErrorView::Precondition(
                            "consecutiveHoldGate.signal requires capture.signal"@,
                        ),
                    ) && final(self)@ == old(self)@ && final(rt)@ == old(rt)@,
                }
            },
    {
        if !same_text(port, "signal") {
            return Ok(());
        }
        match packet {
            DataPacket::CaptureSignal(signal) => {
                let duplicate: bool = match &self.last_identity {
                    Some(last) => last.eq_value(&signal.frame_identity),
                    None => false,
                };
                if duplicate {
                    rt.report_event("ignored duplicate signal for the same source frame");
                    return Ok(());
                }
                self.last_identity = Some(signal.frame_identity.clone());
                if !signal.accepted {
                    self.consecutive_count = 0;
                    rt.report_event("rejected signal reset consecutive hold");
                    return Ok(());
                }
                let hold: u8 = match read_hold_count(&self.spec.config) {
                    Ok(n) => n,
                    Err(error) => {
                        return Err(error);
                    },
                };
                if self.consecutive_count < 255 {
                    self.consecutive_count = self.consecutive_count + 1;
                }
                if self.consecutive_count < hold {
                    let count_text: String = decimal_text(self.consecutive_count as u64);
                    let hold_text: String = decimal_text(hold as u64);
                    let head: String = concat3("consecutive hold ", count_text.as_str(), "/");
                    let text: String = concat3(head.as_str(), hold_text.as_str(), "");
                    proof {
                        reveal_strlit("");
                        assert(text@ =~= holding_text(self.consecutive_count, hold));
                    }
                    rt.report_event(text.as_str());
                    return Ok(());
                }
                let packet = DataPacket::CaptureTrigger(
                    Arc::new(CaptureTrigger { frame_identity: signal.frame_identity.clone() }),
                );
                match rt.emit("trigger", packet) {
                    Ok(()) => {},
                    Err(error) => {
                        return Err(error);
                    },
                }
                self.consecutive_count = 0;
                rt.report_event("capture trigger emitted after consecutive hold");
                Ok(())
            },
            _ => Err(
                NodeError::precondition("consecutiveHoldGate.signal requires capture.signal"),
            ),
        }
    }

    pub fn on_action(&mut self, action: NodeAction, _rt: &mut NodeRuntime) -> (r: Result<
        (),
        NodeError,
    >)
        ensures
            failed(r, NodeErrorView::UnsupportedAction(action.label())),
            *final(self) == *old(self),
            final(_rt)@ == old(_rt)@,
    {
        Err(NodeError::unsupported(&action))
    }

    /// Takes a configuration with a usable count and starts over; another one changes nothing.
    pub fn on_config_update(&mut self, config: JsonValue, _rt: &mut NodeRuntime) -> (r: Result<
        (),
        NodeError,
    >)
        ensures
            final(_rt)@ == old(_rt)@,
            match hold_count(config@) {
                Ok(_) => r is Ok && final(self)@ == fresh_hold() && final(self).spec@ == (NodeView {
                    config: config@,
                    ..old(self).spec@
                }),
                Err(error) => failed(r, error) && *final(self) == *old(self),
            },
    {
        match read_hold_count(&config) {
            Ok(_) => {
                self.spec.config = config;
                self.consecutive_count = 0;
                self.last_identity = None;
                Ok(())
            },
            Err(error) => Err(error),
        }
    }

    pub fn on_stop(&mut self, rt: &mut NodeRuntime) -> (r: Result<(), NodeError>)
        ensures
            r is Ok,
            final(self).spec == old(self).spec,
            final(self)@ == fresh_hold(),
            final(rt)@ == old(rt)@.reported(NodeRuntimeState::Idle, "stopped"@),
    {
        self.consecutive_count = 0;
        self.last_identity = None;
        rt.report_state(NodeRuntimeState::Idle, "stopped");
        Ok(())
    }
}

/// A signal: whether it was accepted, and its frame.
pub struct SignalView {
    pub accepted: bool,
    pub identity: IdentityView,
}

/// What is held after some signals, from a fresh start.
pub open spec fn held(signals: Seq<SignalView>, hold: u8) -> HoldState
    decreases signals.len(),
{
    if signals.len() == 0 {
        fresh_hold()
    } else {
        after_signal(
            held(signals.drop_last(), hold),
            signals.last().accepted,
            signals.last().identity,
            hold,
        )
    }
}

/// The number of signals at the end of a sequence since a refused one, refused repeats aside.
pub open spec fn streak(signals: Seq<SignalView>, hold: u8) -> nat
    decreases signals.len(),
{
    if signals.len() == 0 {
        0
    } else {
        let before = held(signals.drop_last(), hold);
        match hold_step(before, signals.last().accepted, signals.last().identity, hold) {
            HoldStep::Duplicate => streak(signals.drop_last(), hold),
            HoldStep::Rejected => 0,
            _ => streak(signals.drop_last(), hold) + 1,
        }
    }
}

/// A gate fires only at the end of a row: at least `hold` accepted signals with no refused one
/// between them, no two neighbours of the same frame.
pub proof fn law_fire_needs_a_full_row(signals: Seq<SignalView>, signal: SignalView, hold: u8)
    requires
        1 <= hold <= 30,
        hold_step(held(signals, hold), signal.accepted, signal.identity, hold) is Fire,
    ensures
        signal.accepted,
        streak(signals, hold) + 1 >= hold,
        held(signals, hold).last != Some(signal.identity),
        held(signals.push(signal), hold).count == 0,
{
    lemma_count_within_streak(signals, hold);
    assert(signals.push(signal).drop_last() =~= signals);
}

proof fn lemma_count_within_streak(signals: Seq<SignalView>, hold: u8)
    ensures
        held(signals, hold).count <= streak(signals, hold),
    decreases signals.len(),
{
    if signals.len() > 0 {
        lemma_count_within_streak(signals.drop_last(), hold);
    }
}

/// A gate that waits for one row fires at its end: `hold` accepted signals of different neighbours
/// after a fresh start make it fire exactly at the last one.
pub proof fn law_full_row_fires(signals: Seq<SignalView>, hold: u8)
    requires
        1 <= hold <= 30,
        signals.len() < hold,
        forall|i: int| 0 <= i < signals.len() ==> (#[trigger] signals[i]).accepted,
        forall|i: int, j: int|
            0 <= i < j < signals.len() && j == i + 1 ==> (#[trigger] signals[i]).identity != (
            #[trigger] signals[j]).identity,
    ensures
        held(signals, hold).count == signals.len(),
        signals.len() > 0 ==> held(signals, hold).last == Some(signals.last().identity),
    decreases signals.len(),
{
    if signals.len() > 0 {
        let init = signals.drop_last();
        assert forall|i: int| 0 <= i < init.len() implies (#[trigger] init[i]).accepted by {
            assert(init[i] == signals[i]);
        }
        assert forall|i: int, j: int|
            0 <= i < j < init.len() && j == i + 1 implies (#[trigger] init[i]).identity != (
        #[trigger] init[j]).identity by {
            assert(init[i] == signals[i] && init[j] == signals[j]);
        }
        law_full_row_fires(init, hold);
        let last = signals.len() - 1;
        assert(signals[last].accepted);
        if init.len() > 0 {
            assert(init.last() == signals[last - 1]);
            assert(signals[last - 1].identity != signals[last].identity);
        }
    }
}

pub struct CaptureRequestBuilderFactory;

impl CaptureRequestBuilderFactory {
    pub fn kind(&self) -> (r: &'static str)
        ensures
            r@ == "captureRequestBuilder"@,
    {
        "captureRequestBuilder"
    }

    pub fn instantiate(&self, spec: NodeSpec) -> (r: CaptureRequestBuilderNode)
        ensures
            r.spec == spec,
    {
        CaptureRequestBuilderNode { spec }
    }
}

/// Makes capture requests out of triggers.
pub struct CaptureRequestBuilderNode {
    pub spec: NodeSpec,
}

/// The image that requests ask for.
pub open spec fn capture_target(config: JsonTree) -> Result<CaptureTarget, NodeErrorView> {
    let target = text_or(config, "target"@, "yuv"@);
    if target == "yuv"@ {
        match strict_u16(config, "channel"@, 0) {
            Ok(channel) => Ok(CaptureTarget::Yuv { channel }),
            Err(error) => Err(error),
        }
    } else if target == "raw"@ {
        match strict_u16(config, "camera"@, 0) {
            Ok(camera) => Ok(CaptureTarget::Raw { camera }),
            Err(error) => Err(error),
        }
    } else {
        Err(
            NodeErrorView::Config(
                "captureRequestBuilder.target `"@ + target
                    + "` is unsupported; expected yuv or raw"@,
            ),
        )
    }
}

fn read_capture_target(config: &JsonValue) -> (r: Result<CaptureTarget, NodeError>)
    ensures
        match capture_target(config@) {
            Ok(target) => r == Ok::<CaptureTarget, NodeError>(target),
            Err(error) => failed(r, error),
        },
{
    let target: &str = config_text(config, "target", "yuv");
    if same_text(target, "yuv") {
        match config_strict_u16(config, "channel", 0) {
            Ok(channel) => Ok(CaptureTarget::Yuv { channel }),
            Err(error) => Err(error),
        }
    } else if same_text(target, "raw") {
        match config_strict_u16(config, "camera", 0) {
            Ok(camera) => Ok(CaptureTarget::Raw { camera }),
            Err(error) => Err(error),
        }
    } else {
        Err(
            NodeError::Config(
                concat3(
                    "captureRequestBuilder.target `",
                    target,
                    "` is unsupported; expected yuv or raw",
                ),
            ),
        )
    }
}

/// The error of an unknown mode.
pub open spec fn unknown_mode(mode: Seq<char>) -> NodeErrorView {
    NodeErrorView::Config(
        "captureRequestBuilder.mode `"@ + mode
            + "` is unsupported; expected latest, frame_id, or timestamp_ns"@,
    )
}

/// The moment that a request asks for.
pub open spec fn capture_mode(config: JsonTree, identity: IdentityView) -> Result<
    CaptureMode,
    NodeErrorView,
> {
    let mode = text_or(config, "mode"@, "latest"@);
    if mode == "latest"@ {
        Ok(CaptureMode::Latest)
    } else if mode == "frame_id"@ {
        Ok(CaptureMode::FrameId(identity.frame_sequence))
    } else if mode == "timestamp_ns"@ {
        match identity.device_timestamp_ns {
            Some(timestamp) => Ok(CaptureMode::TimestampNs(timestamp)),
            None => Err(
                NodeErrorView::Precondition(
                    "captureRequestBuilder timestamp_ns mode requires device timestamp_ns metadata"@,
                ),
            ),
        }
    } else {
        Err(unknown_mode(mode))
    }
}

fn mode_error(mode: &str) -> (r: NodeError)
    ensures
        r@ == unknown_mode(mode@),
{
    NodeError::Config(
        concat3(
            "captureRequestBuilder.mode `",
            mode,
            "` is unsupported; expected latest, frame_id, or timestamp_ns",
        ),
    )
}

fn read_capture_mode(config: &JsonValue, identity: &ImageFrameIdentity) -> (r: Result<
    CaptureMode,
    NodeError,
>)
    ensures
        match capture_mode(config@, identity@) {
            Ok(mode) => r == Ok::<CaptureMode, NodeError>(mode),
            Err(error) => failed(r, error),
        },
{
    let mode: &str = config_text(config, "mode", "latest");
    if same_text(mode, "latest") {
        Ok(CaptureMode::Latest)
    } else if same_text(mode, "frame_id") {
        Ok(CaptureMode::FrameId(identity.frame_sequence))
    } else if same_text(mode, "timestamp_ns") {
        match identity.device_timestamp_ns() {
            Some(timestamp) => Ok(CaptureMode::TimestampNs(timestamp)),
            None => Err(
                NodeError::precondition(
                    "captureRequestBuilder timestamp_ns mode requires device timestamp_ns metadata",
                ),
            ),
        }
    } else {
        Err(mode_error(mode))
    }
}

/// Why a configuration is not usable.
pub open spec fn builder_fault(config: JsonTree) -> Option<NodeErrorView> {
    let mode = text_or(config, "mode"@, "latest"@);
    match capture_target(config) {
        Err(error) => Some(error),
        Ok(_) => if mode == "latest"@ || mode == "frame_id"@ || mode == "timestamp_ns"@ {
            None
        } else {
            Some(unknown_mode(mode))
        },
    }
}

/// Why a frame cannot be captured anew.
pub open spec fn source_fault(provenance: ProvenanceView) -> Option<NodeErrorView> {
    match provenance {
        ProvenanceView::File { .. } => Some(
            NodeErrorView::Precondition(
                "captureRequestBuilder cannot request a new capture from a file-backed frame"@,
            ),
        ),
        ProvenanceView::Unknown { .. } => Some(
            NodeErrorView::Precondition("captureRequestBuilder requires a source frame identity"@),
        ),
        _ => None,
    }
}

/// The request for a trigger.
pub open spec fn built_request(config: JsonTree, identity: IdentityView) -> Result<
    CaptureRequestView,
    NodeErrorView,
> {
    match source_fault(identity.provenance) {
        Some(error) => Err(error),
        None => match capture_target(config) {
            Err(error) => Err(error),
            Ok(target) => match capture_mode(config, identity) {
                Err(error) => Err(error),
                Ok(mode) => Ok(
                    CaptureRequestView { target, mode, source_identity: Some(identity) },
                ),
            },
        },
    }
}

impl CaptureRequestBuilderNode {
    fn validate_source(identity: &ImageFrameIdentity) -> (r: Result<(), NodeError>)
        ensures
            match source_fault(identity@.provenance) {
                Some(error) => failed(r, error),
                None => r is Ok,
            },
    {
        match &identity.provenance {
            FrameProvenance::File { .. } => Err(
                NodeError::precondition(
                    "captureRequestBuilder cannot request a new capture from a file-backed frame",
                ),
            ),
            FrameProvenance::Unknown { .. } => Err(
                NodeError::precondition("captureRequestBuilder requires a source frame identity"),
            ),
            _ => Ok(()),
        }
    }

    pub fn on_start(&mut self, rt: &mut NodeRuntime) -> (r: Result<(), NodeError>)
        ensures
            r is Ok,
            *final(self) == *old(self),
            final(rt)@ == old(rt)@.reported(
                NodeRuntimeState::Ready,
                "waiting for capture triggers"@,
            ),
    {
        rt.report_state(NodeRuntimeState::Ready, "waiting for capture triggers");
        Ok(())
    }

    /// Emits the request for a trigger; the request holds the identity of the triggering frame.
    pub fn on_input(&mut self, port: &str, packet: DataPacket, rt: &mut NodeRuntime) -> (r: Result<
        (),
        NodeError,
    >)
        ensures
            *final(self) == *old(self),
            if port@ != "trigger"@ {
                r is Ok && final(rt)@ == old(rt)@
            } else {
                match packet@ {
                    PacketView::CaptureTrigger { identity } => match built_request(
                        old(self).spec.config@,
                        identity,
                    ) {
                        Err(error) => failed(r, error) && final(rt)@ == old(rt)@,
                        Ok(request) => if old(rt)@.accepts("capture"@) {
                            r is Ok && final(rt)@ == old(rt)@.emitted(
                                "capture"@,
                                PacketView::CaptureRequest(request),
                            ).noted("capture request constructed from trigger identity"@)
                        } else {
                            failed(r, channel_full()) && final(rt)@ == old(rt)@
                        },
                    },
                    _ => failed(
                        r,
                        NodeErrorView::Precondition(
                            "captureRequestBuilder.trigger requires capture.trigger"@,
                        ),
                    ) && final(rt)@ == old(rt)@,
                }
            },
    {
        if !same_text(port, "trigger") {
            return Ok(());
        }
        match packet {
            DataPacket::CaptureTrigger(trigger) => {
                match CaptureRequestBuilderNode::validate_source(&trigger.frame_identity) {
                    Ok(()) => {},
                    Err(error) => {
                        return Err(error);
                    },
                }
                let target: CaptureTarget = match read_capture_target(&self.spec.config) {
                    Ok(target) => target,
                    Err(error) => {
                        return Err(error);
                    },
                };
                let mode: CaptureMode = match read_capture_mode(
                    &self.spec.config,
                    &trigger.frame_identity,
                ) {
                    Ok(mode) => mode,
                    Err(error) => {
                        return Err(error);
                    },
                };
                let request = CaptureRequest {
                    target,
                    mode,
                    source_identity: Some(trigger.frame_identity.clone()),
                };
                match rt.emit("capture", DataPacket::CaptureRequest(Arc::new(request))) {
                    Ok(()) => {},
                    Err(error) => {
                        return Err(error);
                    },
                }
                rt.report_event("capture request constructed from trigger identity");
                Ok(())
            },
            _ => Err(
                NodeError::precondition("captureRequestBuilder.trigger requires capture.trigger"),
            ),
        }
    }

    pub fn on_action(&mut self, action: NodeAction, _rt: &mut NodeRuntime) -> (r: Result<
        (),
        NodeError,
    >)
        ensures
            failed(r, NodeErrorView::UnsupportedAction(action.label())),
            *final(self) == *old(self),
            final(_rt)@ == old(_rt)@,
    {
        Err(NodeError::unsupported(&action))
    }

    /// Takes a configuration with a known target and mode; another one changes nothing.
    pub fn on_config_update(&mut self, config: JsonValue, _rt: &mut NodeRuntime) -> (r: Result<
        (),
        NodeError,
    >)
        ensures
            final(_rt)@ == old(_rt)@,
            match builder_fault(config@) {
                None => r is Ok && final(self).spec@ == (NodeView {
                    config: config@,
                    ..old(self).spec@
                }),
                Some(error) => failed(r, error) && *final(self) == *old(self),
            },
    {
        match read_capture_target(&config) {
            Ok(_) => {},
            Err(error) => {
                return Err(error);
            },
        }
        let mode: &str = config_text(&config, "mode", "latest");
        if !same_text(mode, "latest") && !same_text(mode, "frame_id") && !same_text(
            mode,
            "timestamp_ns",
        ) {
            return Err(mode_error(mode));
        }
        self.spec.config = config;
        Ok(())
    }

    pub fn on_stop(&mut self, rt: &mut NodeRuntime) -> (r: Result<(), NodeError>)
        ensures
            r is Ok,
            *final(self) == *old(self),
            final(rt)@ == old(rt)@.reported(NodeRuntimeState::Idle, "stopped"@),
    {
        rt.report_state(NodeRuntimeState::Idle, "stopped");
        Ok(())
    }
}

/// A request holds the identity of the frame that triggered it, unchanged.
pub proof fn law_request_keeps_identity(config: JsonTree, identity: IdentityView)
    ensures
        built_request(config, identity) is Ok ==> built_request(config, identity)->Ok_0
            .source_identity == Some(identity),
{
}

} // verus!
