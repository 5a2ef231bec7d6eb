//! The RTSP source: a stream that is connected on request, and snapshots of its latest frame.
use crate::asset::share;
use crate::engine::kinds::RTSP_SOURCE;
use crate::engine::node::{channel_full, NodeAction, NodeError, NodeErrorView};
use crate::engine::nodes::config::{
    config_text, config_timeout, config_u16, config_u32, failed, text_or, timeout_or, u16_or,
    u32_or,
};
use crate::engine::nodes::stream::{
    describe_timeout, timeout_text, truth, truth_text, RtspStreamPlan, RtspTransport,
    StreamEvent, StreamFailure, StreamFailureCause, StreamPlanView,
};
use crate::engine::packet::{
    CaptureMode, CaptureRequest, CaptureRequestView, CaptureTarget, DataPacket,
    DecodedVideoFrame, ImageFrame, ImageFrameView, PacketView, ProvenanceView,
};
use crate::engine::runtime::{
    require_service, service_missing, EngineServices, NodeRuntime, RuntimeView,
};
use crate::engine::spec::{find_port, port_index, NodeRuntimeState, NodeSpec, NodeView};
use crate::source::StreamSessionId;
use crate::text::{concat, concat3, decimal, decimal_text, same_text};
use std::sync::Arc;
use vstd::prelude::*;

verus! {

pub struct RtspSourceFactory;

/// The port that frames go out on: the one named `frames`, else the first, else `frames`.
pub open spec fn frames_port(node: NodeView) -> Seq<char> {
    if port_index(node.outputs, "frames"@) is Some || node.outputs.len() == 0 {
        "frames"@
    } else {
        node.outputs[0].id
    }
}

impl RtspSourceFactory {
    pub fn kind(&self) -> (r: &'static str)
        ensures
            r@ == RTSP_SOURCE@,
    {
        RTSP_SOURCE
    }

    pub fn instantiate(&self, spec: NodeSpec) -> (r: RtspSourceNode)
        ensures
            r.spec == spec,
            r.output_port@ == frames_port(spec@),
            r.stream is None,
            r.latest_image is None,
    {
        proof {
            if spec.outputs@.len() > 0 {
                assert(spec@.outputs[0] == spec.outputs@[0]@);
            }
            assert(spec@.outputs.len() == spec.outputs@.len());
        }
        let output_port: String = if find_port(&spec.outputs, "frames").is_some()
            || spec.outputs.len() == 0 {
            "frames".to_owned()
        } else {
            spec.outputs[0].id.clone()
        };
        RtspSourceNode { spec, output_port, latest_image: None, stream: None }
    }
}

/// A stream that was opened; it stays on record after it was cancelled.
#[derive(Clone, Copy, Debug, PartialEq, Eq, Structural)]
pub struct RtspStream {
    pub cancelled: bool,
}

pub struct RtspSourceNode {
    pub spec: NodeSpec,
    pub output_port: String,
    pub latest_image: Option<Arc<ImageFrame>>,
    pub stream: Option<RtspStream>,
}

/// Whether a stream is open and not cancelled.
pub open spec fn streaming(stream: Option<RtspStream>) -> bool {
    match stream {
        Some(stream) => !stream.cancelled,
        None => false,
    }
}

/// What opening the stream takes.
pub open spec fn rtsp_plan(node: NodeView, output_port: Seq<char>, services: EngineServices)
    -> Result<StreamPlanView, NodeErrorView> {
    let url = text_or(node.config, "url"@, ""@);
    let transport = text_or(node.config, "transport"@, "tcp"@);
    if url.len() == 0 {
        Err(NodeErrorView::Config("RTSP url is required"@))
    } else if transport != "tcp"@ && transport != "udp"@ {
        Err(NodeErrorView::Config("transport must be tcp or udp, got `"@ + transport + "`"@))
    } else if !services.stream_factory {
        Err(service_missing("stream_factory"@))
    } else {
        match timeout_or(node.config, "connectTimeoutMs"@, 8_000, ""@) {
            Err(error) => Err(error),
            Ok(connect) => match timeout_or(node.config, "idleTimeoutMs"@, 10_000, ""@) {
                Err(error) => Err(error),
                Ok(idle) => Ok(
                    StreamPlanView {
                        url,
                        channel: u16_or(node.config, "channel"@, 0),
                        width: u32_or(node.config, "width"@, 1920),
                        height: u32_or(node.config, "height"@, 1080),
                        transport: if transport == "tcp"@ {
                            RtspTransport::Tcp
                        } else {
                            RtspTransport::Udp
                        },
                        session_id: "rtsp-"@ + node.id,
                        connect_timeout_ms: connect,
                        idle_timeout_ms: idle,
                        output_port,
                    },
                ),
            },
        }
    }
}

/// What is said of a stream that failed.
pub open spec fn stream_failure_text(failure: StreamFailure) -> Seq<char> {
    match failure.cause {
        StreamFailureCause::ConnectTimeout { timeout_ms } => timeout_text(
            "stream failed before first decoded frame: connect timeout after "@,
            timeout_ms,
            " ms; check RTSP URL/server/network or increase connectTimeoutMs for slow channels"@,
        ),
        StreamFailureCause::IdleTimeout { timeout_ms } => timeout_text(
            "stream failed after frames stopped: idle timeout after "@,
            timeout_ms,
            " ms; check upstream encoder/network stability"@,
        ),
        StreamFailureCause::Other => "stream failed: "@ + failure.text@,
    }
}

/// What is said of a stream that failed.
pub fn stream_failure_diagnostic(failure: &StreamFailure) -> (r: String)
    ensures
        r@ == stream_failure_text(*failure),
{
    match failure.cause {
        StreamFailureCause::ConnectTimeout { timeout_ms } => describe_timeout(
            "stream failed before first decoded frame: connect timeout after ",
            timeout_ms,
            " ms; check RTSP URL/server/network or increase connectTimeoutMs for slow channels",
        ),
        StreamFailureCause::IdleTimeout { timeout_ms } => describe_timeout(
            "stream failed after frames stopped: idle timeout after ",
            timeout_ms,
            " ms; check upstream encoder/network stability",
        ),
        StreamFailureCause::Other => concat("stream failed: ", failure.text.as_str()),
    }
}

/// The state that a stream event brings about.
pub open spec fn event_reported(rt: RuntimeView, event: StreamEvent) -> RuntimeView {
    match event {
        StreamEvent::Failed(failure) => rt.reported(
            NodeRuntimeState::Error,
            stream_failure_text(failure),
        ),
        StreamEvent::Forced { remote_state_unknown } => rt.reported(
            NodeRuntimeState::Error,
            "stream forced closed; remote_state_unknown="@ + truth(remote_state_unknown),
        ),
        StreamEvent::BoundaryClosed => rt.reported(
            NodeRuntimeState::Idle,
            "stream boundary closed"@,
        ),
        StreamEvent::Cancelled => rt.reported(NodeRuntimeState::Idle, "stream cancelled"@),
        StreamEvent::Playing => rt.reported(NodeRuntimeState::Running, "streaming"@),
        StreamEvent::Other => rt,
    }
}

/// The error of a request that no cached frame meets.
pub open spec fn capture_missed(field: Seq<char>, expected: u64) -> NodeErrorView {
    NodeErrorView::Precondition(
        "RTSP capture cache has no decoded frame matching "@ + field + "="@ + decimal(
            expected as nat,
        ),
    )
}

fn capture_miss(field: &str, expected: u64) -> (r: NodeError)
    ensures
        r@ == capture_missed(field@, expected),
{
    let head: String = concat3(
        "RTSP capture cache has no decoded frame matching ",
        field,
        "=",
    );
    NodeError::Precondition(concat(head.as_str(), decimal_text(expected).as_str()))
}

/// Why the cached frame does not meet a request; nothing where it does.
pub open spec fn match_fault(cached: Option<ImageFrameView>, request: CaptureRequestView) -> Option<
    NodeErrorView,
> {
    match cached {
        None => Some(
            NodeErrorView::Precondition(
                "RTSP capture requires a decoded frame; connect and wait for the first frame"@,
            ),
        ),
        Some(frame) => match frame.identity.provenance {
            ProvenanceView::Stream { channel, .. } => match request.target {
                CaptureTarget::Raw { .. } => Some(
                    NodeErrorView::Precondition(
                        "RTSP capture only snapshots decoded RGBA8 frames; RAW requires X5_233 Driver"@,
                    ),
                ),
                CaptureTarget::Yuv { channel: wanted } => if wanted != channel {
                    Some(capture_missed("channel"@, wanted as u64))
                } else if request.source_identity is Some && request.source_identity->Some_0
                    != frame.identity {
                    Some(
                        NodeErrorView::Precondition(
                            "RTSP capture cache does not match the requested source identity"@,
                        ),
                    )
                } else {
                    match request.mode {
                        CaptureMode::Latest => None,
                        CaptureMode::FrameId(expected) => if frame.identity.frame_sequence
                            == expected {
                            None
                        } else {
                            Some(capture_missed("frame_id"@, expected))
                        },
                        CaptureMode::TimestampNs(expected) => match frame.identity.device_timestamp_ns {
                            None => Some(
                                NodeErrorView::Precondition(
                                    "RTSP capture timestamp_ns matching requires device timestamp_ns metadata"@,
                                ),
                            ),
                            Some(actual) => if actual == expected {
                                None
                            } else {
                                Some(capture_missed("timestamp_ns"@, expected))
                            },
                        },
                    }
                },
            },
            _ => Some(
                NodeErrorView::Precondition("RTSP capture cache lacks stream provenance"@),
            ),
        },
    }
}

/// A cached frame by its values.
pub open spec fn cached_view(frame: Option<Arc<ImageFrame>>) -> Option<ImageFrameView> {
    match frame {
        Some(frame) => Some((*frame)@),
        None => None,
    }
}

impl RtspSourceNode {
    pub fn on_start(&mut self, rt: &mut NodeRuntime) -> (r: Result<(), NodeError>)
        ensures
            r is Ok,
            *final(self) == *old(self),
            final(rt)@ == old(rt)@.reported(NodeRuntimeState::Ready, "connect to start streaming"@),
    {
        rt.report_state(NodeRuntimeState::Ready, "connect to start streaming");
        Ok(())
    }

    /// The cached frame, where it meets a request exactly.
    pub fn match_cached_frame(&self, request: &CaptureRequest) -> (r: Result<
        Arc<ImageFrame>,
        NodeError,
    >)
        ensures
            match match_fault(cached_view(self.latest_image), request@) {
                Some(error) => failed(r, error),
                None => r is Ok && Some(r->Ok_0) == self.latest_image,
            },
    {
        let frame: &Arc<ImageFrame> = match &self.latest_image {
            Some(frame) => frame,
            None => {
                return Err(
                    NodeError::precondition(
                        "RTSP capture requires a decoded frame; connect and wait for the first frame",
                    ),
                );
            },
        };
        let channel: u16 = match frame.identity.stream_channel() {
            Some(channel) => channel,
            None => {
                return Err(
                    NodeError::precondition("RTSP capture cache lacks stream provenance"),
                );
            },
        };
        match request.target {
            CaptureTarget::Yuv { channel: wanted } => {
                if wanted != channel {
                    return Err(capture_miss("channel", wanted as u64));
                }
            },
            CaptureTarget::Raw { .. } => {
                return Err(
                    NodeError::precondition(
                        "RTSP capture only snapshots decoded RGBA8 frames; RAW requires X5_233 Driver",
                    ),
                );
            },
        }
        match &request.source_identity {
            Some(identity) => {
                if !identity.eq_value(&frame.identity) {
                    return Err(
                        NodeError::precondition(
                            "RTSP capture cache does not match the requested source identity",
                        ),
                    );
                }
            },
            None => {},
        }
        match request.mode {
            CaptureMode::Latest => Ok(share(frame)),
            CaptureMode::FrameId(expected) => {
                if frame.identity.frame_sequence == expected {
                    Ok(share(frame))
                } else {
                    Err(capture_miss("frame_id", expected))
                }
            },
            CaptureMode::TimestampNs(expected) => match frame.identity.device_timestamp_ns() {
                None => Err(
                    NodeError::precondition(
                        "RTSP capture timestamp_ns matching requires device timestamp_ns metadata",
                    ),
                ),
                Some(actual) => {
                    if actual == expected {
                        Ok(share(frame))
                    } else {
                        Err(capture_miss("timestamp_ns", expected))
                    }
                },
            },
        }
    }

    /// Answers a capture request with the cached frame, where that meets it.
    pub fn on_input(&mut self, port: &str, packet: DataPacket, rt: &mut NodeRuntime) -> (r: Result<
        (),
        NodeError,
    >)
        ensures
            *final(self) == *old(self),
            if port@ != "capture"@ {
                r is Ok && final(rt)@ == old(rt)@
            } else {
                match packet@ {
                    PacketView::CaptureRequest(request) => match match_fault(
                        cached_view(old(self).latest_image),
                        request,
                    ) {
                        Some(error) => failed(r, error) && final(rt)@ == old(rt)@,
                        None => if old(rt)@.accepts("snapshot"@) {
                            r is Ok && final(rt)@ == old(rt)@.emitted(
                                "snapshot"@,
                                PacketView::ImageFrame(
                                    cached_view(old(self).latest_image)->Some_0,
                                ),
                            )
                        } else {
                            failed(r, channel_full()) && final(rt)@ == old(rt)@
                        },
                    },
                    _ => failed(
                        r,
                        NodeErrorView::Precondition(
                            "rtspSource.capture requires command.capture.request.v1"@,
                        ),
                    ) && final(rt)@ == old(rt)@,
                }
            },
    {
        if !same_text(port, "capture") {
            return Ok(());
        }
        match packet {
            DataPacket::CaptureRequest(request) => match self.match_cached_frame(&request) {
                Ok(frame) => rt.emit("snapshot", DataPacket::ImageFrame(frame)),
                Err(error) => Err(error),
            },
            _ => Err(
                NodeError::precondition("rtspSource.capture requires command.capture.request.v1"),
            ),
        }
    }

    /// Begins to connect. A stream that runs stays as it is and needs no plan; one that was
    /// cancelled is given up first.
    pub fn connect(&mut self, rt: &mut NodeRuntime) -> (r: Result<
        Option<RtspStreamPlan>,
        NodeError,
    >)
        ensures
            final(self).spec == old(self).spec,
            final(self).output_port == old(self).output_port,
            final(self).latest_image == old(self).latest_image,
            final(rt)@ == old(rt)@,
            if streaming(old(self).stream) {
                r == Ok::<Option<RtspStreamPlan>, NodeError>(None) && final(self).stream == old(self).stream
            } else {
                &&& final(self).stream is None
                &&& match rtsp_plan(
                    old(self).spec@,
                    old(self).output_port@,
                    old(rt)@.services,
                ) {
                    Err(error) => failed(r, error),
                    Ok(plan) => r is Ok && r->Ok_0 is Some && r->Ok_0->Some_0@ == plan,
                }
            },
    {
        match self.stream {
            Some(stream) => {
                if !stream.cancelled {
                    return Ok(None);
                }
            },
            None => {},
        }
        self.stream = None;
        let url: &str = config_text(&self.spec.config, "url", "");
        if url.unicode_len() == 0 {
            return Err(NodeError::config("RTSP url is required"));
        }
        let width: u32 = config_u32(&self.spec.config, "width", 1920);
        let height: u32 = config_u32(&self.spec.config, "height", 1080);
        let channel: u16 = config_u16(&self.spec.config, "channel", 0);
        let word: &str = config_text(&self.spec.config, "transport", "tcp");
        let transport: RtspTransport = if same_text(word, "tcp") {
            RtspTransport::Tcp
        } else if same_text(word, "udp") {
            RtspTransport::Udp
        } else {
            return Err(
                NodeError::Config(concat3("transport must be tcp or udp, got `", word, "`")),
            );
        };
        match require_service(rt.services.stream_factory, "stream_factory") {
            Ok(()) => {},
            Err(error) => {
                return Err(error);
            },
        }
        let connect: u64 = match config_timeout(&self.spec.config, "connectTimeoutMs", 8_000, "") {
            Ok(n) => n,
            Err(error) => {
                return Err(error);
            },
        };
        let idle: u64 = match config_timeout(&self.spec.config, "idleTimeoutMs", 10_000, "") {
            Ok(n) => n,
            Err(error) => {
                return Err(error);
            },
        };
        Ok(
            Some(
                RtspStreamPlan {
                    url: url.to_owned(),
                    channel,
                    width,
                    height,
                    transport,
                    session_id: StreamSessionId {
                        value: concat("rtsp-", self.spec.id.as_str()),
                    },
                    connect_timeout_ms: connect,
                    idle_timeout_ms: idle,
                    output_port: self.output_port.clone(),
                },
            ),
        )
    }

    /// Finishes to connect, for whatever the stream service answered. `ended` tells whether the
    /// end of the stream was reported before the service answered.
    pub fn connected(
        &mut self,
        outcome: Result<(), StreamFailure>,
        ended: bool,
        rt: &mut NodeRuntime,
    ) -> (r: Result<(), NodeError>)
        ensures
            final(self).spec == old(self).spec,
            final(self).output_port == old(self).output_port,
            final(self).latest_image == old(self).latest_image,
            match outcome {
                Ok(_) => r is Ok && final(self).stream == Some(RtspStream { cancelled: ended })
                    && final(rt)@ == old(rt)@.reported(NodeRuntimeState::Running, "streaming"@),
                Err(failure) => failed(r, NodeErrorView::Execution(failure.text@)) && final(self).stream == old(self).stream && final(rt)@ == old(rt)@.reported(
                    NodeRuntimeState::Error,
                    stream_failure_text(failure),
                ),
            },
    {
        match outcome {
            Ok(()) => {
                self.stream = Some(RtspStream { cancelled: ended });
                rt.report_state(NodeRuntimeState::Running, "streaming");
                Ok(())
            },
            Err(failure) => {
                rt.report_state(
                    NodeRuntimeState::Error,
                    stream_failure_diagnostic(&failure).as_str(),
                );
                Err(NodeError::Execution(failure.text))
            },
        }
    }

    /// Takes in a decoded frame: it is cached for captures and goes out, if there is room. A stream
    /// that is not open, or that was cancelled, brings no more frames.
    pub fn frame_decoded(&mut self, frame: &DecodedVideoFrame, rt: &mut NodeRuntime)
        ensures
            final(self).spec == old(self).spec,
            final(self).output_port == old(self).output_port,
            final(self).stream == old(self).stream,
            if streaming(old(self).stream) {
                &&& cached_view(final(self).latest_image) == Some(ImageFrame::of_video(*frame))
                &&& final(rt)@ == (if old(rt)@.accepts(old(self).output_port@) {
                    old(rt)@.emitted(
                        old(self).output_port@,
                        PacketView::ImageFrame(ImageFrame::of_video(*frame)),
                    )
                } else {
                    old(rt)@
                })
            } else {
                *final(self) == *old(self) && final(rt)@ == old(rt)@
            },
    {
        match self.stream {
            Some(stream) => {
                if stream.cancelled {
                    return;
                }
            },
            None => {
                return;
            },
        }
        let image: Arc<ImageFrame> = Arc::new(ImageFrame::from_video(frame));
        self.latest_image = Some(share(&image));
        let _emitted: Result<(), NodeError> = rt.emit(
            self.output_port.as_str(),
            DataPacket::ImageFrame(image),
        );
    }

    /// Takes in an event of the stream; `debug` is the event in the service's own words. The end of
    /// the stream cancels it, and the state of the node follows.
    pub fn stream_event(&mut self, event: &StreamEvent, debug: &str, rt: &mut NodeRuntime)
        ensures
            final(self).spec == old(self).spec,
            final(self).output_port == old(self).output_port,
            final(self).latest_image == old(self).latest_image,
            final(self).stream == (if event.terminal() && old(self).stream is Some {
                Some(RtspStream { cancelled: true })
            } else {
                old(self).stream
            }),
            final(rt)@ == event_reported(old(rt)@, *event).noted("stream: "@ + debug@),
    {
        if event.is_terminal() && self.stream.is_some() {
            self.stream = Some(RtspStream { cancelled: true });
        }
        match event {
            StreamEvent::Failed(failure) => {
                rt.report_state(
                    NodeRuntimeState::Error,
                    stream_failure_diagnostic(failure).as_str(),
                );
            },
            StreamEvent::Forced { remote_state_unknown } => {
                rt.report_state(
                    NodeRuntimeState::Error,
                    concat(
                        "stream forced closed; remote_state_unknown=",
                        truth_text(*remote_state_unknown),
                    ).as_str(),
                );
            },
            StreamEvent::BoundaryClosed => {
                rt.report_state(NodeRuntimeState::Idle, "stream boundary closed");
            },
            StreamEvent::Cancelled => {
                rt.report_state(NodeRuntimeState::Idle, "stream cancelled");
            },
            StreamEvent::Playing => {
                rt.report_state(NodeRuntimeState::Running, "streaming");
            },
            StreamEvent::Other => {},
        }
        rt.report_event(concat("stream: ", debug).as_str());
    }

    /// Gives the stream up and forgets the cached frame.
    pub fn disconnect(&mut self, rt: &mut NodeRuntime) -> (r: Result<(), NodeError>)
        ensures
            r is Ok,
            final(self).spec == old(self).spec,
            final(self).output_port == old(self).output_port,
            final(self).stream is None,
            final(self).latest_image is None,
            final(rt)@ == old(rt)@.reported(NodeRuntimeState::Idle, "disconnected"@),
    {
        self.stream = None;
        self.latest_image = None;
        rt.report_state(NodeRuntimeState::Idle, "disconnected");
        Ok(())
    }

    /// Connects or disconnects; a plan comes back where a stream has to be opened.
    pub fn on_action(&mut self, action: NodeAction, rt: &mut NodeRuntime) -> (r: Result<
        Option<RtspStreamPlan>,
        NodeError,
    >)
        ensures
            final(self).spec == old(self).spec,
            final(self).output_port == old(self).output_port,
            match action {
                NodeAction::Connect => {
                    &&& final(self).latest_image == old(self).latest_image
                    &&& final(rt)@ == old(rt)@
                    &&& if streaming(old(self).stream) {
                        r == Ok::<Option<RtspStreamPlan>, NodeError>(None) && final(self).stream
                            == old(self).stream
                    } else {
                        &&& final(self).stream is None
                        &&& match rtsp_plan(
                            old(self).spec@,
                            old(self).output_port@,
                            old(rt)@.services,
                        ) {
                            Err(error) => failed(r, error),
                            Ok(plan) => r is Ok && r->Ok_0 is Some && r->Ok_0->Some_0@ == plan,
                        }
                    }
                },
                NodeAction::Disconnect => {
                    &&& r == Ok::<Option<RtspStreamPlan>, NodeError>(None)
                    &&& final(self).stream is None
                    &&& final(self).latest_image is None
                    &&& final(rt)@ == old(rt)@.reported(NodeRuntimeState::Idle, "disconnected"@)
                },
                _ => failed(r, NodeErrorView::UnsupportedAction(action.label())) && *final(self)
                    == *old(self) && final(rt)@ == old(rt)@,
            },
    {
        match action {
            NodeAction::Connect => self.connect(rt),
            NodeAction::Disconnect => match self.disconnect(rt) {
                Ok(()) => Ok(None),
                Err(error) => Err(error),
            },
            other => Err(NodeError::unsupported(&other)),
        }
    }

    pub fn on_stop(&mut self, rt: &mut NodeRuntime) -> (r: Result<(), NodeError>)
        ensures
            r is Ok,
            final(self).spec == old(self).spec,
            final(self).stream is None,
            final(self).latest_image is None,
            final(rt)@ == old(rt)@.reported(NodeRuntimeState::Idle, "disconnected"@),
    {
        self.disconnect(rt)
    }
}

/// A capture is answered only with a frame that meets the request in everything it asks: channel,
/// source identity and, where given, frame number or timestamp.
pub proof fn law_capture_is_exact(frame: ImageFrameView, request: CaptureRequestView)
    requires
        match_fault(Some(frame), request) is None,
    ensures
        request.target is Yuv,
        request.source_identity is Some ==> request.source_identity->Some_0 == frame.identity,
        match request.mode {
            CaptureMode::Latest => true,
            CaptureMode::FrameId(expected) => frame.identity.frame_sequence == expected,
            CaptureMode::TimestampNs(expected) => frame.identity.device_timestamp_ns == Some(
                expected,
            ),
        },
{
}

/// A request for the latest frame that names the cached frame, or none, is answered.
pub proof fn law_latest_capture_succeeds(
    frame: ImageFrameView,
    stream: Seq<char>,
    channel: u16,
    named: bool,
)
    requires
        frame.identity.provenance == (ProvenanceView::Stream { stream, channel }),
    ensures
        match_fault(
            Some(frame),
            CaptureRequestView {
                target: CaptureTarget::Yuv { channel },
                mode: CaptureMode::Latest,
                source_identity: if named {
                    Some(frame.identity)
                } else {
                    None
                },
            },
        ) is None,
{
}

} // verus!
