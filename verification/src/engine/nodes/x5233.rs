//! The X5_233 driver: two video channels over RTSP, status queries and exact captures over TCP.
use crate::engine::node::{channel_full, NodeAction, NodeError, NodeErrorView};
use crate::engine::nodes::config::{
    config_filled, config_loose_u64, config_text, config_timeout, failed, filled_text, loose_u64,
    text_or, timeout_or,
};
use crate::engine::nodes::stream::{
    describe_timeout, timeout_text, truth, truth_text, RtspStreamPlan, RtspTransport,
    StreamEvent, StreamFailure, StreamFailureCause, StreamPlanView,
};
use crate::engine::packet::{
    copy_bytes, frame_fault, plane_views, BayerPattern, CaptureMode, CaptureRequest,
    CaptureRequestView, CaptureTarget, DataPacket, DecodedVideoFrame, FrameProvenance, IdentityView,
    ImageFrame, ImageFrameFormat, ImageFrameIdentity, ImageFrameView, ImagePlane, PacketView,
    PlaneView, ProvenanceView, RawMetadata,
};
use crate::engine::runtime::{
    require_service, service_missing, EngineServices, NodeRuntime, RuntimeView,
};
use crate::engine::spec::{NodeRuntimeState, NodeSpec, NodeView};
use crate::json::{JsonTree, JsonValue};
use crate::source::{SourcePts, SourcePtsView, StreamSessionId};
use crate::text::{blank, concat, concat3, concat5, decimal, decimal_text, is_blank, same_text};
use std::sync::Arc;
use vstd::prelude::*;

verus! {

pub struct X5233DriverFactory;

impl X5233DriverFactory {
    pub fn kind(&self) -> (r: &'static str)
        ensures
            r@ == "x5233Driver"@,
    {
        "x5233Driver"
    }

    pub fn instantiate(&self, spec: NodeSpec) -> (r: X5233DriverNode)
        ensures
            r.spec == spec,
            r@ == (X5Streams { ch0: None, ch3: None }),
    {
        X5233DriverNode::new(spec)
    }
}

/// A video stream that was opened; it stays on record after it was cancelled.
#[derive(Clone, Copy, Debug, PartialEq, Eq, Structural)]
pub struct X5233VideoStream {
    pub cancelled: bool,
}

pub struct X5233DriverNode {
    pub spec: NodeSpec,
    pub video_ch0: Option<X5233VideoStream>,
    pub video_ch3: Option<X5233VideoStream>,
}

/// The video streams of a driver.
pub struct X5Streams {
    pub ch0: Option<X5233VideoStream>,
    pub ch3: Option<X5233VideoStream>,
}

impl View for X5233DriverNode {
    type V = X5Streams;

    open spec fn view(&self) -> X5Streams {
        X5Streams { ch0: self.video_ch0, ch3: self.video_ch3 }
    }
}

/// Whether a stream is open and not cancelled.
pub open spec fn live(stream: Option<X5233VideoStream>) -> bool {
    match stream {
        Some(stream) => !stream.cancelled,
        None => false,
    }
}

impl X5Streams {
    /// The stream of a channel.
    pub open spec fn channel(self, channel: u16) -> Option<X5233VideoStream> {
        if channel == 0 {
            self.ch0
        } else {
            self.ch3
        }
    }

    /// The streams with another one on a channel.
    pub open spec fn with(self, channel: u16, stream: Option<X5233VideoStream>) -> X5Streams {
        if channel == 0 {
            X5Streams { ch0: stream, ..self }
        } else {
            X5Streams { ch3: stream, ..self }
        }
    }

    /// Whether any stream is open and not cancelled.
    pub open spec fn active(self) -> bool {
        live(self.ch0) || live(self.ch3)
    }
}

/// A video channel and what is said of it.
pub open spec fn video_text(channel: u16, what: Seq<char>) -> Seq<char> {
    "x5_233 video CH"@ + decimal(channel as nat) + what
}

fn video_message(channel: u16, what: &str) -> (r: String)
    ensures
        r@ == video_text(channel, what@),
{
    concat3("x5_233 video CH", decimal_text(channel as u64).as_str(), what)
}

/// The output port of a video channel.
pub open spec fn video_port(channel: u16) -> Result<Seq<char>, NodeErrorView> {
    if channel == 0 {
        Ok("videoCh0"@)
    } else if channel == 3 {
        Ok("videoCh3"@)
    } else {
        Err(
            NodeErrorView::Precondition(
                "X5_233 video only exposes RTSP channels 0 and 3, got "@ + decimal(channel as nat),
            ),
        )
    }
}

/// The address of the device.
pub open spec fn device_host(config: JsonTree) -> Result<Seq<char>, NodeErrorView> {
    match filled_text(config, "host"@) {
        Some(host) => Ok(host),
        None => Err(NodeErrorView::Precondition("x5233Driver host must be configured"@)),
    }
}

/// A number of the configuration, at most `most`, or a fallback.
pub open spec fn loose_or(config: JsonTree, key: Seq<char>, most: u64, fallback: u64) -> u64 {
    match loose_u64(config, key) {
        Some(n) => if n <= most {
            n
        } else {
            fallback
        },
        None => fallback,
    }
}

/// Where a video channel streams from.
pub open spec fn video_url(config: JsonTree, channel: u16) -> Result<Seq<char>, NodeErrorView> {
    let explicit = text_or(config, "rtspUrl"@, ""@);
    if !blank(explicit) {
        Ok(explicit)
    } else {
        match device_host(config) {
            Ok(host) => Ok(
                "rtsp://"@ + host + (if channel == 0 {
                    ":554/PRR"@
                } else {
                    ":557/PRR"@
                }),
            ),
            Err(error) => Err(error),
        }
    }
}

/// What opening a video channel takes.
pub open spec fn video_plan(node: NodeView, channel: u16, services: EngineServices) -> Result<
    StreamPlanView,
    NodeErrorView,
> {
    if !services.stream_factory {
        Err(service_missing("stream_factory"@))
    } else {
        match video_url(node.config, channel) {
            Err(error) => Err(error),
            Ok(url) => match timeout_or(
                node.config,
                "rtspConnectTimeoutMs"@,
                8_000,
                "x5233Driver "@,
            ) {
                Err(error) => Err(error),
                Ok(connect) => match timeout_or(
                    node.config,
                    "rtspIdleTimeoutMs"@,
                    10_000,
                    "x5233Driver "@,
                ) {
                    Err(error) => Err(error),
                    Ok(idle) => Ok(
                        StreamPlanView {
                            url,
                            channel,
                            width: loose_or(node.config, "rtspWidth"@, 0xffff_ffff, 1920) as u32,
                            height: loose_or(node.config, "rtspHeight"@, 0xffff_ffff, 1080) as u32,
                            transport: RtspTransport::Tcp,
                            session_id: "x5-"@ + node.id + "-ch"@ + decimal(channel as nat),
                            connect_timeout_ms: connect,
                            idle_timeout_ms: idle,
                            output_port: video_port(channel)->Ok_0,
                        },
                    ),
                },
            },
        }
    }
}

/// The report of a channel whose stream was closed.
pub open spec fn closed_channel(rt: RuntimeView, streams: X5Streams, channel: u16) -> RuntimeView {
    if streams.channel(channel) is None {
        rt
    } else if streams.with(channel, None).active() {
        rt.reported(
            NodeRuntimeState::Running,
            video_text(channel, " disconnected; other channel still streaming"@),
        )
    } else {
        rt.reported(NodeRuntimeState::Idle, video_text(channel, " disconnected"@))
    }
}

/// What is said of a stream that failed.
pub open spec fn failure_text(channel: u16, failure: StreamFailure) -> Seq<char> {
    match failure.cause {
        StreamFailureCause::ConnectTimeout { timeout_ms } => video_text(
            channel,
            timeout_text(
                " failed before first decoded frame: connect timeout after "@,
                timeout_ms,
                " ms; check RTSP channel/server/network or increase rtspConnectTimeoutMs"@,
            ),
        ),
        StreamFailureCause::IdleTimeout { timeout_ms } => video_text(
            channel,
            timeout_text(
                " failed after frames stopped: idle timeout after "@,
                timeout_ms,
                " ms; check encoder/network stability"@,
            ),
        ),
        StreamFailureCause::Other => video_text(channel, " stream failed: "@ + failure.text@),
    }
}

fn describe_failure(channel: u16, failure: &StreamFailure) -> (r: String)
    ensures
        r@ == failure_text(channel, *failure),
{
    match failure.cause {
        StreamFailureCause::ConnectTimeout { timeout_ms } => video_message(
            channel,
            describe_timeout(
                " failed before first decoded frame: connect timeout after ",
                timeout_ms,
                " ms; check RTSP channel/server/network or increase rtspConnectTimeoutMs",
            ).as_str(),
        ),
        StreamFailureCause::IdleTimeout { timeout_ms } => video_message(
            channel,
            describe_timeout(
                " failed after frames stopped: idle timeout after ",
                timeout_ms,
                " ms; check encoder/network stability",
            ).as_str(),
        ),
        StreamFailureCause::Other => video_message(
            channel,
            concat(" stream failed: ", failure.text.as_str()).as_str(),
        ),
    }
}

/// What a user asked of the driver.
#[derive(Debug)]
pub enum X5Command {
    OpenVideo { channel: u16 },
    /// The channels are opened in turn, until one cannot be.
    OpenAllVideo { channels: Vec<u16> },
    CloseVideo,
    Status,
    Probe,
    Capture(CaptureRequest),
}

/// A command by its values.
pub enum X5CommandView {
    OpenVideo { channel: u16 },
    OpenAllVideo { channels: Seq<u16> },
    CloseVideo,
    Status,
    Probe,
    Capture(CaptureRequestView),
}

impl View for X5Command {
    type V = X5CommandView;

    open spec fn view(&self) -> X5CommandView {
        match *self {
            X5Command::OpenVideo { channel } => X5CommandView::OpenVideo { channel },
            X5Command::OpenAllVideo { channels } => X5CommandView::OpenAllVideo {
                channels: channels@,
            },
            X5Command::CloseVideo => X5CommandView::CloseVideo,
            X5Command::Status => X5CommandView::Status,
            X5Command::Probe => X5CommandView::Probe,
            X5Command::Capture(request) => X5CommandView::Capture(request@),
        }
    }
}

/// The channel that is opened after `opened` others, where all are to be opened: channel 0 first,
/// then channel 3.
pub fn next_video_channel(opened: usize) -> (r: Option<u16>)
    ensures
        r == (if opened == 0 {
            Some(0u16)
        } else if opened == 1 {
            Some(3u16)
        } else {
            None::<u16>
        }),
{
    if opened == 0 {
        Some(0)
    } else if opened == 1 {
        Some(3)
    } else {
        None
    }
}

fn all_video_channels() -> (r: Vec<u16>)
    ensures
        r@ == seq![0u16, 3u16],
{
    let mut r: Vec<u16> = Vec::new();
    r.push(0);
    r.push(3);
    r
}

/// Goes on with the opening of all channels after `opened` of them were tried, the last one with
/// `outcome`: the first channel that could not be opened ends it with its error.
pub fn open_all_step(opened: usize, outcome: Result<(), NodeError>) -> (r: Result<
    Option<u16>,
    NodeError,
>)
    ensures
        match outcome {
            Err(error) => r == Err::<Option<u16>, NodeError>(error),
            Ok(_) => r == Ok::<Option<u16>, NodeError>(
                if opened == 0 {
                    Some(0u16)
                } else if opened == 1 {
                    Some(3u16)
                } else {
                    None::<u16>
                },
            ),
        },
{
    match outcome {
        Err(error) => Err(error),
        Ok(()) => Ok(next_video_channel(opened)),
    }
}

/// The moment that the configuration asks for.
pub open spec fn snapshot_mode(config: JsonTree) -> Result<CaptureMode, NodeErrorView> {
    let mode = text_or(config, "snapshotMode"@, ""@);
    if mode == ""@ || mode == "latest"@ {
        Ok(CaptureMode::Latest)
    } else if mode == "frame_id"@ {
        match loose_u64(config, "snapshotFrameId"@) {
            Some(n) => Ok(CaptureMode::FrameId(n)),
            None => Err(
                NodeErrorView::Config(
                    "x5233Driver snapshotFrameId must be a non-negative integer"@,
                ),
            ),
        }
    } else if mode == "timestamp_ns"@ {
        match loose_u64(config, "snapshotTimestampNs"@) {
            Some(n) => Ok(CaptureMode::TimestampNs(n)),
            None => Err(
                NodeErrorView::Config(
                    "x5233Driver snapshotTimestampNs must be a non-negative integer"@,
                ),
            ),
        }
    } else {
        Err(
            NodeErrorView::Config(
                "x5233Driver snapshotMode `"@ + mode + "` is unsupported"@,
            ),
        )
    }
}

/// The command of an action.
pub open spec fn x5_command(config: JsonTree, action: NodeAction) -> Result<
    X5CommandView,
    NodeErrorView,
> {
    match action {
        NodeAction::Connect => Ok(
            X5CommandView::OpenVideo { channel: loose_or(config, "rtspChannel"@, 0xffff, 0) as u16 },
        ),
        NodeAction::Disconnect => Ok(X5CommandView::CloseVideo),
        NodeAction::Trigger => Ok(X5CommandView::Status),
        NodeAction::Custom { name, .. } => {
            if name@ == "open_rtsp_ch0"@ {
                Ok(X5CommandView::OpenVideo { channel: 0 })
            } else if name@ == "open_rtsp_ch3"@ {
                Ok(X5CommandView::OpenVideo { channel: 3 })
            } else if name@ == "open_rtsp_all"@ {
                Ok(X5CommandView::OpenAllVideo { channels: seq![0u16, 3u16] })
            } else if name@ == "close_rtsp"@ {
                Ok(X5CommandView::CloseVideo)
            } else if name@ == "status"@ {
                Ok(X5CommandView::Status)
            } else if name@ == "probe"@ {
                Ok(X5CommandView::Probe)
            } else if name@ == "snapshot"@ || name@ == "capture_yuv"@ {
                match snapshot_mode(config) {
                    Ok(mode) => Ok(
                        X5CommandView::Capture(
                            CaptureRequestView {
                                target: CaptureTarget::Yuv {
                                    channel: loose_or(config, "snapshotChannel"@, 0xffff, 0) as u16,
                                },
                                mode,
                                source_identity: None,
                            },
                        ),
                    ),
                    Err(error) => Err(error),
                }
            } else if name@ == "capture_raw"@ {
                Ok(
                    X5CommandView::Capture(
                        CaptureRequestView {
                            target: CaptureTarget::Raw {
                                camera: loose_or(config, "rawCamera"@, 0xffff, 0) as u16,
                            },
                            mode: CaptureMode::Latest,
                            source_identity: None,
                        },
                    ),
                )
            } else {
                Err(NodeErrorView::UnsupportedAction(action.label()))
            }
        },
        _ => Err(NodeErrorView::UnsupportedAction(action.label())),
    }
}

/// Where the device answers.
#[derive(Debug)]
pub struct X5Endpoint {
    pub host: String,
    pub port: u16,
}

/// The port that the device answers on.
pub open spec fn device_port(config: JsonTree) -> u16 {
    loose_or(config, "tcpPort"@, 0xffff, 9073) as u16
}

/// Why a capture cannot be asked for; nothing where it can.
pub open spec fn capture_fault(
    config: JsonTree,
    request: CaptureRequestView,
    services: EngineServices,
) -> Option<NodeErrorView> {
    if request.target is Raw && request.mode != CaptureMode::Latest {
        Some(
            NodeErrorView::Precondition(
                "X5_233 RAW capture only supports mode=latest; the device exposes no RAW frame ring"@,
            ),
        )
    } else {
        match device_host(config) {
            Err(error) => Some(error),
            Ok(_) => if services.x5 {
                None
            } else {
                Some(service_missing("x5_client"@))
            },
        }
    }
}

/// What the device sends for a capture.
#[derive(Debug)]
pub enum X5233CapturePayload {
    Nv12 {
        channel: u16,
        width: u32,
        height: u32,
        y_len: usize,
        uv_len: usize,
        frame_id: u64,
        timestamp_ns: u64,
        payload: Vec<u8>,
    },
    BayerRaw {
        camera: u16,
        width: u32,
        height: u32,
        stride_bytes: u32,
        format_code: u32,
        frame_id: u64,
        timestamp_ns: u64,
        payload: Vec<u8>,
    },
}

/// The number of bytes of a row, where rows divide a plane evenly.
pub open spec fn row_stride(length: nat, rows: u32, plane: Seq<char>) -> Result<
    u32,
    NodeErrorView,
> {
    if rows == 0 || length as int % rows as int != 0 {
        Err(
            NodeErrorView::Execution(
                "X5_233 "@ + plane + " plane length "@ + decimal(length)
                    + " is not an exact row extent"@,
            ),
        )
    } else if length as int / rows as int > u32::MAX {
        Err(NodeErrorView::Execution("X5_233 "@ + plane + " stride does not fit u32"@))
    } else {
        Ok((length as int / rows as int) as u32)
    }
}

fn plane_stride(length: usize, rows: u32, plane: &str) -> (r: Result<u32, NodeError>)
    ensures
        match row_stride(length as nat, rows, plane@) {
            Ok(n) => r == Ok::<u32, NodeError>(n),
            Err(error) => failed(r, error),
        },
{
    let rows: usize = rows as usize;
    if rows == 0 || length % rows != 0 {
        return Err(
            NodeError::Execution(
                concat5(
                    "X5_233 ",
                    plane,
                    " plane length ",
                    decimal_text(length as u64).as_str(),
                    " is not an exact row extent",
                ),
            ),
        );
    }
    let stride: usize = length / rows;
    if stride > u32::MAX as usize {
        return Err(NodeError::Execution(concat3("X5_233 ", plane, " stride does not fit u32")));
    }
    Ok(stride as u32)
}

/// The identity of a captured frame.
pub open spec fn device_identity(
    channel: u16,
    camera: Option<u16>,
    frame_id: u64,
    timestamp_ns: u64,
    host_time_ns: u64,
) -> IdentityView {
    IdentityView {
        provenance: ProvenanceView::Device {
            driver: "x5_233"@,
            channel,
            camera,
            timestamp_ns,
        },
        frame_sequence: frame_id,
        source_pts: SourcePtsView::Unavailable {
            reason: "X5_233 device timestamp is not a decoded RTSP frame identity"@,
        },
        host_monotonic_time_ns: host_time_ns,
        device_timestamp_ns: Some(timestamp_ns),
    }
}

fn x5233_identity(
    channel: u16,
    camera: Option<u16>,
    frame_id: u64,
    timestamp_ns: u64,
    host_time_ns: u64,
) -> (r: ImageFrameIdentity)
    ensures
        r@ == device_identity(channel, camera, frame_id, timestamp_ns, host_time_ns),
{
    ImageFrameIdentity {
        provenance: FrameProvenance::Device {
            driver: "x5_233".to_owned(),
            channel,
            camera,
            timestamp_ns,
        },
        frame_sequence: frame_id,
        source_pts: SourcePts::Unavailable {
            reason: "X5_233 device timestamp is not a decoded RTSP frame identity".to_owned(),
        },
        host_monotonic_time_ns: host_time_ns,
        device_timestamp_ns: Some(timestamp_ns),
    }
}

/// The metadata of raw captures.
pub open spec fn raw_metadata() -> RawMetadata {
    RawMetadata {
        bayer_pattern: BayerPattern::Rggb,
        bits_per_sample: 12,
        black_level: None,
        white_level: None,
    }
}

/// An output port and the frame that goes there.
pub struct CapturedView {
    pub port: Seq<char>,
    pub frame: ImageFrameView,
}

/// The image of a luma and a chroma plane, or why there is none.
pub open spec fn nv12_capture(
    target: CaptureTarget,
    channel: u16,
    width: u32,
    height: u32,
    y_len: usize,
    uv_len: usize,
    payload: Seq<u8>,
    identity: IdentityView,
) -> Result<CapturedView, NodeErrorView> {
    if target != (CaptureTarget::Yuv { channel }) {
        Err(
            NodeErrorView::Execution(
                "X5_233 YUV response target does not match capture request"@,
            ),
        )
    } else if channel != 0 && channel != 3 {
        Err(
            NodeErrorView::Precondition(
                "X5_233 only exposes YUV channels 0 and 3, got "@ + decimal(channel as nat),
            ),
        )
    } else {
        match row_stride(y_len as nat, height, "Y"@) {
            Err(error) => Err(error),
            Ok(y_stride) => match row_stride(uv_len as nat, height / 2, "UV"@) {
                Err(error) => Err(error),
                Ok(uv_stride) => if y_len + uv_len > usize::MAX {
                    Err(NodeErrorView::Execution("X5_233 NV12 payload length overflow"@))
                } else if payload.len() != y_len + uv_len {
                    Err(
                        NodeErrorView::Execution(
                            "X5_233 NV12 payload has "@ + decimal(payload.len())
                                + " bytes, expected "@ + decimal((y_len + uv_len) as nat),
                        ),
                    )
                } else {
                    let planes = seq![
                        PlaneView {
                            bytes: payload.subrange(0, y_len as int),
                            stride_bytes: y_stride,
                        },
                        PlaneView {
                            bytes: payload.subrange(y_len as int, payload.len() as int),
                            stride_bytes: uv_stride,
                        },
                    ];
                    match frame_fault(width, height, ImageFrameFormat::Nv12, planes) {
                        Some(fault) => Err(
                            NodeErrorView::Execution(
                                "invalid X5_233 NV12 frame: "@ + fault.text(),
                            ),
                        ),
                        None => Ok(
                            CapturedView {
                                port: if channel == 0 {
                                    "yuvCh0"@
                                } else {
                                    "yuvCh3"@
                                },
                                frame: ImageFrameView {
                                    width,
                                    height,
                                    format: ImageFrameFormat::Nv12,
                                    planes,
                                    identity,
                                    raw: None,
                                },
                            },
                        ),
                    }
                },
            },
        }
    }
}

/// The image of a raw plane, or why there is none.
pub open spec fn raw_capture(
    target: CaptureTarget,
    camera: u16,
    width: u32,
    height: u32,
    stride_bytes: u32,
    payload: Seq<u8>,
    identity: IdentityView,
) -> Result<CapturedView, NodeErrorView> {
    if target != (CaptureTarget::Raw { camera }) {
        Err(
            NodeErrorView::Execution(
                "X5_233 RAW response target does not match capture request"@,
            ),
        )
    } else if camera != 0 && camera != 1 {
        Err(
            NodeErrorView::Precondition(
                "X5_233 only exposes RAW cameras 0 and 1, got "@ + decimal(camera as nat),
            ),
        )
    } else {
        let planes = seq![PlaneView { bytes: payload, stride_bytes }];
        match frame_fault(width, height, ImageFrameFormat::BayerRaw, planes) {
            Some(fault) => Err(
                NodeErrorView::Execution("invalid X5_233 RAW frame: "@ + fault.text()),
            ),
            None => Ok(
                CapturedView {
                    port: if camera == 0 {
                        "rawCam0"@
                    } else {
                        "rawCam1"@
                    },
                    frame: ImageFrameView {
                        width,
                        height,
                        format: ImageFrameFormat::BayerRaw,
                        planes,
                        identity,
                        raw: Some(raw_metadata()),
                    },
                },
            ),
        }
    }
}

/// The image of a payload, or why there is none.
pub open spec fn captured_frame(
    target: CaptureTarget,
    payload: X5233CapturePayload,
    host_time_ns: u64,
) -> Result<CapturedView, NodeErrorView> {
    match payload {
        X5233CapturePayload::Nv12 {
            channel,
            width,
            height,
            y_len,
            uv_len,
            frame_id,
            timestamp_ns,
            payload,
        } => nv12_capture(
            target,
            channel,
            width,
            height,
            y_len,
            uv_len,
            payload@,
            device_identity(channel, None, frame_id, timestamp_ns, host_time_ns),
        ),
        X5233CapturePayload::BayerRaw {
            camera,
            width,
            height,
            stride_bytes,
            frame_id,
            timestamp_ns,
            payload,
            ..
        } => raw_capture(
            target,
            camera,
            width,
            height,
            stride_bytes,
            payload@,
            device_identity(camera, Some(camera), frame_id, timestamp_ns, host_time_ns),
        ),
    }
}

fn assemble_nv12(
    target: CaptureTarget,
    channel: u16,
    width: u32,
    height: u32,
    y_len: usize,
    uv_len: usize,
    payload: Vec<u8>,
    identity: ImageFrameIdentity,
) -> (r: Result<(&'static str, ImageFrame), NodeError>)
    ensures
        match nv12_capture(target, channel, width, height, y_len, uv_len, payload@, identity@) {
            Ok(captured) => r is Ok && r->Ok_0.0@ == captured.port && r->Ok_0.1@ == captured.frame,
            Err(error) => failed(r, error),
        },
{
    let wanted = CaptureTarget::Yuv { channel };
    if target != wanted {
        return Err(
            NodeError::execution("X5_233 YUV response target does not match capture request"),
        );
    }
    let port: &'static str = if channel == 0 {
        "yuvCh0"
    } else if channel == 3 {
        "yuvCh3"
    } else {
        return Err(
            NodeError::Precondition(
                concat(
                    "X5_233 only exposes YUV channels 0 and 3, got ",
                    decimal_text(channel as u64).as_str(),
                ),
            ),
        );
    };
    let y_stride: u32 = match plane_stride(y_len, height, "Y") {
        Ok(n) => n,
        Err(error) => {
            return Err(error);
        },
    };
    let uv_stride: u32 = match plane_stride(uv_len, height / 2, "UV") {
        Ok(n) => n,
        Err(error) => {
            return Err(error);
        },
    };
    if uv_len > usize::MAX - y_len {
        return Err(NodeError::execution("X5_233 NV12 payload length overflow"));
    }
    let total: usize = y_len + uv_len;
    if payload.len() != total {
        let head: String = concat3(
            "X5_233 NV12 payload has ",
            decimal_text(payload.len() as u64).as_str(),
            " bytes, expected ",
        );
        return Err(
            NodeError::Execution(concat(head.as_str(), decimal_text(total as u64).as_str())),
        );
    }
    let mut planes: Vec<ImagePlane> = Vec::new();
    planes.push(ImagePlane::new(copy_bytes(&payload, 0, y_len), y_stride));
    planes.push(ImagePlane::new(copy_bytes(&payload, y_len, total), uv_stride));
    proof {
        assert(plane_views(planes@) =~= seq![
            PlaneView { bytes: payload@.subrange(0, y_len as int), stride_bytes: y_stride },
            PlaneView {
                bytes: payload@.subrange(y_len as int, payload@.len() as int),
                stride_bytes: uv_stride,
            },
        ]);
    }
    match ImageFrame::new(width, height, ImageFrameFormat::Nv12, planes, identity, None) {
        Ok(frame) => Ok((port, frame)),
        Err(error) => Err(
            NodeError::Execution(concat("invalid X5_233 NV12 frame: ", error.describe())),
        ),
    }
}

fn assemble_raw(
    target: CaptureTarget,
    camera: u16,
    width: u32,
    height: u32,
    stride_bytes: u32,
    payload: Vec<u8>,
    identity: ImageFrameIdentity,
) -> (r: Result<(&'static str, ImageFrame), NodeError>)
    ensures
        match raw_capture(target, camera, width, height, stride_bytes, payload@, identity@) {
            Ok(captured) => r is Ok && r->Ok_0.0@ == captured.port && r->Ok_0.1@ == captured.frame,
            Err(error) => failed(r, error),
        },
{
    let wanted = CaptureTarget::Raw { camera };
    if target != wanted {
        return Err(
            NodeError::execution("X5_233 RAW response target does not match capture request"),
        );
    }
    let port: &'static str = if camera == 0 {
        "rawCam0"
    } else if camera == 1 {
        "rawCam1"
    } else {
        return Err(
            NodeError::Precondition(
                concat(
                    "X5_233 only exposes RAW cameras 0 and 1, got ",
                    decimal_text(camera as u64).as_str(),
                ),
            ),
        );
    };
    let mut planes: Vec<ImagePlane> = Vec::new();
    let ghost bytes = payload@;
    planes.push(ImagePlane::new(payload, stride_bytes));
    proof {
        assert(plane_views(planes@) =~= seq![PlaneView { bytes, stride_bytes }]);
    }
    let raw = RawMetadata {
        bayer_pattern: BayerPattern::Rggb,
        bits_per_sample: 12,
        black_level: None,
        white_level: None,
    };
    match ImageFrame::new(width, height, ImageFrameFormat::BayerRaw, planes, identity, Some(raw)) {
        Ok(frame) => Ok((port, frame)),
        Err(error) => Err(
            NodeError::Execution(concat("invalid X5_233 RAW frame: ", error.describe())),
        ),
    }
}

/// The runtime after a capture was published.
pub open spec fn published(rt: RuntimeView, captured: CapturedView) -> RuntimeView {
    rt.emitted(captured.port, PacketView::ImageFrame(captured.frame)).noted(
        "x5_233 capture published on "@ + captured.port,
    ).reported(NodeRuntimeState::Idle, "x5_233 capture ready"@)
}

impl X5233DriverNode {
    pub fn new(spec: NodeSpec) -> (r: X5233DriverNode)
        ensures
            r.spec == spec,
            r@ == (X5Streams { ch0: None, ch3: None }),
    {
        X5233DriverNode { spec, video_ch0: None, video_ch3: None }
    }

    fn host(&self) -> (r: Result<String, NodeError>)
        ensures
            match device_host(self.spec.config@) {
                Ok(host) => r is Ok && r->Ok_0@ == host,
                Err(error) => failed(r, error),
            },
    {
        match config_filled(&self.spec.config, "host") {
            Some(host) => Ok(host.to_owned()),
            None => Err(NodeError::precondition("x5233Driver host must be configured")),
        }
    }

    fn loose(&self, key: &str, most: u64, fallback: u64) -> (r: u64)
        ensures
            r == loose_or(self.spec.config@, key@, most, fallback),
    {
        match config_loose_u64(&self.spec.config, key) {
            Some(n) => if n <= most {
                n
            } else {
                fallback
            },
            None => fallback,
        }
    }

    fn rtsp_output_port(channel: u16) -> (r: Result<&'static str, NodeError>)
        ensures
            match video_port(channel) {
                Ok(port) => r is Ok && r->Ok_0@ == port,
                Err(error) => failed(r, error),
            },
    {
        if channel == 0 {
            Ok("videoCh0")
        } else if channel == 3 {
            Ok("videoCh3")
        } else {
            Err(
                NodeError::Precondition(
                    concat(
                        "X5_233 video only exposes RTSP channels 0 and 3, got ",
                        decimal_text(channel as u64).as_str(),
                    ),
                ),
            )
        }
    }

    fn rtsp_url(&self, channel: u16) -> (r: Result<String, NodeError>)
        ensures
            match video_url(self.spec.config@, channel) {
                Ok(url) => r is Ok && r->Ok_0@ == url,
                Err(error) => failed(r, error),
            },
    {
        let explicit: &str = config_text(&self.spec.config, "rtspUrl", "");
        if !is_blank(explicit) {
            return Ok(explicit.to_owned());
        }
        match self.host() {
            Ok(host) => {
                let tail: &str = if channel == 0 {
                    ":554/PRR"
                } else {
                    ":557/PRR"
                };
                Ok(concat3("rtsp://", host.as_str(), tail))
            },
            Err(error) => Err(error),
        }
    }

    fn plan_video(&self, channel: u16, services: EngineServices) -> (r: Result<
        RtspStreamPlan,
        NodeError,
    >)
        requires
            channel == 0 || channel == 3,
        ensures
            match video_plan(self.spec@, channel, services) {
                Ok(plan) => r is Ok && r->Ok_0@ == plan,
                Err(error) => failed(r, error),
            },
    {
        match require_service(services.stream_factory, "stream_factory") {
            Ok(()) => {},
            Err(error) => {
                return Err(error);
            },
        }
        let url: String = match self.rtsp_url(channel) {
            Ok(url) => url,
            Err(error) => {
                return Err(error);
            },
        };
        let connect: u64 = match config_timeout(
            &self.spec.config,
            "rtspConnectTimeoutMs",
            8_000,
            "x5233Driver ",
        ) {
            Ok(n) => n,
            Err(error) => {
                return Err(error);
            },
        };
        let idle: u64 = match config_timeout(
            &self.spec.config,
            "rtspIdleTimeoutMs",
            10_000,
            "x5233Driver ",
        ) {
            Ok(n) => n,
            Err(error) => {
                return Err(error);
            },
        };
        let width: u32 = self.loose("rtspWidth", 0xffff_ffff, 1920) as u32;
        let height: u32 = self.loose("rtspHeight", 0xffff_ffff, 1080) as u32;
        let number: String = decimal_text(channel as u64);
        let head: String = concat3("x5-", self.spec.id.as_str(), "-ch");
        let session: String = concat(head.as_str(), number.as_str());
        let output_port: &str = if channel == 0 {
            "videoCh0"
        } else {
            "videoCh3"
        };
        Ok(
            RtspStreamPlan {
                url,
                channel,
                width,
                height,
                transport: RtspTransport::Tcp,
                session_id: StreamSessionId { value: session },
                connect_timeout_ms: connect,
                idle_timeout_ms: idle,
                output_port: output_port.to_owned(),
            },
        )
    }

    fn stream(&self, channel: u16) -> (r: Option<X5233VideoStream>)
        ensures
            r == self@.channel(channel),
    {
        if channel == 0 {
            self.video_ch0
        } else {
            self.video_ch3
        }
    }

    fn set_stream(&mut self, channel: u16, stream: Option<X5233VideoStream>)
        ensures
            final(self)@ == old(self)@.with(channel, stream),
            final(self).spec == old(self).spec,
    {
        if channel == 0 {
            self.video_ch0 = stream;
        } else {
            self.video_ch3 = stream;
        }
    }

    fn has_active_video_stream(&self) -> (r: bool)
        ensures
            r == self@.active(),
    {
        let first: bool = match self.video_ch0 {
            Some(stream) => !stream.cancelled,
            None => false,
        };
        let second: bool = match self.video_ch3 {
            Some(stream) => !stream.cancelled,
            None => false,
        };
        first || second
    }

    fn disconnect_video_channel(&mut self, channel: u16, rt: &mut NodeRuntime)
        ensures
            final(self).spec == old(self).spec,
            final(self)@ == old(self)@.with(channel, None),
            final(rt)@ == closed_channel(old(rt)@, old(self)@, channel),
    {
        if self.stream(channel).is_none() {
            return;
        }
        self.set_stream(channel, None);
        if self.has_active_video_stream() {
            rt.report_state(
                NodeRuntimeState::Running,
                video_message(channel, " disconnected; other channel still streaming").as_str(),
            );
        } else {
            rt.report_state(
                NodeRuntimeState::Idle,
                video_message(channel, " disconnected").as_str(),
            );
        }
    }

    /// Begins to open a video channel. A channel that streams already stays as it is and needs no
    /// plan; one whose stream was cancelled is closed first.
    pub fn connect_video_channel(&mut self, channel: u16, rt: &mut NodeRuntime) -> (r: Result<
        Option<RtspStreamPlan>,
        NodeError,
    >)
        ensures
            final(self).spec == old(self).spec,
            match video_port(channel) {
                Err(error) => failed(r, error) && final(self)@ == old(self)@ && final(rt)@ == old(rt)@,
                Ok(_) => if live(old(self)@.channel(channel)) {
                    r == Ok::<Option<RtspStreamPlan>, NodeError>(None) && final(self)@ == old(self)@ && final(rt)@ == old(rt)@.reported(
                        NodeRuntimeState::Running,
                        video_text(channel, " streaming"@),
                    )
                } else {
                    &&& final(self)@ == old(self)@.with(channel, None)
                    &&& final(rt)@ == closed_channel(old(rt)@, old(self)@, channel)
                    &&& match video_plan(old(self).spec@, channel, old(rt)@.services) {
                        Err(error) => failed(r, error),
                        Ok(plan) => r is Ok && r->Ok_0 is Some && r->Ok_0->Some_0@ == plan,
                    }
                },
            },
    {
        match X5233DriverNode::rtsp_output_port(channel) {
            Ok(_) => {},
            Err(error) => {
                return Err(error);
            },
        }
        match self.stream(channel) {
            Some(stream) => {
                if !stream.cancelled {
                    rt.report_state(
                        NodeRuntimeState::Running,
                        video_message(channel, " streaming").as_str(),
                    );
                    return Ok(None);
                }
            },
            None => {},
        }
        self.disconnect_video_channel(channel, rt);
        match self.plan_video(channel, rt.services) {
            Ok(plan) => Ok(Some(plan)),
            Err(error) => Err(error),
        }
    }

    /// Finishes the opening of a video channel, for whatever the stream service answered. `ended`
    /// tells whether the end of the stream was reported before the service answered.
    pub fn video_opened(
        &mut self,
        channel: u16,
        outcome: Result<(), StreamFailure>,
        ended: bool,
        rt: &mut NodeRuntime,
    ) -> (r: Result<(), NodeError>)
        requires
            channel == 0 || channel == 3,
        ensures
            final(self).spec == old(self).spec,
            match outcome {
                Ok(_) => r is Ok && final(self)@ == old(self)@.with(
                    channel,
                    Some(X5233VideoStream { cancelled: ended }),
                ) && final(rt)@ == old(rt)@.reported(
                    NodeRuntimeState::Running,
                    video_text(channel, " streaming"@),
                ),
                Err(failure) => failed(r, NodeErrorView::Execution(failure.text@)) && final(self)@ == old(self)@ && final(rt)@ == old(rt)@.reported(
                    NodeRuntimeState::Error,
                    failure_text(channel, failure),
                ),
            },
    {
        match outcome {
            Ok(()) => {
                self.set_stream(channel, Some(X5233VideoStream { cancelled: ended }));
                rt.report_state(
                    NodeRuntimeState::Running,
                    video_message(channel, " streaming").as_str(),
                );
                Ok(())
            },
            Err(failure) => {
                rt.report_state(
                    NodeRuntimeState::Error,
                    describe_failure(channel, &failure).as_str(),
                );
                Err(NodeError::Execution(failure.text))
            },
        }
    }

    /// Closes both video channels.
    pub fn disconnect_video(&mut self, rt: &mut NodeRuntime) -> (r: Result<(), NodeError>)
        ensures
            r is Ok,
            final(self).spec == old(self).spec,
            final(self)@ == (X5Streams { ch0: None, ch3: None }),
            final(rt)@ == old(rt)@.reported(NodeRuntimeState::Idle, "x5_233 video disconnected"@),
    {
        self.video_ch0 = None;
        self.video_ch3 = None;
        rt.report_state(NodeRuntimeState::Idle, "x5_233 video disconnected");
        Ok(())
    }

    /// Takes in a decoded frame of a video channel: it goes out on the channel's port, if there is
    /// room. A channel that is closed or cancelled sends nothing more.
    pub fn frame_decoded(&self, channel: u16, frame: Arc<DecodedVideoFrame>, rt: &mut NodeRuntime)
        ensures
            final(rt)@ == (match video_port(channel) {
                Ok(port) => if live(self@.channel(channel)) && old(rt)@.accepts(port) {
                    old(rt)@.emitted(port, PacketView::VideoFrame(*frame))
                } else {
                    old(rt)@
                },
                Err(_) => old(rt)@,
            }),
    {
        let streaming: bool = match self.stream(channel) {
            Some(stream) => !stream.cancelled,
            None => false,
        };
        match X5233DriverNode::rtsp_output_port(channel) {
            Ok(port) => {
                if streaming {
                    let _emitted: Result<(), NodeError> = rt.emit(
                        port,
                        DataPacket::VideoFrame(frame),
                    );
                }
            },
            Err(_) => {},
        }
    }

    /// Takes in an event of a channel's stream; `debug` is the event in the service's own words.
    /// The end of a stream cancels it, and the state of the node follows.
    pub fn stream_event(
        &mut self,
        channel: u16,
        event: &StreamEvent,
        debug: &str,
        rt: &mut NodeRuntime,
    )
        ensures
            final(self).spec == old(self).spec,
            final(self)@ == (if event.terminal() && old(self)@.channel(channel) is Some {
                old(self)@.with(channel, Some(X5233VideoStream { cancelled: true }))
            } else {
                old(self)@
            }),
            final(rt)@ == stream_reported(old(rt)@, channel, *event).noted(
                video_text(channel, " stream: "@ + debug@),
            ),
    {
        if event.is_terminal() && self.stream(channel).is_some() {
            self.set_stream(channel, Some(X5233VideoStream { cancelled: true }));
        }
        match event {
            StreamEvent::Failed(failure) => {
                rt.report_state(
                    NodeRuntimeState::Error,
                    describe_failure(channel, failure).as_str(),
                );
            },
            StreamEvent::Forced { remote_state_unknown } => {
                let what: String = concat(
                    " forced closed; remote_state_unknown=",
                    truth_text(*remote_state_unknown),
                );
                rt.report_state(
                    NodeRuntimeState::Error,
                    video_message(channel, what.as_str()).as_str(),
                );
            },
            StreamEvent::BoundaryClosed => {
                rt.report_state(
                    NodeRuntimeState::Idle,
                    video_message(channel, " boundary closed").as_str(),
                );
            },
            StreamEvent::Cancelled => {
                rt.report_state(
                    NodeRuntimeState::Idle,
                    video_message(channel, " cancelled").as_str(),
                );
            },
            StreamEvent::Playing => {
                rt.report_state(
                    NodeRuntimeState::Running,
                    video_message(channel, " streaming").as_str(),
                );
            },
            StreamEvent::Other => {},
        }
        let text: String = concat(" stream: ", debug);
        rt.report_event(video_message(channel, text.as_str()).as_str());
    }

    pub fn on_start(&mut self, rt: &mut NodeRuntime) -> (r: Result<(), NodeError>)
        ensures
            r is Ok,
            *final(self) == *old(self),
            final(rt)@ == old(rt)@.reported(
                NodeRuntimeState::Ready,
                "trigger to query X5_233 driver status"@,
            ),
    {
        rt.report_state(NodeRuntimeState::Ready, "trigger to query X5_233 driver status");
        Ok(())
    }

    /// The capture that an input asks for; nothing for an input on another port.
    pub fn on_input(&mut self, port: &str, packet: DataPacket) -> (r: Result<
        Option<Arc<CaptureRequest>>,
        NodeError,
    >)
        ensures
            *final(self) == *old(self),
            if port@ != "capture"@ {
                r == Ok::<Option<Arc<CaptureRequest>>, NodeError>(None)
            } else {
                match packet {
                    DataPacket::CaptureRequest(request) => r == Ok::<
                        Option<Arc<CaptureRequest>>,
                        NodeError,
                    >(Some(request)),
                    _ => failed(
                        r,
                        NodeErrorView::Precondition(
                            "x5233Driver.capture requires command.capture.request.v1"@,
                        ),
                    ),
                }
            },
    {
        if !same_text(port, "capture") {
            return Ok(None);
        }
        match packet {
            DataPacket::CaptureRequest(request) => Ok(Some(request)),
            _ => Err(
                NodeError::precondition("x5233Driver.capture requires command.capture.request.v1"),
            ),
        }
    }

    fn capture_mode(&self) -> (r: Result<CaptureMode, NodeError>)
        ensures
            match snapshot_mode(self.spec.config@) {
                Ok(mode) => r == Ok::<CaptureMode, NodeError>(mode),
                Err(error) => failed(r, error),
            },
    {
        let mode: &str = config_text(&self.spec.config, "snapshotMode", "");
        if same_text(mode, "") || same_text(mode, "latest") {
            return Ok(CaptureMode::Latest);
        }
        if same_text(mode, "frame_id") {
            return match config_loose_u64(&self.spec.config, "snapshotFrameId") {
                Some(n) => Ok(CaptureMode::FrameId(n)),
                None => Err(
                    NodeError::config(
                        "x5233Driver snapshotFrameId must be a non-negative integer",
                    ),
                ),
            };
        }
        if same_text(mode, "timestamp_ns") {
            return match config_loose_u64(&self.spec.config, "snapshotTimestampNs") {
                Some(n) => Ok(CaptureMode::TimestampNs(n)),
                None => Err(
                    NodeError::config(
                        "x5233Driver snapshotTimestampNs must be a non-negative integer",
                    ),
                ),
            };
        }
        Err(
            NodeError::Config(
                concat3("x5233Driver snapshotMode `", mode, "` is unsupported"),
            ),
        )
    }

    /// The command of an action.
    pub fn on_action(&mut self, action: NodeAction) -> (r: Result<X5Command, NodeError>)
        ensures
            *final(self) == *old(self),
            match x5_command(old(self).spec.config@, action) {
                Ok(command) => r is Ok && r->Ok_0@ == command,
                Err(error) => failed(r, error),
            },
    {
        match &action {
            NodeAction::Connect => {
                let channel: u16 = self.loose("rtspChannel", 0xffff, 0) as u16;
                Ok(X5Command::OpenVideo { channel })
            },
            NodeAction::Disconnect => Ok(X5Command::CloseVideo),
            NodeAction::Trigger => Ok(X5Command::Status),
            NodeAction::Custom { name, .. } => {
                let name: &str = name.as_str();
                if same_text(name, "open_rtsp_ch0") {
                    Ok(X5Command::OpenVideo { channel: 0 })
                } else if same_text(name, "open_rtsp_ch3") {
                    Ok(X5Command::OpenVideo { channel: 3 })
                } else if same_text(name, "open_rtsp_all") {
                    Ok(X5Command::OpenAllVideo { channels: all_video_channels() })
                } else if same_text(name, "close_rtsp") {
                    Ok(X5Command::CloseVideo)
                } else if same_text(name, "status") {
                    Ok(X5Command::Status)
                } else if same_text(name, "probe") {
                    Ok(X5Command::Probe)
                } else if same_text(name, "snapshot") || same_text(name, "capture_yuv") {
                    let channel: u16 = self.loose("snapshotChannel", 0xffff, 0) as u16;
                    match self.capture_mode() {
                        Ok(mode) => Ok(
                            X5Command::Capture(
                                CaptureRequest {
                                    target: CaptureTarget::Yuv { channel },
                                    mode,
                                    source_identity: None,
                                },
                            ),
                        ),
                        Err(error) => Err(error),
                    }
                } else if same_text(name, "capture_raw") {
                    let camera: u16 = self.loose("rawCamera", 0xffff, 0) as u16;
                    Ok(
                        X5Command::Capture(
                            CaptureRequest {
                                target: CaptureTarget::Raw { camera },
                                mode: CaptureMode::Latest,
                                source_identity: None,
                            },
                        ),
                    )
                } else {
                    Err(NodeError::unsupported(&action))
                }
            },
            _ => Err(NodeError::unsupported(&action)),
        }
    }

    /// Where a status or probe request goes.
    pub fn query_endpoint(&self, rt: &NodeRuntime) -> (r: Result<X5Endpoint, NodeError>)
        ensures
            if !rt@.services.x5 {
                failed(r, service_missing("x5_client"@))
            } else {
                match device_host(self.spec.config@) {
                    Ok(host) => r is Ok && r->Ok_0.host@ == host && r->Ok_0.port == device_port(
                        self.spec.config@,
                    ),
                    Err(error) => failed(r, error),
                }
            },
    {
        match require_service(rt.services.x5, "x5_client") {
            Ok(()) => {},
            Err(error) => {
                return Err(error);
            },
        }
        match self.host() {
            Ok(host) => Ok(
                X5Endpoint { host, port: self.loose("tcpPort", 0xffff, 9073) as u16 },
            ),
            Err(error) => Err(error),
        }
    }

    /// Publishes the answer to a status request.
    pub fn status_ready(&self, reply: Result<JsonValue, String>, rt: &mut NodeRuntime) -> (r:
        Result<(), NodeError>)
        ensures
            match reply {
                Err(text) => failed(r, NodeErrorView::Execution(text@)) && final(rt)@ == old(rt)@,
                Ok(status) => if old(rt)@.accepts("status"@) {
                    r is Ok && final(rt)@ == old(rt)@.emitted(
                        "status"@,
                        PacketView::Json(status@),
                    ).reported(NodeRuntimeState::Idle, "x5_233 status ready"@)
                } else {
                    failed(r, channel_full()) && final(rt)@ == old(rt)@
                },
            },
    {
        match reply {
            Err(text) => Err(NodeError::Execution(text)),
            Ok(status) => {
                match rt.emit("status", DataPacket::Json(Arc::new(status))) {
                    Ok(()) => {},
                    Err(error) => {
                        return Err(error);
                    },
                }
                rt.report_state(NodeRuntimeState::Idle, "x5_233 status ready");
                Ok(())
            },
        }
    }

    /// Publishes the answer to a probe.
    pub fn probe_ready(&self, reply: Result<JsonValue, String>, rt: &mut NodeRuntime) -> (r: Result<
        (),
        NodeError,
    >)
        ensures
            match reply {
                Err(text) => failed(r, NodeErrorView::Execution(text@)) && final(rt)@ == old(rt)@,
                Ok(summary) => if old(rt)@.accepts("status"@) {
                    r is Ok && final(rt)@ == old(rt)@.emitted(
                        "status"@,
                        PacketView::Json(summary@),
                    ).noted("x5_233 probe ready"@).reported(
                        NodeRuntimeState::Idle,
                        "x5_233 probe ready"@,
                    )
                } else {
                    failed(r, channel_full()) && final(rt)@ == old(rt)@
                },
            },
    {
        match reply {
            Err(text) => Err(NodeError::Execution(text)),
            Ok(summary) => {
                match rt.emit("status", DataPacket::Json(Arc::new(summary))) {
                    Ok(()) => {},
                    Err(error) => {
                        return Err(error);
                    },
                }
                rt.report_event("x5_233 probe ready");
                rt.report_state(NodeRuntimeState::Idle, "x5_233 probe ready");
                Ok(())
            },
        }
    }

    /// Begins a capture: checks the request and says where it goes.
    pub fn capture(&self, request: &CaptureRequest, rt: &NodeRuntime) -> (r: Result<
        X5Endpoint,
        NodeError,
    >)
        ensures
            match capture_fault(self.spec.config@, request@, rt@.services) {
                Some(error) => failed(r, error),
                None => r is Ok && device_host(self.spec.config@) == Ok::<Seq<char>, NodeErrorView>(
                    r->Ok_0.host@,
                ) && r->Ok_0.port == device_port(self.spec.config@),
            },
    {
        let raw: bool = match request.target {
            CaptureTarget::Raw { .. } => true,
            _ => false,
        };
        if raw && request.mode != CaptureMode::Latest {
            return Err(
                NodeError::precondition(
                    "X5_233 RAW capture only supports mode=latest; the device exposes no RAW frame ring",
                ),
            );
        }
        let host: String = match self.host() {
            Ok(host) => host,
            Err(error) => {
                return Err(error);
            },
        };
        match require_service(rt.services.x5, "x5_client") {
            Ok(()) => Ok(X5Endpoint { host, port: self.loose("tcpPort", 0xffff, 9073) as u16 }),
            Err(error) => Err(error),
        }
    }

    /// Finishes a capture, for whatever the device answered: the answer must be for the requested
    /// target and make a whole image, which goes out on the port of its channel or camera.
    pub fn captured(
        &self,
        request: &CaptureRequest,
        reply: Result<X5233CapturePayload, String>,
        host_time_ns: u64,
        rt: &mut NodeRuntime,
    ) -> (r: Result<(), NodeError>)
        ensures
            match reply {
                Err(text) => failed(r, NodeErrorView::Execution(text@)) && final(rt)@ == old(rt)@,
                Ok(payload) => match captured_frame(request.target, payload, host_time_ns) {
                    Err(error) => failed(r, error) && final(rt)@ == old(rt)@,
                    Ok(captured) => if old(rt)@.accepts(captured.port) {
                        r is Ok && final(rt)@ == published(old(rt)@, captured)
                    } else {
                        failed(r, channel_full()) && final(rt)@ == old(rt)@
                    },
                },
            },
    {
        let assembled: Result<(&'static str, ImageFrame), NodeError> = match reply {
            Err(text) => {
                return Err(NodeError::Execution(text));
            },
            Ok(
                X5233CapturePayload::Nv12 {
                    channel,
                    width,
                    height,
                    y_len,
                    uv_len,
                    frame_id,
                    timestamp_ns,
                    payload,
                },
            ) => {
                let identity: ImageFrameIdentity = x5233_identity(
                    channel,
                    None,
                    frame_id,
                    timestamp_ns,
                    host_time_ns,
                );
                assemble_nv12(
                    request.target,
                    channel,
                    width,
                    height,
                    y_len,
                    uv_len,
                    payload,
                    identity,
                )
            },
            Ok(
                X5233CapturePayload::BayerRaw {
                    camera,
                    width,
                    height,
                    stride_bytes,
                    frame_id,
                    timestamp_ns,
                    payload,
                    ..
                },
            ) => {
                let identity: ImageFrameIdentity = x5233_identity(
                    camera,
                    Some(camera),
                    frame_id,
                    timestamp_ns,
                    host_time_ns,
                );
                assemble_raw(
                    request.target,
                    camera,
                    width,
                    height,
                    stride_bytes,
                    payload,
                    identity,
                )
            },
        };
        match assembled {
            Err(error) => Err(error),
            Ok((port, frame)) => {
                match rt.emit(port, DataPacket::ImageFrame(Arc::new(frame))) {
                    Ok(()) => {},
                    Err(error) => {
                        return Err(error);
                    },
                }
                rt.report_event(concat("x5_233 capture published on ", port).as_str());
                rt.report_state(NodeRuntimeState::Idle, "x5_233 capture ready");
                Ok(())
            },
        }
    }

    pub fn on_stop(&mut self, rt: &mut NodeRuntime) -> (r: Result<(), NodeError>)
        ensures
            r is Ok,
            final(self).spec == old(self).spec,
            final(self)@ == (X5Streams { ch0: None, ch3: None }),
            final(rt)@ == old(rt)@.reported(NodeRuntimeState::Idle, "x5_233 video disconnected"@),
    {
        self.disconnect_video(rt)
    }
}

/// The state that a stream event brings about.
pub open spec fn stream_reported(rt: RuntimeView, channel: u16, event: StreamEvent) -> RuntimeView {
    match event {
        StreamEvent::Failed(failure) => rt.reported(
            NodeRuntimeState::Error,
            failure_text(channel, failure),
        ),
        StreamEvent::Forced { remote_state_unknown } => rt.reported(
            NodeRuntimeState::Error,
            video_text(
                channel,
                " forced closed; remote_state_unknown="@ + truth(remote_state_unknown),
            ),
        ),
        StreamEvent::BoundaryClosed => rt.reported(
            NodeRuntimeState::Idle,
            video_text(channel, " boundary closed"@),
        ),
        StreamEvent::Cancelled => rt.reported(
            NodeRuntimeState::Idle,
            video_text(channel, " cancelled"@),
        ),
        StreamEvent::Playing => rt.reported(
            NodeRuntimeState::Running,
            video_text(channel, " streaming"@),
        ),
        StreamEvent::Other => rt,
    }
}

/// A capture is published under the timestamp and the frame number that the device gave it, and
/// only for the target that was asked for.
pub proof fn law_capture_keeps_device_identity(
    target: CaptureTarget,
    payload: X5233CapturePayload,
    host_time_ns: u64,
)
    requires
        captured_frame(target, payload, host_time_ns) is Ok,
    ensures
        ({
            let frame = captured_frame(target, payload, host_time_ns)->Ok_0.frame;
            match payload {
                X5233CapturePayload::Nv12 { channel, frame_id, timestamp_ns, .. } => target == (
                CaptureTarget::Yuv { channel }) && frame.identity.frame_sequence == frame_id
                    && frame.identity.device_timestamp_ns == Some(timestamp_ns),
                X5233CapturePayload::BayerRaw { camera, frame_id, timestamp_ns, .. } => target == (
                CaptureTarget::Raw { camera }) && frame.identity.frame_sequence == frame_id
                    && frame.identity.device_timestamp_ns == Some(timestamp_ns),
            }
        }),
{
}

/// The two planes of a capture hold the payload, every byte once and in order.
pub proof fn law_capture_keeps_every_byte(
    target: CaptureTarget,
    payload: X5233CapturePayload,
    host_time_ns: u64,
)
    requires
        captured_frame(target, payload, host_time_ns) is Ok,
    ensures
        ({
            let planes = captured_frame(target, payload, host_time_ns)->Ok_0.frame.planes;
            match payload {
                X5233CapturePayload::Nv12 { payload, .. } => planes.len() == 2 && planes[0].bytes
                    + planes[1].bytes == payload@,
                X5233CapturePayload::BayerRaw { payload, .. } => planes.len() == 1
                    && planes[0].bytes == payload@,
            }
        }),
{
    let planes = captured_frame(target, payload, host_time_ns)->Ok_0.frame.planes;
    match payload {
        X5233CapturePayload::Nv12 { payload, .. } => {
            assert(planes[0].bytes + planes[1].bytes =~= payload@);
        },
        _ => {},
    }
}

} // verus!
