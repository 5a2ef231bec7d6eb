//! Live streams as nodes see them: how a stream is opened, how it fails and what it reports.
use crate::source::StreamSessionId;
use crate::text::{concat3, decimal, decimal_text};
use vstd::prelude::*;

verus! {

/// How the packets of a stream travel.
#[derive(Clone, Copy, Debug, PartialEq, Eq, Structural)]
pub enum RtspTransport {
    Tcp,
    Udp,
}

/// What is needed to open a stream.
#[derive(Debug)]
pub struct RtspStreamPlan {
    pub url: String,
    pub channel: u16,
    pub width: u32,
    pub height: u32,
    pub transport: RtspTransport,
    pub session_id: StreamSessionId,
    pub connect_timeout_ms: u64,
    pub idle_timeout_ms: u64,
    pub output_port: String,
}

/// A plan by its values.
pub struct StreamPlanView {
    pub url: Seq<char>,
    pub channel: u16,
    pub width: u32,
    pub height: u32,
    pub transport: RtspTransport,
    pub session_id: Seq<char>,
    pub connect_timeout_ms: u64,
    pub idle_timeout_ms: u64,
    pub output_port: Seq<char>,
}

impl View for RtspStreamPlan {
    type V = StreamPlanView;

    open spec fn view(&self) -> StreamPlanView {
        StreamPlanView {
            url: self.url@,
            channel: self.channel,
            width: self.width,
            height: self.height,
            transport: self.transport,
            session_id: self.session_id.value@,
            connect_timeout_ms: self.connect_timeout_ms,
            idle_timeout_ms: self.idle_timeout_ms,
            output_port: self.output_port@,
        }
    }
}

/// How the pictures of a stream are coded.
#[derive(Clone, Copy, Debug, PartialEq, Eq, Structural)]
pub enum RtspCodec {
    H264,
}

/// What a stream gives up for what: low latency drops pictures rather than delay them.
#[derive(Clone, Copy, Debug, PartialEq, Eq, Structural)]
pub enum RtspLatencyMode {
    Low,
}

/// What is recorded of a stream: whatever the stream service records unasked.
#[derive(Clone, Copy, Debug, PartialEq, Eq, Structural)]
pub enum StreamRecordingRequest {
    ServiceDefault,
}

/// What a stream service is made for.
#[derive(Debug)]
pub struct RtspStreamConfig {
    pub url: String,
    pub channel: u16,
    pub width: u32,
    pub height: u32,
    pub codec: RtspCodec,
    pub transport: RtspTransport,
    pub latency_mode: RtspLatencyMode,
}

/// The configuration of a stream service by its values.
pub struct StreamConfigView {
    pub url: Seq<char>,
    pub channel: u16,
    pub width: u32,
    pub height: u32,
    pub codec: RtspCodec,
    pub transport: RtspTransport,
    pub latency_mode: RtspLatencyMode,
}

impl View for RtspStreamConfig {
    type V = StreamConfigView;

    open spec fn view(&self) -> StreamConfigView {
        StreamConfigView {
            url: self.url@,
            channel: self.channel,
            width: self.width,
            height: self.height,
            codec: self.codec,
            transport: self.transport,
            latency_mode: self.latency_mode,
        }
    }
}

/// What a stream service is asked to open.
#[derive(Debug)]
pub struct StreamOpenRequest {
    pub channel: u16,
    pub media: String,
    pub cseq: u32,
    pub prefer_hardware_acceleration: bool,
    pub recording: StreamRecordingRequest,
}

/// A request to open a stream by its values.
pub struct OpenRequestView {
    pub channel: u16,
    pub media: Seq<char>,
    pub cseq: u32,
    pub prefer_hardware_acceleration: bool,
    pub recording: StreamRecordingRequest,
}

impl View for StreamOpenRequest {
    type V = OpenRequestView;

    open spec fn view(&self) -> OpenRequestView {
        OpenRequestView {
            channel: self.channel,
            media: self.media@,
            cseq: self.cseq,
            prefer_hardware_acceleration: self.prefer_hardware_acceleration,
            recording: self.recording,
        }
    }
}

impl RtspStreamPlan {
    /// The stream service that the plan asks for: H.264 at low latency.
    pub fn stream_config(&self) -> (r: RtspStreamConfig)
        ensures
            r@ == (StreamConfigView {
                url: self@.url,
                channel: self@.channel,
                width: self@.width,
                height: self@.height,
                codec: RtspCodec::H264,
                transport: self@.transport,
                latency_mode: RtspLatencyMode::Low,
            }),
    {
        RtspStreamConfig {
            url: self.url.clone(),
            channel: self.channel,
            width: self.width,
            height: self.height,
            codec: RtspCodec::H264,
            transport: self.transport,
            latency_mode: RtspLatencyMode::Low,
        }
    }

    /// What that service is asked to open: the plan's channel as `rtsp`, by the first request of a
    /// sequence, decoded in software and recorded as the service does by default.
    pub fn open_request(&self) -> (r: StreamOpenRequest)
        ensures
            r@ == (OpenRequestView {
                channel: self@.channel,
                media: "rtsp"@,
                cseq: 1,
                prefer_hardware_acceleration: false,
                recording: StreamRecordingRequest::ServiceDefault,
            }),
    {
        StreamOpenRequest {
            channel: self.channel,
            media: "rtsp".to_owned(),
            cseq: 1,
            prefer_hardware_acceleration: false,
            recording: StreamRecordingRequest::ServiceDefault,
        }
    }
}

/// What made a stream fail.
#[derive(Clone, Copy, Debug, PartialEq, Eq, Structural)]
pub enum StreamFailureCause {
    ConnectTimeout { timeout_ms: u64 },
    IdleTimeout { timeout_ms: u64 },
    Other,
}

/// A failure of a stream, with the service's own words.
#[derive(Debug)]
pub struct StreamFailure {
    pub cause: StreamFailureCause,
    pub text: String,
}

/// What a stream service reports.
#[derive(Debug)]
pub enum StreamEvent {
    Failed(StreamFailure),
    Forced { remote_state_unknown: bool },
    BoundaryClosed,
    Cancelled,
    Playing,
    Other,
}

impl StreamEvent {
    /// Whether the stream is over.
    pub open spec fn terminal(self) -> bool {
        match self {
            StreamEvent::Playing => false,
            StreamEvent::Other => false,
            _ => true,
        }
    }

    /// Whether the stream is over.
    pub fn is_terminal(&self) -> (r: bool)
        ensures
            r == self.terminal(),
    {
        match self {
            StreamEvent::Playing => false,
            StreamEvent::Other => false,
            _ => true,
        }
    }
}

/// The words around a number of milliseconds.
pub open spec fn timeout_text(before: Seq<char>, timeout_ms: u64, after: Seq<char>) -> Seq<char> {
    before + decimal(timeout_ms as nat) + after
}

pub fn describe_timeout(before: &str, timeout_ms: u64, after: &str) -> (r: String)
    ensures
        r@ == timeout_text(before@, timeout_ms, after@),
{
    concat3(before, decimal_text(timeout_ms).as_str(), after)
}

/// The word for a boolean.
pub open spec fn truth(b: bool) -> Seq<char> {
    if b {
        "true"@
    } else {
        "false"@
    }
}

pub fn truth_text(b: bool) -> (r: &'static str)
    ensures
        r@ == truth(b),
{
    if b {
        "true"
    } else {
        "false"
    }
}

} // verus!
