//! Laws of the X5_233 driver: which port, which address and which image a channel or camera has.
use crate::engine::node::{NodeAction, NodeErrorView};
use crate::engine::nodes::x5233::{
    capture_fault, captured_frame, closed_channel, device_host, device_port, live, loose_or,
    published, row_stride, snapshot_mode, stream_reported, video_plan, video_port, video_url,
    x5_command, CapturedView, X5233CapturePayload, X5233VideoStream, X5CommandView, X5Streams,
};
use crate::engine::nodes::config::timeout_or;
use crate::engine::nodes::stream::{RtspTransport, StreamEvent};
use crate::engine::packet::{
    BayerPattern, CaptureMode, CaptureRequestView, CaptureTarget, ImageFrameFormat, PacketView,
    ProvenanceView,
};
use crate::engine::runtime::{EffectView, EngineServices, RuntimeView};
use crate::engine::spec::{NodeRuntimeState, NodeView};
use crate::json::JsonTree;
use crate::text::{blank, decimal, parsed_u64, trimmed};
use vstd::prelude::*;

verus! {

/// A capture goes out on the port that bears the number of its own channel or camera: images of
/// channel 0 and 3 on `yuvCh0` and `yuvCh3`, raw images of camera 0 and 1 on `rawCam0` and `rawCam1`.
/// There is no image of any other, and none for another target than the one that was asked for.
pub proof fn law_capture_goes_to_the_port_of_its_number(
    target: CaptureTarget,
    payload: X5233CapturePayload,
    host_time_ns: u64,
)
    ensures
        match captured_frame(target, payload, host_time_ns) {
            Err(_) => true,
            Ok(captured) => match payload {
                X5233CapturePayload::Nv12 { channel, .. } => {
                    &&& captured.port == "yuvCh"@ + decimal(channel as nat)
                    &&& channel == 0 || channel == 3
                    &&& target == (CaptureTarget::Yuv { channel })
                },
                X5233CapturePayload::BayerRaw { camera, .. } => {
                    &&& captured.port == "rawCam"@ + decimal(camera as nat)
                    &&& camera == 0 || camera == 1
                    &&& target == (CaptureTarget::Raw { camera })
                },
            },
        },
{
    reveal_strlit("yuvCh");
    reveal_strlit("yuvCh0");
    reveal_strlit("yuvCh3");
    reveal_strlit("rawCam");
    reveal_strlit("rawCam0");
    reveal_strlit("rawCam1");
    assert("yuvCh0"@ =~= "yuvCh"@ + decimal(0));
    assert("yuvCh3"@ =~= "yuvCh"@ + decimal(3));
    assert("rawCam0"@ =~= "rawCam"@ + decimal(0));
    assert("rawCam1"@ =~= "rawCam"@ + decimal(1));
}

/// A captured image has the size, the format and the planes that the device sent: luma first, its
/// rows a whole number of bytes, chroma behind it with half as many rows. It bears the channel, the
/// camera, the frame number and the timestamp of the device.
pub proof fn law_captured_image_is_the_one_sent(
    target: CaptureTarget,
    payload: X5233CapturePayload,
    host_time_ns: u64,
)
    requires
        captured_frame(target, payload, host_time_ns) is Ok,
    ensures
        ({
            let frame = captured_frame(target, payload, host_time_ns)->Ok_0.frame;
            &&& frame.identity.host_monotonic_time_ns == host_time_ns
            &&& match payload {
                X5233CapturePayload::Nv12 {
                    channel,
                    width,
                    height,
                    y_len,
                    uv_len,
                    frame_id,
                    timestamp_ns,
                    payload,
                } => {
                    &&& frame.width == width && frame.height == height && width > 0 && height > 1
                    &&& frame.format == ImageFrameFormat::Nv12 && frame.raw is None
                    &&& frame.planes.len() == 2
                    &&& payload@.len() == y_len + uv_len
                    &&& frame.planes[0].bytes == payload@.take(y_len as int)
                    &&& frame.planes[1].bytes == payload@.skip(y_len as int)
                    &&& frame.planes[0].stride_bytes * height == y_len
                    &&& frame.planes[1].stride_bytes * (height / 2) == uv_len
                    &&& frame.identity.frame_sequence == frame_id
                    &&& frame.identity.device_timestamp_ns == Some(timestamp_ns)
                    &&& frame.identity.provenance matches ProvenanceView::Device {
                        driver,
                        channel: c,
                        camera,
                        timestamp_ns: t,
                    } && driver == "x5_233"@ && c == channel && camera is None && t == timestamp_ns
                },
                X5233CapturePayload::BayerRaw {
                    camera,
                    width,
                    height,
                    stride_bytes,
                    frame_id,
                    timestamp_ns,
                    payload,
                    ..
                } => {
                    &&& frame.width == width && frame.height == height && width > 0 && height > 0
                    &&& frame.format == ImageFrameFormat::BayerRaw && frame.raw is Some
                    &&& frame.raw->Some_0.bits_per_sample == 12
                    &&& frame.planes.len() == 1
                    &&& frame.planes[0].bytes == payload@
                    &&& frame.planes[0].stride_bytes == stride_bytes
                    &&& stride_bytes * height <= payload@.len()
                    &&& frame.identity.frame_sequence == frame_id
                    &&& frame.identity.device_timestamp_ns == Some(timestamp_ns)
                    &&& frame.identity.provenance matches ProvenanceView::Device {
                        driver,
                        channel: c,
                        camera: Some(k),
                        timestamp_ns: t,
                    } && driver == "x5_233"@ && c == camera && k == camera && t == timestamp_ns
                },
            }
        }),
{
    match payload {
        X5233CapturePayload::Nv12 { height, y_len, uv_len, payload, .. } => {
            lemma_stride(y_len as nat, height, "Y"@);
            lemma_stride(uv_len as nat, height / 2, "UV"@);
            assert(payload@.subrange(0, y_len as int) =~= payload@.take(y_len as int));
            assert(payload@.subrange(y_len as int, payload@.len() as int) =~= payload@.skip(
                y_len as int,
            ));
        },
        _ => {},
    }
}

proof fn lemma_stride(length: nat, rows: u32, plane: Seq<char>)
    ensures
        row_stride(length, rows, plane) is Ok ==> rows > 0 && row_stride(length, rows, plane)->Ok_0
            * rows == length,
{
    if row_stride(length, rows, plane) is Ok {
        vstd::arithmetic::div_mod::lemma_fundamental_div_mod(length as int, rows as int);
        let q = length as int / rows as int;
        assert(rows as int * q == q * rows as int) by (nonlinear_arith);
    }
}

/// A published capture is one packet on its port, then the word of it and the state.
pub proof fn law_published_capture_is_one_packet(rt: RuntimeView, captured: CapturedView)
    ensures
        ({
            let after = published(rt, captured);
            let n = rt.log.len() as int;
            &&& after.log.len() == n + 3
            &&& after.log.take(n) == rt.log
            &&& after.log[n] == (EffectView::Emit {
                port: captured.port,
                packet: PacketView::ImageFrame(captured.frame),
            })
            &&& after.log[n + 2] matches EffectView::State { state, .. } && state
                == NodeRuntimeState::Idle
        }),
{
    let after = published(rt, captured);
    assert(after.log.take(rt.log.len() as int) =~= rt.log);
}

/// Video goes out on the port that bears the number of its channel, and only channels 0 and 3 have
/// one. Each channel streams from its own address, unless one address is configured for all.
pub proof fn law_video_port_bears_the_number_of_its_channel(
    node: NodeView,
    channel: u16,
    services: EngineServices,
)
    ensures
        video_port(channel) is Ok <==> channel == 0 || channel == 3,
        video_port(channel) is Ok ==> video_port(channel)->Ok_0 == "videoCh"@ + decimal(
            channel as nat,
        ),
        (channel == 0 || channel == 3) && video_plan(node, channel, services) is Ok ==> {
            let plan = video_plan(node, channel, services)->Ok_0;
            &&& services.stream_factory
            &&& plan.channel == channel
            &&& plan.output_port == "videoCh"@ + decimal(channel as nat)
            &&& plan.session_id == "x5-"@ + node.id + "-ch"@ + decimal(channel as nat)
            &&& 1 <= plan.connect_timeout_ms <= 120_000
            &&& 1 <= plan.idle_timeout_ms <= 120_000
            &&& match node.config.member("rtspUrl"@) {
                Some(JsonTree::Text(url)) if !blank(url) => plan.url == url,
                _ => node.config.member("host"@) matches Some(JsonTree::Text(host)) && !blank(host)
                    && plan.url == "rtsp://"@ + host + (if channel == 0 {
                    ":554/PRR"@
                } else {
                    ":557/PRR"@
                }),
            }
        },
        node.config.member("rtspUrl"@) is None ==> video_url(node.config, 0) is Err || video_url(
            node.config,
            0,
        ) != video_url(node.config, 3),
{
    reveal_strlit("videoCh");
    reveal_strlit("videoCh0");
    reveal_strlit("videoCh3");
    reveal_strlit("");
    reveal_strlit(":554/PRR");
    reveal_strlit(":557/PRR");
    reveal_strlit("rtsp://");
    assert("videoCh0"@ =~= "videoCh"@ + decimal(0));
    assert("videoCh3"@ =~= "videoCh"@ + decimal(3));
    assert(crate::text::blank(""@));
    if node.config.member("rtspUrl"@) is None && video_url(node.config, 0) is Ok {
        let a = video_url(node.config, 0)->Ok_0;
        let b = video_url(node.config, 3)->Ok_0;
        let host = device_host(node.config)->Ok_0;
        let k = "rtsp://"@.len() + host.len() + 3;
        assert(a[k as int] == '4');
        assert(b[k as int] == '7');
    }
}

/// The streams of the two channels are kept apart.
pub proof fn law_channels_are_kept_apart(
    streams: X5Streams,
    stream: Option<X5233VideoStream>,
)
    ensures
        streams.with(0, stream).channel(0) == stream,
        streams.with(0, stream).channel(3) == streams.channel(3),
        streams.with(3, stream).channel(3) == stream,
        streams.with(3, stream).channel(0) == streams.channel(0),
        streams.active() <==> (streams.ch0 matches Some(s) && !s.cancelled) || (
        streams.ch3 matches Some(s) && !s.cancelled),
        live(stream) <==> (stream matches Some(s) && !s.cancelled),
        streams.channel(0) == streams.ch0 && streams.channel(3) == streams.ch3,
{
}

/// Closing one channel while the other streams leaves the node running; closing the last one leaves
/// it idle, and closing a channel that is closed says nothing.
pub proof fn law_closing_reports_what_still_streams(
    rt: RuntimeView,
    streams: X5Streams,
    channel: u16,
)
    requires
        channel == 0 || channel == 3,
    ensures
        ({
            let after = closed_channel(rt, streams, channel);
            let other = if channel == 0 {
                streams.ch3
            } else {
                streams.ch0
            };
            let own = if channel == 0 {
                streams.ch0
            } else {
                streams.ch3
            };
            &&& own is None ==> after == rt
            &&& own is Some ==> after.log.len() == rt.log.len() + 1
            &&& own is Some && (other matches Some(s) && !s.cancelled) ==> (
            after.log.last() matches EffectView::State { state, .. } && state
                == NodeRuntimeState::Running)
            &&& own is Some && !(other matches Some(s) && !s.cancelled) ==> (
            after.log.last() matches EffectView::State { state, .. } && state
                == NodeRuntimeState::Idle)
        }),
{
}

/// A stream that failed or was forced closed is an error, one that ended is idle, one that plays is
/// running.
pub proof fn law_stream_events_set_the_state(rt: RuntimeView, channel: u16, event: StreamEvent)
    ensures
        ({
            let after = stream_reported(rt, channel, event);
            &&& event is Failed || event is Forced ==> (
            after.log.last() matches EffectView::State { state, .. } && state
                == NodeRuntimeState::Error)
            &&& event is BoundaryClosed || event is Cancelled ==> (
            after.log.last() matches EffectView::State { state, .. } && state
                == NodeRuntimeState::Idle)
            &&& event is Playing ==> (after.log.last() matches EffectView::State { state, .. }
                && state == NodeRuntimeState::Running)
            &&& event is Other ==> after == rt
            &&& event.terminal() <==> event is Failed || event is Forced || event is BoundaryClosed
                || event is Cancelled
        }),
{
}

/// A capture can be asked for exactly where the device has an address, the client is there, and a
/// raw image is asked for at no other moment than the latest.
pub proof fn law_capture_needs_device_and_client(
    config: JsonTree,
    request: CaptureRequestView,
    services: EngineServices,
)
    ensures
        capture_fault(config, request, services) is None <==> {
            &&& config.member("host"@) matches Some(JsonTree::Text(host)) && !blank(host)
            &&& services.x5
            &&& request.target is Raw ==> request.mode == CaptureMode::Latest
        },
        config.member("host"@) matches Some(JsonTree::Text(host)) && !blank(host) ==> device_host(
            config,
        ) == Ok::<Seq<char>, NodeErrorView>(config.member("host"@)->Some_0->Text_0),
        (config.member("tcpPort"@) matches Some(JsonTree::Uint(n)) && n <= 0xffff) ==> device_port(
            config,
        ) == config.member("tcpPort"@)->Some_0->Uint_0,
        config.member("tcpPort"@) is None ==> device_port(config) == 9073,
{
}

/// The moment of a capture is the one that is configured: the latest frame where nothing is said, or
/// the frame number or timestamp that is named.
pub proof fn law_snapshot_mode_is_the_configured_one(config: JsonTree)
    ensures
        config.member("snapshotMode"@) is None ==> snapshot_mode(config) == Ok::<
            CaptureMode,
            NodeErrorView,
        >(CaptureMode::Latest),
        config.member("snapshotMode"@) == Some(JsonTree::Text("latest"@)) ==> snapshot_mode(config)
            == Ok::<CaptureMode, NodeErrorView>(CaptureMode::Latest),
        config.member("snapshotMode"@) == Some(JsonTree::Text("frame_id"@)) && (config.member(
            "snapshotFrameId"@,
        ) matches Some(JsonTree::Uint(n))) ==> snapshot_mode(config) == Ok::<
            CaptureMode,
            NodeErrorView,
        >(CaptureMode::FrameId(config.member("snapshotFrameId"@)->Some_0->Uint_0)),
        config.member("snapshotMode"@) == Some(JsonTree::Text("timestamp_ns"@)) && (config.member(
            "snapshotTimestampNs"@,
        ) matches Some(JsonTree::Uint(n))) ==> snapshot_mode(config) == Ok::<
            CaptureMode,
            NodeErrorView,
        >(CaptureMode::TimestampNs(config.member("snapshotTimestampNs"@)->Some_0->Uint_0)),
        config.member("snapshotMode"@) == Some(JsonTree::Text("frame_id"@)) && config.member(
            "snapshotFrameId"@,
        ) is None ==> snapshot_mode(config) is Err,
        config.member("snapshotMode"@) == Some(JsonTree::Text("timestamp_ns"@)) && config.member(
            "snapshotTimestampNs"@,
        ) is None ==> snapshot_mode(config) is Err,
        (config.member("snapshotMode"@) matches Some(JsonTree::Text(mode)) && mode != ""@ && mode
            != "latest"@ && mode != "frame_id"@ && mode != "timestamp_ns"@) ==> snapshot_mode(
            config,
        ) is Err,
{
    reveal_strlit("");
    reveal_strlit("latest");
    reveal_strlit("frame_id");
    reveal_strlit("timestamp_ns");
    assert("latest"@.len() == 6 && "frame_id"@.len() == 8 && "timestamp_ns"@.len() == 12
        && ""@.len() == 0);
}

/// The actions of the driver: what a user asks for is the command they get.
pub proof fn law_actions_ask_for_what_they_say(config: JsonTree, action: NodeAction)
    ensures
        action is Disconnect ==> x5_command(config, action) == Ok::<X5CommandView, NodeErrorView>(
            X5CommandView::CloseVideo,
        ),
        action is Trigger ==> x5_command(config, action) == Ok::<X5CommandView, NodeErrorView>(
            X5CommandView::Status,
        ),
        action is Connect && config.member("rtspChannel"@) is None ==> x5_command(config, action)
            == Ok::<X5CommandView, NodeErrorView>(X5CommandView::OpenVideo { channel: 0 }),
        action is Connect && (config.member("rtspChannel"@) matches Some(JsonTree::Uint(n)) && n
            <= 0xffff) ==> x5_command(config, action) == Ok::<X5CommandView, NodeErrorView>(
            X5CommandView::OpenVideo {
                channel: config.member("rtspChannel"@)->Some_0->Uint_0 as u16,
            },
        ),
        action.custom() == Some("capture_raw"@) && x5_command(config, action) is Ok ==> {
            &&& x5_command(config, action)->Ok_0 matches X5CommandView::Capture(request)
            &&& request.target is Raw && request.mode == CaptureMode::Latest
        },
        action.custom() == Some("capture_raw"@) ==> x5_command(config, action) is Ok,
        action.custom() == Some("capture_yuv"@) && x5_command(config, action) is Ok ==> {
            &&& x5_command(config, action)->Ok_0 matches X5CommandView::Capture(request)
            &&& request.target is Yuv
            &&& snapshot_mode(config) == Ok::<CaptureMode, NodeErrorView>(request.mode)
        },
{
    reveal_strlit("open_rtsp_ch0");
    reveal_strlit("open_rtsp_ch3");
    reveal_strlit("open_rtsp_all");
    reveal_strlit("close_rtsp");
    reveal_strlit("status");
    reveal_strlit("probe");
    reveal_strlit("snapshot");
    reveal_strlit("capture_yuv");
    reveal_strlit("capture_raw");
    assert("capture_raw"@.len() == 11 && "capture_yuv"@.len() == 11 && "open_rtsp_ch0"@.len() == 13
        && "open_rtsp_ch3"@.len() == 13 && "open_rtsp_all"@.len() == 13 && "close_rtsp"@.len() == 10
        && "status"@.len() == 6 && "probe"@.len() == 5 && "snapshot"@.len() == 8);
    assert("capture_raw"@[8] == 'r' && "capture_yuv"@[8] == 'y');
}

/// A capture is taken exactly where it is of the channel or camera that was asked for and that there
/// is, has an extent, and its bytes are whole rows of it.
pub proof fn law_whole_captures_are_taken(
    target: CaptureTarget,
    payload: X5233CapturePayload,
    host_time_ns: u64,
)
    ensures
        captured_frame(target, payload, host_time_ns) is Ok <==> match payload {
            X5233CapturePayload::Nv12 { channel, width, height, y_len, uv_len, payload, .. } => {
                &&& target == (CaptureTarget::Yuv { channel }) && (channel == 0 || channel == 3)
                &&& width > 0 && height >= 2
                &&& y_len as int % height as int == 0 && y_len as int / height as int <= u32::MAX
                &&& uv_len as int % (height / 2) as int == 0 && uv_len as int / (height / 2) as int
                    <= u32::MAX
                &&& payload@.len() == y_len + uv_len
                &&& payload@.len() <= usize::MAX
            },
            X5233CapturePayload::BayerRaw { camera, width, height, stride_bytes, payload, .. } => {
                &&& target == (CaptureTarget::Raw { camera }) && (camera == 0 || camera == 1)
                &&& width > 0 && height > 0
                &&& stride_bytes * height <= payload@.len()
            },
        },
        captured_frame(target, payload, host_time_ns) matches Ok(captured) ==> captured.frame.raw
            matches Some(raw) ==> raw.bayer_pattern == BayerPattern::Rggb && raw.black_level is None
            && raw.white_level is None,
{
    match payload {
        X5233CapturePayload::Nv12 { height, y_len, uv_len, payload, .. } => {
            if height >= 2 {
                lemma_stride(y_len as nat, height, "Y"@);
                lemma_stride(uv_len as nat, height / 2, "UV"@);
            }
        },
        _ => {},
    }
}

/// A number of the driver is written as one or as a numeral with white space around it; one that is
/// missing or too large gives way to the fallback.
pub proof fn law_driver_numbers_are_numbers_or_numerals(
    config: JsonTree,
    key: Seq<char>,
    most: u64,
    fallback: u64,
)
    ensures
        config.member(key) is None ==> loose_or(config, key, most, fallback) == fallback,
        config.member(key) matches Some(JsonTree::Uint(n)) ==> loose_or(config, key, most, fallback)
            == (if n <= most {
            n
        } else {
            fallback
        }),
        config.member(key) matches Some(JsonTree::Text(s)) ==> loose_or(config, key, most, fallback)
            == (match parsed_u64(trimmed(s)) {
            Some(n) => if n <= most {
                n
            } else {
                fallback
            },
            None => fallback,
        }),
{
}

/// A video channel is opened exactly where the service and an address are there and both timeouts are
/// in range; over a connection, in the size that is set, within those timeouts.
pub proof fn law_video_is_opened_as_set(node: NodeView, channel: u16, services: EngineServices)
    ensures
        video_plan(node, channel, services) is Ok <==> {
            &&& services.stream_factory
            &&& (node.config.member("rtspUrl"@) matches Some(JsonTree::Text(url)) && !blank(url)) || (
            node.config.member("host"@) matches Some(JsonTree::Text(host)) && !blank(host))
            &&& timeout_or(node.config, "rtspConnectTimeoutMs"@, 8_000, "x5233Driver "@) is Ok
            &&& timeout_or(node.config, "rtspIdleTimeoutMs"@, 10_000, "x5233Driver "@) is Ok
        },
        video_plan(node, channel, services) matches Ok(plan) ==> {
            &&& plan.width == loose_or(node.config, "rtspWidth"@, 0xffff_ffff, 1920)
            &&& plan.height == loose_or(node.config, "rtspHeight"@, 0xffff_ffff, 1080)
            &&& plan.transport == RtspTransport::Tcp
            &&& timeout_or(node.config, "rtspConnectTimeoutMs"@, 8_000, "x5233Driver "@) == Ok::<
                u64,
                NodeErrorView,
            >(plan.connect_timeout_ms)
            &&& timeout_or(node.config, "rtspIdleTimeoutMs"@, 10_000, "x5233Driver "@) == Ok::<
                u64,
                NodeErrorView,
            >(plan.idle_timeout_ms)
        },
{
    reveal_strlit("");
    assert(crate::text::trimmed_start(""@) == ""@);
    assert(crate::text::trimmed_end(""@) == ""@);
    assert(blank(""@));
}

/// Each action of the driver has its own command: a channel is opened by its number, both by the one
/// for all; a snapshot is of the channel, a raw capture of the camera that is set.
pub proof fn law_driver_actions_have_their_command(config: JsonTree, action: NodeAction)
    ensures
        action.custom() == Some("open_rtsp_ch0"@) ==> x5_command(config, action) == Ok::<
            X5CommandView,
            NodeErrorView,
        >(X5CommandView::OpenVideo { channel: 0 }),
        action.custom() == Some("open_rtsp_ch3"@) ==> x5_command(config, action) == Ok::<
            X5CommandView,
            NodeErrorView,
        >(X5CommandView::OpenVideo { channel: 3 }),
        action.custom() == Some("open_rtsp_all"@) ==> (x5_command(config, action) matches Ok(
            X5CommandView::OpenAllVideo { channels },
        ) && channels.len() == 2 && channels[0] == 0 && channels[1] == 3),
        action.custom() == Some("close_rtsp"@) ==> x5_command(config, action) == Ok::<
            X5CommandView,
            NodeErrorView,
        >(X5CommandView::CloseVideo),
        action.custom() == Some("status"@) ==> x5_command(config, action) == Ok::<
            X5CommandView,
            NodeErrorView,
        >(X5CommandView::Status),
        action.custom() == Some("probe"@) ==> x5_command(config, action) == Ok::<
            X5CommandView,
            NodeErrorView,
        >(X5CommandView::Probe),
        action.custom() == Some("snapshot"@) || action.custom() == Some("capture_yuv"@) ==> (
        x5_command(config, action) is Ok <==> snapshot_mode(config) is Ok) && (x5_command(
            config,
            action,
        ) matches Ok(command) ==> (command matches X5CommandView::Capture(request)
            && request.target == (CaptureTarget::Yuv {
            channel: loose_or(config, "snapshotChannel"@, 0xffff, 0) as u16,
        }) && request.source_identity is None)),
        action.custom() == Some("capture_raw"@) ==> (x5_command(config, action) matches Ok(
            X5CommandView::Capture(request),
        ) && request.target == (CaptureTarget::Raw {
            camera: loose_or(config, "rawCamera"@, 0xffff, 0) as u16,
        }) && request.source_identity is None),
{
    reveal_strlit("open_rtsp_ch0");
    reveal_strlit("open_rtsp_ch3");
    reveal_strlit("open_rtsp_all");
    reveal_strlit("close_rtsp");
    reveal_strlit("status");
    reveal_strlit("probe");
    reveal_strlit("snapshot");
    reveal_strlit("capture_yuv");
    reveal_strlit("capture_raw");
    assert("open_rtsp_ch0"@[12] == '0' && "open_rtsp_ch3"@[12] == '3' && "open_rtsp_all"@[12]
        == 'l');
    assert("open_rtsp_ch0"@.len() == 13 && "open_rtsp_ch3"@.len() == 13 && "open_rtsp_all"@.len()
        == 13 && "close_rtsp"@.len() == 10 && "status"@.len() == 6 && "probe"@.len() == 5
        && "snapshot"@.len() == 8 && "capture_yuv"@.len() == 11 && "capture_raw"@.len() == 11);
    assert("capture_yuv"@[8] == 'y' && "capture_raw"@[8] == 'r');
}

} // verus!
