use camera_toolbox_app::engine::node::{NodeAction, NodeError};
use camera_toolbox_app::engine::nodes::auto_capture::AutoCaptureFactory;
use camera_toolbox_app::engine::nodes::builtin::register_builtin;
use camera_toolbox_app::engine::nodes::capture_logic::{
    CalibrationFrameScorerFactory, CaptureRequestBuilderFactory, ConsecutiveHoldGateFactory,
    ScoreThresholdGateFactory,
};
use camera_toolbox_app::engine::nodes::local_source::{
    LocalFileSourceFactory, LocalFileSourceNode,
};
use camera_toolbox_app::engine::nodes::raster::{extension, RasterFormat, RgbaImage};
use camera_toolbox_app::engine::nodes::rtsp_source::{RtspSourceFactory, RtspSourceNode};
use camera_toolbox_app::engine::nodes::skeleton::{
    EepromProvisionFactory, I2cTransferFactory, SftpFileSourceFactory, SshSessionFactory,
    X5DeviceFactory,
};
use camera_toolbox_app::engine::nodes::stream::{
    RtspCodec, RtspLatencyMode, RtspTransport, StreamEvent, StreamFailure, StreamFailureCause,
    StreamRecordingRequest,
};
use camera_toolbox_app::engine::packet::{
    CalibrationFrameScore, CaptureMode, CaptureRequest, CaptureSignal, CaptureTarget,
    CaptureTrigger, DataPacket, DecodedVideoFrame, DetectionPacket, FrameProvenance, ImageFrame,
    ImageFrameFormat, ImageFrameIdentity,
};
use camera_toolbox_app::engine::registry::NodeRegistry;
use camera_toolbox_app::engine::runtime::{EngineServices, EventPart, NodeRuntime, RuntimeEffect};
use camera_toolbox_app::engine::spec::{NodeRuntimeState, NodeSpec, PortCardinality, PortSpec};
use camera_toolbox_app::ieee::{Real32, Real64};
use camera_toolbox_app::json::{JsonMember, JsonValue};
use camera_toolbox_app::model::{CalibrationImageSize, CalibrationPoint, ChessboardDetection};
use camera_toolbox_app::source::{
    SourcePts, SourcePtsProvenance, StreamFrameIdentity, StreamSessionId,
};
use std::sync::Arc;

fn object(members: Vec<(&str, JsonValue)>) -> JsonValue {
    JsonValue::Object(
        members
            .into_iter()
            .map(|(name, value)| JsonMember::new(name, value))
            .collect(),
    )
}

fn text(value: &str) -> JsonValue {
    JsonValue::string(value)
}

fn number(x: f64) -> Real64 {
    Real64::from_bits(x.to_bits())
}

fn port(id: &str, kind: &str) -> PortSpec {
    PortSpec {
        id: id.to_owned(),
        label: id.to_owned(),
        kind: kind.to_owned(),
        cardinality: PortCardinality::One,
        required: false,
    }
}

fn node_spec(
    id: &str,
    kind: &str,
    inputs: Vec<PortSpec>,
    outputs: Vec<PortSpec>,
    config: JsonValue,
) -> NodeSpec {
    NodeSpec {
        id: id.to_owned(),
        kind: kind.to_owned(),
        title: kind.to_owned(),
        inputs,
        outputs,
        config,
    }
}

fn runtime() -> NodeRuntime {
    NodeRuntime::new(EngineServices::default())
}

fn emitted(rt: &NodeRuntime) -> Vec<(&str, &DataPacket)> {
    rt.log
        .iter()
        .filter_map(|effect| match effect {
            RuntimeEffect::Emit { port, packet } => Some((port.as_str(), packet)),
            _ => None,
        })
        .collect()
}

fn last_report(rt: &NodeRuntime) -> Option<(NodeRuntimeState, &str)> {
    rt.log.iter().rev().find_map(|effect| match effect {
        RuntimeEffect::State { state, message } => Some((*state, message.as_str())),
        _ => None,
    })
}

fn last_state(rt: &NodeRuntime) -> Option<NodeRuntimeState> {
    last_report(rt).map(|(state, _)| state)
}

fn last_event(rt: &NodeRuntime) -> Option<&str> {
    rt.log.iter().rev().find_map(|effect| match effect {
        RuntimeEffect::Event { parts } => match parts.as_slice() {
            [EventPart::Text(text)] => Some(text.as_str()),
            _ => None,
        },
        _ => None,
    })
}

fn rtsp_config(url: &str, transport: &str) -> JsonValue {
    object(vec![("url", text(url)), ("transport", text(transport))])
}

fn rtsp_spec() -> NodeSpec {
    node_spec(
        "rtsp-1",
        "rtspSource",
        vec![port("capture", "command.capture.request.v1")],
        vec![
            port("frames", "stream.video-frame"),
            port("snapshot", "image.frame"),
        ],
        rtsp_config("rtsp://127.0.0.1:554/test", "tcp"),
    )
}

fn decoded_frame(sequence: u64, device_timestamp_ns: Option<u64>, pts: i64) -> DecodedVideoFrame {
    DecodedVideoFrame {
        width: 2,
        height: 2,
        rgba: vec![3_u8; 16],
        identity: StreamFrameIdentity {
            stream_id: StreamSessionId::new("rtsp-test").expect("valid session id"),
            channel: 2,
            frame_sequence: sequence,
            source_pts: SourcePts::Known {
                ticks: pts,
                time_base_numerator: 1,
                time_base_denominator: 90_000,
                provenance: SourcePtsProvenance::FfmpegDecodedFrame,
            },
            host_monotonic_time_ns: 123,
            device_timestamp_ns,
        },
    }
}

fn capture_request(mode: CaptureMode, source_identity: Option<ImageFrameIdentity>) -> DataPacket {
    DataPacket::CaptureRequest(Arc::new(CaptureRequest {
        target: CaptureTarget::Yuv { channel: 2 },
        mode,
        source_identity,
    }))
}

fn node_with_cached_frame(frame: Option<Arc<ImageFrame>>) -> RtspSourceNode {
    let mut node = RtspSourceFactory.instantiate(rtsp_spec());
    node.latest_image = frame;
    node
}

fn cached(sequence: u64, device_timestamp_ns: Option<u64>, pts: i64) -> Arc<ImageFrame> {
    Arc::new(ImageFrame::from_video(&decoded_frame(
        sequence,
        device_timestamp_ns,
        pts,
    )))
}

#[test]
fn pump_emits_rgba_image_frame_and_keeps_snapshot_cache() {
    let mut rt = runtime();
    let mut node = node_with_cached_frame(None);
    node.connected(Ok(()), false, &mut rt).expect("opened");
    node.frame_decoded(&decoded_frame(7, Some(8_000), 9_000), &mut rt);
    let packets = emitted(&rt);
    let ("frames", DataPacket::ImageFrame(image)) = packets[0] else {
        panic!("RTSP frames output must be ImageFrame, got {:?}", packets[0]);
    };
    assert_eq!(image.format, ImageFrameFormat::Rgba8);
    assert_eq!(image.identity.frame_sequence, 7);
    assert!(Arc::ptr_eq(
        node.latest_image.as_ref().expect("cached frame"),
        image
    ));
}

#[test]
fn capture_latest_emits_cached_rgba_with_identity() {
    let frame = cached(7, Some(8_000), 9_000);
    let identity = frame.identity.clone();
    let mut node = node_with_cached_frame(Some(Arc::clone(&frame)));
    let mut rt = runtime();
    node.on_input(
        "capture",
        capture_request(CaptureMode::Latest, Some(identity.clone())),
        &mut rt,
    )
    .expect("latest capture");
    let packets = emitted(&rt);
    let ("snapshot", DataPacket::ImageFrame(snapshot)) = packets[0] else {
        panic!("snapshot output must be ImageFrame");
    };
    assert_eq!(snapshot.format, ImageFrameFormat::Rgba8);
    assert!(snapshot.identity.eq_value(&identity));
    assert!(Arc::ptr_eq(snapshot, &frame));
}

#[test]
fn capture_exact_modes_emit_only_matching_cached_metadata() {
    let frame = cached(7, Some(8_000), 9_000);
    let mut node = node_with_cached_frame(Some(frame));
    let mut rt = runtime();
    for mode in [CaptureMode::FrameId(7), CaptureMode::TimestampNs(8_000)] {
        node.on_input("capture", capture_request(mode, None), &mut rt)
            .expect("cached metadata matches capture request");
    }
    assert_eq!(emitted(&rt).len(), 2);
}

#[test]
fn capture_without_frame_or_exact_cache_match_is_precondition_error() {
    let mut rt = runtime();
    let mut empty = node_with_cached_frame(None);
    let error = empty
        .on_input("capture", capture_request(CaptureMode::Latest, None), &mut rt)
        .expect_err("missing decoded frame");
    assert!(matches!(error, NodeError::Precondition(_)));

    let frame = cached(7, Some(8_000), 9_000);
    for mode in [CaptureMode::FrameId(8), CaptureMode::TimestampNs(8_001)] {
        let mut node = node_with_cached_frame(Some(Arc::clone(&frame)));
        let error = node
            .on_input("capture", capture_request(mode, None), &mut rt)
            .expect_err("exact cache miss");
        assert!(matches!(error, NodeError::Precondition(_)), "got {error:?}");
    }

    let mut node = node_with_cached_frame(Some(cached(7, None, 9_000)));
    let error = node
        .on_input(
            "capture",
            capture_request(CaptureMode::TimestampNs(8_000), None),
            &mut rt,
        )
        .expect_err("device timestamp metadata is required");
    assert!(matches!(error, NodeError::Precondition(_)));
    let mut node = node_with_cached_frame(Some(Arc::clone(&frame)));
    let raw_request = DataPacket::CaptureRequest(Arc::new(CaptureRequest {
        target: CaptureTarget::Raw { camera: 0 },
        mode: CaptureMode::Latest,
        source_identity: None,
    }));
    let error = node
        .on_input("capture", raw_request, &mut rt)
        .expect_err("RTSP cannot satisfy a RAW capture request");
    assert!(matches!(error, NodeError::Precondition(_)));
    assert!(emitted(&rt).is_empty());
    let error = node
        .on_input("capture", capture_request(CaptureMode::FrameId(8), None), &mut rt)
        .expect_err("exact cache miss");
    assert_eq!(
        error.describe(),
        "node precondition unmet: RTSP capture cache has no decoded frame matching frame_id=8"
    );
}

#[test]
fn rtsp_source_factory_instantiates_with_expected_kind() {
    assert_eq!(RtspSourceFactory.kind(), "rtspSource");
    let node = RtspSourceFactory.instantiate(rtsp_spec());
    assert_eq!(node.spec.kind, "rtspSource");
    assert_eq!(node.output_port, "frames");
    let mut spec = rtsp_spec();
    spec.outputs = vec![port("video", "stream.video-frame")];
    assert_eq!(RtspSourceFactory.instantiate(spec).output_port, "video");
}

#[test]
fn rtsp_source_on_start_reports_ready() {
    let mut rt = runtime();
    RtspSourceFactory
        .instantiate(rtsp_spec())
        .on_start(&mut rt)
        .expect("on_start");
    assert_eq!(last_state(&rt), Some(NodeRuntimeState::Ready));
}

#[test]
fn connect_without_url_is_config_error() {
    let mut rt = runtime();
    let mut spec = rtsp_spec();
    spec.config = object(vec![]);
    let error = RtspSourceFactory
        .instantiate(spec)
        .on_action(NodeAction::Connect, &mut rt)
        .expect_err("empty url");
    assert!(matches!(error, NodeError::Config(_)), "got {error:?}");
}

#[test]
fn connect_without_stream_factory_is_precondition() {
    let mut rt = runtime();
    let error = RtspSourceFactory
        .instantiate(rtsp_spec())
        .on_action(NodeAction::Connect, &mut rt)
        .expect_err("no factory");
    assert!(matches!(error, NodeError::Precondition(_)), "got {error:?}");
}

fn streaming_runtime() -> NodeRuntime {
    NodeRuntime::new(EngineServices {
        stream_factory: true,
        ..EngineServices::default()
    })
}

#[test]
fn connect_opens_stream_and_reports_running() {
    let mut rt = streaming_runtime();
    let mut node = RtspSourceFactory.instantiate(rtsp_spec());
    let plan = node
        .on_action(NodeAction::Connect, &mut rt)
        .expect("connect")
        .expect("a stream is opened");
    assert_eq!(plan.session_id.value, "rtsp-rtsp-1");
    assert_eq!((plan.width, plan.height, plan.channel), (1920, 1080, 0));
    assert_eq!((plan.connect_timeout_ms, plan.idle_timeout_ms), (8_000, 10_000));
    node.connected(Ok(()), false, &mut rt).expect("opened");
    assert_eq!(last_state(&rt), Some(NodeRuntimeState::Running));

    let again = node
        .on_action(NodeAction::Connect, &mut rt)
        .expect("re-connect");
    assert!(again.is_none(), "a live stream is not opened again");
    node.on_stop(&mut rt).expect("stop");
}

#[test]
fn disconnect_reports_idle_and_stops_pump() {
    let mut rt = streaming_runtime();
    let mut node = RtspSourceFactory.instantiate(rtsp_spec());
    node.on_action(NodeAction::Connect, &mut rt)
        .expect("connect")
        .expect("plan");
    node.connected(Ok(()), false, &mut rt).expect("opened");
    assert_eq!(last_state(&rt), Some(NodeRuntimeState::Running));

    node.on_action(NodeAction::Disconnect, &mut rt)
        .expect("disconnect");
    assert_eq!(last_state(&rt), Some(NodeRuntimeState::Idle));
    assert!(node.stream.is_none());
    assert!(node.latest_image.is_none());
}

#[test]
fn terminal_failed_reports_error_state() {
    let mut rt = streaming_runtime();
    let mut node = RtspSourceFactory.instantiate(rtsp_spec());
    node.on_action(NodeAction::Connect, &mut rt)
        .expect("connect")
        .expect("plan");
    node.connected(Ok(()), false, &mut rt).expect("opened");
    node.stream_event(
        &StreamEvent::Failed(StreamFailure {
            cause: StreamFailureCause::ConnectTimeout { timeout_ms: 3000 },
            text: "connect timeout".to_owned(),
        }),
        "Terminal(Failed)",
        &mut rt,
    );
    assert_eq!(
        last_report(&rt),
        Some((
            NodeRuntimeState::Error,
            "stream failed before first decoded frame: connect timeout after 3000 ms; check RTSP URL/server/network or increase connectTimeoutMs for slow channels"
        ))
    );
    assert_eq!(last_event(&rt), Some("stream: Terminal(Failed)"));
    assert!(node.stream.expect("stream").cancelled);
    assert!(node
        .on_action(NodeAction::Connect, &mut rt)
        .expect("connect again")
        .is_some());
}

#[test]
fn a_stream_that_ended_brings_no_more_frames() {
    let mut rt = streaming_runtime();
    let mut node = RtspSourceFactory.instantiate(rtsp_spec());
    node.frame_decoded(&decoded_frame(1, None, 1), &mut rt);
    assert!(node.latest_image.is_none(), "no stream, no frame");
    node.connected(Ok(()), false, &mut rt).expect("opened");
    node.frame_decoded(&decoded_frame(2, None, 2), &mut rt);
    node.stream_event(&StreamEvent::Cancelled, "Terminal(Cancelled)", &mut rt);
    node.frame_decoded(&decoded_frame(3, None, 3), &mut rt);
    assert_eq!(emitted(&rt).len(), 1);
    assert_eq!(
        node.latest_image.as_ref().expect("cached").identity.frame_sequence,
        2
    );
}

#[test]
fn an_end_during_the_opening_is_not_forgotten() {
    let mut rt = streaming_runtime();
    let mut node = RtspSourceFactory.instantiate(rtsp_spec());
    node.on_action(NodeAction::Connect, &mut rt)
        .expect("connect")
        .expect("plan");
    let end = StreamEvent::BoundaryClosed;
    assert!(end.is_terminal() && !StreamEvent::Playing.is_terminal());
    node.stream_event(&end, "Terminal(BoundaryClosed)", &mut rt);
    node.connected(Ok(()), true, &mut rt).expect("opened");
    assert_eq!(
        last_report(&rt),
        Some((NodeRuntimeState::Running, "streaming"))
    );
    node.frame_decoded(&decoded_frame(1, None, 1), &mut rt);
    assert!(emitted(&rt).is_empty());
    assert!(node
        .on_action(NodeAction::Connect, &mut rt)
        .expect("connect again")
        .is_some());
}

#[test]
fn streams_are_asked_for_in_software_at_low_latency() {
    let mut rt = streaming_runtime();
    let mut node = RtspSourceFactory.instantiate(rtsp_spec());
    node.spec.config = rtsp_config("rtsp://x", "udp");
    let plan = node
        .on_action(NodeAction::Connect, &mut rt)
        .expect("connect")
        .expect("plan");
    let config = plan.stream_config();
    assert_eq!(config.url, "rtsp://x");
    assert_eq!((config.channel, config.width, config.height), (0, 1920, 1080));
    assert_eq!(config.codec, RtspCodec::H264);
    assert_eq!(config.transport, RtspTransport::Udp);
    assert_eq!(config.latency_mode, RtspLatencyMode::Low);
    let request = plan.open_request();
    assert_eq!((request.channel, request.media.as_str()), (0, "rtsp"));
    assert_eq!(request.cseq, 1);
    assert!(!request.prefer_hardware_acceleration);
    assert_eq!(request.recording, StreamRecordingRequest::ServiceDefault);
}

#[test]
fn rtsp_source_unsupported_action_is_error() {
    let mut rt = runtime();
    let error = RtspSourceFactory
        .instantiate(rtsp_spec())
        .on_action(NodeAction::Trigger, &mut rt)
        .expect_err("unsupported");
    assert!(matches!(error, NodeError::UnsupportedAction(_)));
}

#[test]
fn transport_config_maps_udp_vs_default_tcp() {
    let mut spec = rtsp_spec();
    spec.config = rtsp_config("rtsp://x", "udp");
    let mut rt = runtime();
    let mut node = RtspSourceFactory.instantiate(spec);
    let error = node
        .on_action(NodeAction::Connect, &mut rt)
        .expect_err("no factory");
    assert!(matches!(error, NodeError::Precondition(_)), "got {error:?}");

    let mut rt = streaming_runtime();
    let plan = node.on_action(NodeAction::Connect, &mut rt).expect("udp").expect("plan");
    assert_eq!(plan.transport, RtspTransport::Udp);
    node.spec.config = object(vec![("url", text("rtsp://x"))]);
    let plan = node.on_action(NodeAction::Connect, &mut rt).expect("tcp").expect("plan");
    assert_eq!(plan.transport, RtspTransport::Tcp);
    node.spec.config = rtsp_config("rtsp://x", "carrier");
    assert!(matches!(
        node.on_action(NodeAction::Connect, &mut rt),
        Err(NodeError::Config(_))
    ));
}

fn local_spec(root: &str, directory: &str, selection: &str) -> NodeSpec {
    node_spec(
        "local-1",
        "localFileSource",
        vec![],
        vec![port("image", "image.frame.v1"), port("preview", "image.frame.v1")],
        object(vec![
            ("root", text(root)),
            ("directory", text(directory)),
            ("selection", text(selection)),
            ("filter", text("*.png")),
            ("reload", text("manual")),
        ]),
    )
}

fn local(root: &str, directory: &str, selection: &str) -> LocalFileSourceNode {
    LocalFileSourceFactory.instantiate(local_spec(root, directory, selection))
}

#[test]
fn local_source_factory_instantiates_with_expected_kind() {
    assert_eq!(LocalFileSourceFactory.kind(), "localFileSource");
    assert_eq!(local("", "", "").spec.kind, "localFileSource");
}

#[test]
fn empty_path_is_config_error() {
    let error = local("", "", "")
        .resolve_path()
        .expect_err("empty root/directory/selection must be rejected");
    assert!(matches!(error, NodeError::Config(_)), "got {error:?}");
}

#[test]
fn path_joins_root_directory_selection() {
    let path = local("/srv/images", "calib", "board.png")
        .resolve_path()
        .expect("path resolves");
    assert_eq!(path, "/srv/images/calib/board.png");
}

#[test]
fn extension_dispatch_is_correct() {
    assert_eq!(extension("x.png").as_deref(), Some("png"));
    assert_eq!(extension("x.PNG").as_deref(), Some("png"));
    assert_eq!(extension("x.jpg").as_deref(), Some("jpg"));
    assert_eq!(extension("x.jpeg").as_deref(), Some("jpeg"));
    assert_eq!(extension("x.raw").as_deref(), Some("raw"));
    assert_eq!(extension("noext"), None);
}

#[test]
fn paths_and_extensions_agree_with_the_standard_library() {
    for path in [
        "a/b.PNG", "a.b/c", ".hidden", "x.", "/", "a/..", "a/./b.jpg", "dir/", "a//b.jpeg", "..",
        "x.tar.GZ", "a/b/.png",
    ] {
        let expected = std::path::Path::new(path)
            .extension()
            .and_then(|part| part.to_str())
            .map(str::to_ascii_lowercase);
        assert_eq!(extension(path), expected, "{path}");
    }
    for (root, directory, selection) in [
        ("/srv", "", "a.png"),
        ("/srv/", "b", "c.png"),
        ("r", "/abs", "x"),
        ("", "d", "e"),
    ] {
        let mut expected = std::path::PathBuf::new();
        for part in [root, directory, selection] {
            if !part.is_empty() {
                expected.push(part);
            }
        }
        assert_eq!(
            Some(local(root, directory, selection).resolve_path().expect("path").as_str()),
            expected.to_str()
        );
    }
}

#[test]
fn local_files_are_read_decoded_and_sent() {
    let codec = EngineServices {
        image_codec: true,
        ..EngineServices::default()
    };
    let mut rt = NodeRuntime::new(codec);
    let mut node = local("/srv", "", "a.JPG");
    let path = node.on_action(NodeAction::Trigger).expect("path");
    assert_eq!(path, "/srv/a.JPG");
    let job = node
        .file_read(&path, Ok(vec![1, 2, 3]), &mut rt)
        .expect("read")
        .expect("decode");
    assert_eq!(job.format, RasterFormat::Jpeg);
    assert_eq!(job.bytes, [1, 2, 3]);
    node.decoded(
        &path,
        Ok(RgbaImage {
            width: 1,
            height: 2,
            stride: 6,
            pixels: vec![1, 2, 3, 4, 9, 9, 5, 6, 7, 8],
        }),
        &mut rt,
    )
    .expect("decoded");
    let packets = emitted(&rt);
    let DataPacket::ImageFrame(image) = packets[0].1 else {
        panic!("image expected");
    };
    assert_eq!(image.planes[0].bytes, [1, 2, 3, 4, 5, 6, 7, 8]);
    assert!(matches!(
        &image.identity.provenance,
        FrameProvenance::Stream { stream_id, channel: 0 } if stream_id.value == "local-local-1"
    ));
    assert_eq!(
        node.file_read(&path, Err("gone".to_owned()), &mut rt).err(),
        Some(NodeError::Execution("read /srv/a.JPG failed: gone".to_owned()))
    );
    let mut bare = runtime();
    assert!(matches!(
        node.file_read(&path, Ok(vec![]), &mut bare),
        Err(NodeError::Precondition(_))
    ));
    assert!(matches!(
        node.on_action(NodeAction::Arm),
        Err(NodeError::UnsupportedAction(_))
    ));
}

#[test]
fn builtin_registry_covers_all_nodes() {
    let mut registry = NodeRegistry::new();
    register_builtin(&mut registry);
    let kinds: Vec<&str> = registry.kinds().iter().map(String::as_str).collect();
    for expected in [
        "rtspSource",
        "rtspDecoder",
        "frameSampler",
        "demosaic",
        "videoLayer",
        "imageLayer",
        "viewer",
        "calibrationBoardParams",
        "cameraInitialParams",
        "calibrationSolver",
        "autoCaptureController",
        "overlayComposer",
        "datasetCollector",
        "coverageAnalyzer",
        "poseGuide",
        "chessboardDetector",
        "poseEstimator",
        "calibrationFrameScorer",
        "scoreThresholdGate",
        "consecutiveHoldGate",
        "captureRequestBuilder",
        "localFileSource",
        "sftpFileSource",
        "sshSession",
        "x5233Driver",
        "sshConnection",
        "structuredFieldExtractor",
        "i2cTaskBuilder",
    ] {
        assert!(kinds.contains(&expected), "missing node kind {expected}");
    }
    assert_eq!(kinds.len(), 29);
    assert_eq!(kinds[25], "hexArmDevice");
    register_builtin(&mut registry);
    assert_eq!(registry.kinds().len(), 29, "no kind is registered twice");
    assert!(!registry.contains("unknown"));
}

#[test]
fn skeleton_factories_instantiate_with_expected_kinds() {
    assert_eq!(SftpFileSourceFactory.kind(), "sftpFileSource");
    assert_eq!(SftpFileSourceFactory.instantiate().kind(), "sftpFileSource");
    assert_eq!(SshSessionFactory.kind(), "sshSession");
    assert_eq!(SshSessionFactory.instantiate().kind(), "sshSession");
    assert_eq!(X5DeviceFactory.kind(), "x5Device");
    assert_eq!(X5DeviceFactory.instantiate().kind(), "x5Device");
    assert_eq!(I2cTransferFactory.kind(), "i2cTransfer");
    assert_eq!(I2cTransferFactory.instantiate().kind(), "i2cTransfer");
    assert_eq!(EepromProvisionFactory.kind(), "eepromProvision");
    assert_eq!(EepromProvisionFactory.instantiate().kind(), "eepromProvision");
}

#[test]
fn skeleton_action_is_unsupported_not_panic() {
    let mut rt = runtime();
    let mut node = X5DeviceFactory.instantiate();
    let error = node
        .on_action(NodeAction::Trigger, &mut rt)
        .expect_err("skeleton action must be unsupported");
    assert!(matches!(error, NodeError::UnsupportedAction(_)));
    node.on_start(&mut rt).expect("start");
    assert_eq!(
        last_report(&rt),
        Some((
            NodeRuntimeState::Ready,
            "skeleton; real X5 device control pending M3"
        ))
    );
    node.on_input("in", DataPacket::Json(Arc::new(JsonValue::Null)), &mut rt)
        .expect("input");
    assert_eq!(
        last_event(&rt),
        Some("`in` not implemented (skeleton; real capability M3)")
    );
}

fn identity(stream: &str, sequence: u64, host: u64, device: Option<u64>) -> ImageFrameIdentity {
    ImageFrameIdentity::from_stream(&StreamFrameIdentity {
        stream_id: StreamSessionId::new(stream).expect("valid stream id"),
        channel: 0,
        frame_sequence: sequence,
        source_pts: SourcePts::Known {
            ticks: sequence as i64 * 3_000,
            time_base_numerator: 1,
            time_base_denominator: 90_000,
            provenance: SourcePtsProvenance::FfmpegDecodedFrame,
        },
        host_monotonic_time_ns: host,
        device_timestamp_ns: device,
    })
}

fn auto_identity(sequence: u64) -> ImageFrameIdentity {
    identity("auto-capture-test", sequence, sequence * 1_000, None)
}

fn auto_spec() -> NodeSpec {
    node_spec(
        "auto-1",
        "autoCaptureController",
        vec![port("trigger", "capture.trigger")],
        vec![port("trigger", "capture.trigger")],
        object(vec![]),
    )
}

fn auto_trigger(sequence: u64) -> DataPacket {
    DataPacket::CaptureTrigger(Arc::new(CaptureTrigger {
        frame_identity: auto_identity(sequence),
    }))
}

#[test]
fn auto_capture_factory_instantiates_with_expected_kind() {
    assert_eq!(AutoCaptureFactory.kind(), "autoCaptureController");
    assert!(!AutoCaptureFactory.instantiate(auto_spec()).armed);
}

#[test]
fn auto_capture_on_start_reports_ready() {
    let mut rt = runtime();
    AutoCaptureFactory
        .instantiate(auto_spec())
        .on_start(&mut rt)
        .expect("on_start");
    assert_eq!(last_state(&rt), Some(NodeRuntimeState::Ready));
}

#[test]
fn trigger_is_ignored_until_armed() {
    let mut rt = runtime();
    AutoCaptureFactory
        .instantiate(auto_spec())
        .on_input("trigger", auto_trigger(9), &mut rt)
        .expect("unarmed trigger is ignored");
    assert!(emitted(&rt).is_empty());
}

#[test]
fn armed_trigger_is_forwarded_without_identity_change() {
    let mut rt = runtime();
    let mut node = AutoCaptureFactory.instantiate(auto_spec());
    node.on_action(NodeAction::Arm, &mut rt).expect("arm");
    assert_eq!(last_state(&rt), Some(NodeRuntimeState::Running));

    node.on_input("trigger", auto_trigger(9), &mut rt)
        .expect("forward trigger");
    let packets = emitted(&rt);
    let Some((_, DataPacket::CaptureTrigger(trigger))) = packets.last() else {
        panic!("expected capture trigger");
    };
    assert!(trigger.frame_identity.eq_value(&auto_identity(9)));
}

#[test]
fn armed_gate_rejects_non_trigger_packet() {
    let mut rt = runtime();
    let mut node = AutoCaptureFactory.instantiate(auto_spec());
    node.on_action(NodeAction::Arm, &mut rt).expect("arm");
    assert!(matches!(
        node.on_input("trigger", DataPacket::Json(Arc::new(object(vec![]))), &mut rt),
        Err(NodeError::Precondition(_))
    ));
}

#[test]
fn disarm_and_stop_report_idle() {
    let mut rt = runtime();
    let mut node = AutoCaptureFactory.instantiate(auto_spec());
    node.on_action(NodeAction::Arm, &mut rt).expect("arm");
    node.on_action(NodeAction::Disarm, &mut rt).expect("disarm");
    assert_eq!(last_state(&rt), Some(NodeRuntimeState::Idle));

    node.on_action(NodeAction::Arm, &mut rt).expect("arm");
    node.on_stop(&mut rt).expect("on_stop");
    assert_eq!(last_state(&rt), Some(NodeRuntimeState::Idle));
}

#[test]
fn auto_capture_unsupported_action_is_error() {
    let mut rt = runtime();
    let error = AutoCaptureFactory
        .instantiate(auto_spec())
        .on_action(NodeAction::Trigger, &mut rt)
        .expect_err("unsupported");
    assert!(matches!(error, NodeError::UnsupportedAction(_)));
}

fn stream_identity(sequence: u64) -> ImageFrameIdentity {
    identity("logic-test", sequence, sequence * 10, Some(sequence * 1_000))
}

fn detection(sequence: u64, corners: usize) -> DataPacket {
    DataPacket::Detection(Arc::new(DetectionPacket {
        detection: Arc::new(ChessboardDetection {
            image_size: CalibrationImageSize::new(640, 480).expect("valid size"),
            corners: (0..corners)
                .map(|index| CalibrationPoint {
                    x: Real32::from_bits((index as f32).to_bits()),
                    y: Real32::from_bits(0.0_f32.to_bits()),
                })
                .collect(),
        }),
        frame_identity: stream_identity(sequence),
    }))
}

fn score(sequence: u64, value: f64) -> DataPacket {
    DataPacket::Score(Arc::new(CalibrationFrameScore {
        score: number(value),
        frame_identity: stream_identity(sequence),
    }))
}

fn signal(sequence: u64, accepted: bool) -> DataPacket {
    DataPacket::CaptureSignal(Arc::new(CaptureSignal {
        accepted,
        frame_identity: stream_identity(sequence),
    }))
}

fn trigger(sequence: u64) -> DataPacket {
    DataPacket::CaptureTrigger(Arc::new(CaptureTrigger {
        frame_identity: stream_identity(sequence),
    }))
}

fn quotient(n: usize, d: usize) -> Real64 {
    number(n as f64 / d as f64)
}

fn logic_spec(kind: &str, config: JsonValue) -> NodeSpec {
    node_spec(kind, kind, vec![], vec![], config)
}

fn scorer_spec() -> NodeSpec {
    logic_spec(
        "calibrationFrameScorer",
        object(vec![("expectedCorners", JsonValue::Uint(4))]),
    )
}

fn threshold_spec(threshold: f64) -> NodeSpec {
    logic_spec("scoreThresholdGate", threshold_config(threshold))
}

fn threshold_config(threshold: f64) -> JsonValue {
    object(vec![("threshold", JsonValue::Real(number(threshold)))])
}

fn hold_config(count: u64) -> JsonValue {
    object(vec![("holdCount", JsonValue::Uint(count))])
}

fn builder_spec(config: JsonValue) -> NodeSpec {
    logic_spec("captureRequestBuilder", config)
}

#[test]
fn calibration_frame_scorer_preserves_detection_frame_identity() {
    let mut rt = runtime();
    let mut node = CalibrationFrameScorerFactory.instantiate(scorer_spec());
    node.on_input("detection", detection(7, 3), &mut rt, quotient)
        .expect("score detection");
    let packets = emitted(&rt);
    let Some((_, DataPacket::Score(score))) = packets.last() else {
        panic!("expected score output");
    };
    assert_eq!(score.score, number(0.75));
    assert!(score.frame_identity.eq_value(&stream_identity(7)));
}

#[test]
fn score_threshold_gate_emits_accepted_and_rejected_signals() {
    let mut rt = runtime();
    let mut node = ScoreThresholdGateFactory.instantiate(threshold_spec(0.5));
    node.on_input("score", score(1, 0.5), &mut rt)
        .expect("accepted score");
    node.on_input("score", score(2, 0.49), &mut rt)
        .expect("rejected score");
    let packets = emitted(&rt);
    assert_eq!(packets.len(), 2);
    let DataPacket::CaptureSignal(first) = packets[0].1 else {
        panic!("expected accepted signal");
    };
    let DataPacket::CaptureSignal(second) = packets[1].1 else {
        panic!("expected rejected signal");
    };
    assert!(first.accepted);
    assert!(first.frame_identity.eq_value(&stream_identity(1)));
    assert!(!second.accepted);
    assert!(second.frame_identity.eq_value(&stream_identity(2)));
}

#[test]
fn consecutive_hold_gate_requires_distinct_accepted_signals() {
    let mut rt = runtime();
    let mut node =
        ConsecutiveHoldGateFactory.instantiate(logic_spec("consecutiveHoldGate", hold_config(2)));
    for (sequence, accepted) in [(1, true), (1, true), (2, true), (3, true), (4, false), (5, true)] {
        node.on_input("signal", signal(sequence, accepted), &mut rt)
            .expect("signal");
    }
    let packets = emitted(&rt);
    assert_eq!(packets.len(), 1);
    let DataPacket::CaptureTrigger(trigger) = packets[0].1 else {
        panic!("expected capture trigger");
    };
    assert!(trigger.frame_identity.eq_value(&stream_identity(2)));
}

#[test]
fn capture_request_builder_preserves_identity_and_validates_config() {
    let mut rt = runtime();
    let mut node = CaptureRequestBuilderFactory.instantiate(builder_spec(object(vec![
        ("target", text("yuv")),
        ("channel", JsonValue::Uint(3)),
        ("mode", text("timestamp_ns")),
    ])));
    node.on_input("trigger", trigger(2), &mut rt)
        .expect("build request");
    let packets = emitted(&rt);
    assert_eq!(packets.len(), 1);
    let DataPacket::CaptureRequest(request) = packets[0].1 else {
        panic!("expected capture request");
    };
    assert_eq!(request.target, CaptureTarget::Yuv { channel: 3 });
    assert_eq!(request.mode, CaptureMode::TimestampNs(2_000));
    assert!(request
        .source_identity
        .as_ref()
        .expect("identity")
        .eq_value(&stream_identity(2)));

    let mut invalid_target =
        CaptureRequestBuilderFactory.instantiate(builder_spec(object(vec![("target", text("rgb"))])));
    assert!(matches!(
        invalid_target.on_input("trigger", trigger(1), &mut rt),
        Err(NodeError::Config(_))
    ));
    let mut invalid_mode =
        CaptureRequestBuilderFactory.instantiate(builder_spec(object(vec![("mode", text("unknown"))])));
    assert!(matches!(
        invalid_mode.on_input("trigger", trigger(1), &mut rt),
        Err(NodeError::Config(_))
    ));
    let unknown_trigger = DataPacket::CaptureTrigger(Arc::new(CaptureTrigger {
        frame_identity: ImageFrameIdentity {
            provenance: FrameProvenance::Unknown {
                reason: "test".to_owned(),
            },
            frame_sequence: 0,
            source_pts: SourcePts::Unavailable {
                reason: "test".to_owned(),
            },
            host_monotonic_time_ns: 0,
            device_timestamp_ns: None,
        },
    }));
    assert!(matches!(
        node.on_input("trigger", unknown_trigger, &mut rt),
        Err(NodeError::Precondition(_))
    ));
}

#[test]
fn capture_request_builder_rejects_timestamp_mode_without_device_metadata() {
    let mut rt = runtime();
    let mut node = CaptureRequestBuilderFactory
        .instantiate(builder_spec(object(vec![("mode", text("timestamp_ns"))])));
    let mut frame_identity = identity("logic-test-without-device-timestamp", 1, 123, None);
    frame_identity.source_pts = SourcePts::Unavailable {
        reason: "test".to_owned(),
    };
    let trigger = DataPacket::CaptureTrigger(Arc::new(CaptureTrigger { frame_identity }));
    assert!(matches!(
        node.on_input("trigger", trigger, &mut rt),
        Err(NodeError::Precondition(_))
    ));
}

#[test]
fn capture_request_builder_validates_only_the_selected_target_config() {
    let mut rt = runtime();
    let mut node = CaptureRequestBuilderFactory.instantiate(builder_spec(object(vec![
        ("target", text("raw")),
        ("camera", JsonValue::Uint(1)),
        ("channel", JsonValue::Uint(65_536)),
    ])));
    node.on_input("trigger", trigger(1), &mut rt)
        .expect("build raw request");
    let packets = emitted(&rt);
    let Some((_, DataPacket::CaptureRequest(request))) = packets.last() else {
        panic!("expected capture request");
    };
    assert_eq!(request.target, CaptureTarget::Raw { camera: 1 });
    assert_eq!(request.mode, CaptureMode::Latest);
}

#[test]
fn config_update_changes_spec_backed_runtime_behavior() {
    let mut rt = runtime();
    let mut scorer = CalibrationFrameScorerFactory.instantiate(scorer_spec());
    scorer
        .on_config_update(object(vec![("expectedCorners", JsonValue::Uint(2))]), &mut rt)
        .expect("update scorer config");
    scorer
        .on_input("detection", detection(10, 2), &mut rt, quotient)
        .expect("score after config update");
    assert!(matches!(
        emitted(&rt).last(),
        Some((_, DataPacket::Score(updated))) if updated.score == number(1.0)
    ));

    let mut threshold = ScoreThresholdGateFactory.instantiate(threshold_spec(0.9));
    threshold
        .on_config_update(threshold_config(0.4), &mut rt)
        .expect("update threshold config");
    threshold
        .on_input("score", score(11, 0.5), &mut rt)
        .expect("threshold after config update");
    assert!(matches!(
        emitted(&rt).last(),
        Some((_, DataPacket::CaptureSignal(updated))) if updated.accepted
    ));

    let mut hold =
        ConsecutiveHoldGateFactory.instantiate(logic_spec("consecutiveHoldGate", hold_config(3)));
    hold.on_input("signal", signal(12, true), &mut rt)
        .expect("first signal");
    hold.on_config_update(hold_config(1), &mut rt)
        .expect("update hold config");
    hold.on_input("signal", signal(13, true), &mut rt)
        .expect("signal after hold update");
    assert!(matches!(
        emitted(&rt).last(),
        Some((_, DataPacket::CaptureTrigger(_)))
    ));

    let mut builder = CaptureRequestBuilderFactory.instantiate(builder_spec(object(vec![
        ("target", text("yuv")),
        ("channel", JsonValue::Uint(0)),
    ])));
    builder
        .on_config_update(
            object(vec![("target", text("raw")), ("camera", JsonValue::Uint(2))]),
            &mut rt,
        )
        .expect("update builder config");
    builder
        .on_input("trigger", trigger(14), &mut rt)
        .expect("builder after config update");
    assert!(matches!(
        emitted(&rt).last(),
        Some((_, DataPacket::CaptureRequest(request)))
            if request.target == CaptureTarget::Raw { camera: 2 }
    ));
}

#[test]
fn refused_configurations_change_nothing() {
    let mut rt = runtime();
    let mut scorer = CalibrationFrameScorerFactory.instantiate(scorer_spec());
    assert!(matches!(
        scorer.on_config_update(object(vec![("expectedCorners", JsonValue::Uint(0))]), &mut rt),
        Err(NodeError::Config(_))
    ));
    assert_eq!(scorer.spec.config.get_u64("expectedCorners"), Some(4));
    let mut threshold = ScoreThresholdGateFactory.instantiate(threshold_spec(0.9));
    assert!(matches!(
        threshold.on_config_update(threshold_config(1.5), &mut rt),
        Err(NodeError::Config(_))
    ));
    let mut hold =
        ConsecutiveHoldGateFactory.instantiate(logic_spec("consecutiveHoldGate", hold_config(3)));
    assert!(matches!(
        hold.on_config_update(hold_config(0), &mut rt),
        Err(NodeError::Config(_))
    ));
    assert!(rt.log.is_empty());
}
