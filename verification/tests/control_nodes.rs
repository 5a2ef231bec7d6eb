use camera_toolbox_app::engine::i2c_task::{
    I2cMapValidationContract, I2cPageWrite, I2cReadRange, I2cTaskFault, I2cTaskPacket,
    I2cTaskTarget, TaskOperation, TASK_SCHEMA,
};
use camera_toolbox_app::engine::node::{NodeAction, NodeError};
use camera_toolbox_app::engine::nodes::hex_arm::{
    check_joint_positions, HexArmDefaults, HexArmDeviceNode, HexArmTransport, HexCall, HexRequest,
    JointSource,
};
use camera_toolbox_app::engine::nodes::i2c_plan_nodes::{
    compile_encoder_map, map_source, normalize_encoding, parse_operation, parse_task, CompiledMap,
    EncodedImage, LoadedMap,
    EncodedPage, EncoderMap, I2cCommand, I2cFieldEncoderFactory, I2cTaskExecutorFactory, MapSlot,
    MapSource, SlotStorage,
};
use camera_toolbox_app::engine::nodes::raster::{RasterFormat, RgbaImage};
use camera_toolbox_app::engine::nodes::remote::{
    CommandResult, RemoteTimeouts, SftpFileSourceFactory, SshConnectionCommand, SshConnectionFactory,
    SshSessionNode,
};
use camera_toolbox_app::engine::nodes::stream::{StreamEvent, StreamFailure, StreamFailureCause};
use camera_toolbox_app::engine::nodes::structured_field_extractor::{
    typed_field_source, validate_json_pointer, FieldLookup, PacketForm,
    StructuredFieldExtractorNode, WireFault,
};
use camera_toolbox_app::engine::nodes::x5233::{
    next_video_channel, open_all_step, X5233CapturePayload, X5233DriverNode, X5Command,
};
use camera_toolbox_app::engine::packet::{
    BayerPattern, CaptureMode, CaptureRequest, CaptureTarget, DataPacket, Datum,
    DecodedVideoFrame, FrameProvenance, I2cExecutionReport, I2cReadReport, ImageFrameFormat,
    RawMetadata, SshConnection, StructuredPacket, TypedFieldSource, TypedValue,
};
use camera_toolbox_app::engine::runtime::{EngineServices, NodeRuntime, RuntimeEffect};
use camera_toolbox_app::engine::spec::{NodeRuntimeState, NodeSpec, PortCardinality, PortSpec};
use camera_toolbox_app::ieee::Real64;
use camera_toolbox_app::json::{JsonMember, JsonValue};
use camera_toolbox_app::source::{
    SourcePts, SourcePtsProvenance, StreamFrameIdentity, StreamSessionId,
};
use std::sync::Arc;

fn object(members: Vec<(&str, JsonValue)>) -> JsonValue {
    JsonValue::Object(
        members
            .into_iter()
            .map(|(name, value)| JsonMember::new(name, value))
            .collect(),
    )
}

fn text(value: &str) -> JsonValue {
    JsonValue::string(value)
}

fn number(x: f64) -> Real64 {
    Real64::from_bits(x.to_bits())
}

fn port(id: &str, kind: &str) -> PortSpec {
    PortSpec {
        id: id.to_owned(),
        label: id.to_owned(),
        kind: kind.to_owned(),
        cardinality: PortCardinality::One,
        required: true,
    }
}

fn node_spec(id: &str, kind: &str, config: JsonValue) -> NodeSpec {
    NodeSpec {
        id: id.to_owned(),
        kind: kind.to_owned(),
        title: kind.to_owned(),
        inputs: vec![],
        outputs: vec![],
        config,
    }
}

fn custom(name: &str) -> NodeAction {
    NodeAction::Custom {
        name: name.to_owned(),
        payload: JsonValue::Null,
    }
}

fn runtime() -> NodeRuntime {
    NodeRuntime::new(EngineServices::default())
}

fn emitted(rt: &NodeRuntime) -> Vec<(&str, &DataPacket)> {
    rt.log
        .iter()
        .filter_map(|effect| match effect {
            RuntimeEffect::Emit { port, packet } => Some((port.as_str(), packet)),
            _ => None,
        })
        .collect()
}

fn last_report(rt: &NodeRuntime) -> Option<(NodeRuntimeState, &str)> {
    rt.log.iter().rev().find_map(|effect| match effect {
        RuntimeEffect::State { state, message } => Some((*state, message.as_str())),
        _ => None,
    })
}

fn x5_spec() -> NodeSpec {
    node_spec(
        "x5-1",
        "x5233Driver",
        object(vec![
            ("host", text("camera.local")),
            ("tcpPort", JsonValue::Uint(9073)),
            ("snapshotChannel", JsonValue::Uint(3)),
        ]),
    )
}

fn decoded_video_frame(sequence: u64, channel: u16) -> DecodedVideoFrame {
    DecodedVideoFrame {
        width: 2,
        height: 2,
        rgba: vec![7_u8; 16],
        identity: StreamFrameIdentity {
            stream_id: StreamSessionId::new("x5-video-test").expect("valid session id"),
            channel,
            frame_sequence: sequence,
            source_pts: SourcePts::Known {
                ticks: 9_000,
                time_base_numerator: 1,
                time_base_denominator: 90_000,
                provenance: SourcePtsProvenance::FfmpegDecodedFrame,
            },
            host_monotonic_time_ns: 123_456,
            device_timestamp_ns: None,
        },
    }
}

#[test]
fn rtsp_open_all_keeps_ch0_and_ch3_streams_active() {
    let mut rt = NodeRuntime::new(EngineServices {
        stream_factory: true,
        ..EngineServices::default()
    });
    let mut node = X5233DriverNode::new(x5_spec());
    let Ok(X5Command::OpenAllVideo { channels }) = node.on_action(custom("open_rtsp_all")) else {
        panic!("all channels are opened");
    };
    assert_eq!(channels, [0, 3]);
    let mut plans = Vec::new();
    let mut outcome = Ok(());
    while let Some(channel) = open_all_step(plans.len(), outcome).expect("every channel opens") {
        assert_eq!(channel, channels[plans.len()]);
        let plan = node
            .connect_video_channel(channel, &mut rt)
            .expect("open X5 RTSP video channel")
            .expect("a stream is opened");
        outcome = node.video_opened(channel, Ok(()), false, &mut rt);
        plans.push(plan);
    }
    for channel in [0_u16, 3] {
        node.frame_decoded(
            channel,
            Arc::new(decoded_video_frame(90 + u64::from(channel), channel)),
            &mut rt,
        );
    }
    assert!(matches!(
        node.on_action(custom("close_rtsp")),
        Ok(X5Command::CloseVideo)
    ));
    node.disconnect_video(&mut rt).expect("close X5 RTSP video");
    node.frame_decoded(0, Arc::new(decoded_video_frame(99, 0)), &mut rt);

    assert_eq!(plans.len(), 2);
    assert_eq!(plans[0].url, "rtsp://camera.local:554/PRR");
    assert_eq!(plans[0].channel, 0);
    assert_eq!(plans[1].url, "rtsp://camera.local:557/PRR");
    assert_eq!(plans[1].channel, 3);
    assert_eq!(plans[0].session_id.value, "x5-x5-1-ch0");
    assert_eq!(plans[1].session_id.value, "x5-x5-1-ch3");
    let packets = emitted(&rt);
    assert_eq!(packets.len(), 2);
    let mut channels = packets
        .iter()
        .map(|(_, packet)| {
            let DataPacket::VideoFrame(frame) = packet else {
                panic!("X5 video output must emit stream.video-frame, got {packet:?}");
            };
            frame.identity.channel
        })
        .collect::<Vec<_>>();
    channels.sort_unstable();
    assert_eq!(channels, [0, 3]);
    assert_eq!(packets[0].0, "videoCh0");
    assert_eq!(packets[1].0, "videoCh3");
}

#[test]
fn the_first_channel_that_fails_ends_the_opening_of_all() {
    assert_eq!(next_video_channel(0), Some(0));
    assert_eq!(next_video_channel(1), Some(3));
    assert_eq!(next_video_channel(2), None);
    let mut rt = NodeRuntime::new(EngineServices {
        stream_factory: true,
        ..EngineServices::default()
    });
    let mut node = X5233DriverNode::new(x5_spec());
    assert_eq!(open_all_step(0, Ok(())), Ok(Some(0)));
    node.connect_video_channel(0, &mut rt).expect("plan").expect("new");
    let outcome = node.video_opened(
        0,
        Err(StreamFailure {
            cause: StreamFailureCause::Other,
            text: "refused".to_owned(),
        }),
        false,
        &mut rt,
    );
    assert_eq!(
        open_all_step(1, outcome),
        Err(NodeError::Execution("refused".to_owned()))
    );
}

#[test]
fn video_that_ended_during_its_opening_is_opened_again() {
    let mut rt = NodeRuntime::new(EngineServices {
        stream_factory: true,
        ..EngineServices::default()
    });
    let mut node = X5233DriverNode::new(x5_spec());
    node.connect_video_channel(3, &mut rt).expect("plan").expect("new");
    node.stream_event(3, &StreamEvent::Cancelled, "Terminal(Cancelled)", &mut rt);
    node.video_opened(3, Ok(()), true, &mut rt).expect("opened");
    node.frame_decoded(3, Arc::new(decoded_video_frame(1, 3)), &mut rt);
    assert!(emitted(&rt).is_empty());
    assert!(node.connect_video_channel(3, &mut rt).expect("plan").is_some());
}

#[test]
fn cancelled_video_is_reopened_and_other_channels_are_refused() {
    let mut rt = NodeRuntime::new(EngineServices {
        stream_factory: true,
        ..EngineServices::default()
    });
    let mut node = X5233DriverNode::new(x5_spec());
    assert!(matches!(
        node.connect_video_channel(1, &mut rt),
        Err(NodeError::Precondition(_))
    ));
    node.connect_video_channel(0, &mut rt).expect("plan").expect("new");
    node.video_opened(0, Ok(()), false, &mut rt).expect("opened");
    assert!(node.connect_video_channel(0, &mut rt).expect("live").is_none());
    node.stream_event(
        0,
        &StreamEvent::Failed(StreamFailure {
            cause: StreamFailureCause::IdleTimeout { timeout_ms: 10_000 },
            text: "idle".to_owned(),
        }),
        "Failed",
        &mut rt,
    );
    assert_eq!(
        last_report(&rt),
        Some((
            NodeRuntimeState::Error,
            "x5_233 video CH0 failed after frames stopped: idle timeout after 10000 ms; check encoder/network stability"
        ))
    );
    assert!(node.connect_video_channel(0, &mut rt).expect("again").is_some());
}

fn yuv_payload(channel: u16) -> X5233CapturePayload {
    X5233CapturePayload::Nv12 {
        channel,
        width: 2,
        height: 2,
        y_len: 4,
        uv_len: 2,
        frame_id: 42,
        timestamp_ns: 123_456,
        payload: vec![1_u8, 2, 3, 4, 5, 6],
    }
}

fn raw_payload(camera: u16) -> X5233CapturePayload {
    X5233CapturePayload::BayerRaw {
        camera,
        width: 2,
        height: 1,
        stride_bytes: 4,
        format_code: 24,
        frame_id: 8,
        timestamp_ns: 456_789,
        payload: vec![0_u8, 1, 2, 3],
    }
}

fn x5_runtime() -> NodeRuntime {
    NodeRuntime::new(EngineServices {
        x5: true,
        ..EngineServices::default()
    })
}

fn capture_packet(target: CaptureTarget, mode: CaptureMode) -> DataPacket {
    DataPacket::CaptureRequest(Arc::new(CaptureRequest {
        target,
        mode,
        source_identity: None,
    }))
}

#[test]
fn capture_request_emits_nv12_with_exact_device_timestamp_identity() {
    let mut rt = x5_runtime();
    let mut node = X5233DriverNode::new(x5_spec());
    let request = node
        .on_input(
            "capture",
            capture_packet(
                CaptureTarget::Yuv { channel: 3 },
                CaptureMode::TimestampNs(123_456),
            ),
        )
        .expect("X5 NV12 capture")
        .expect("a capture");
    assert_eq!(request.target, CaptureTarget::Yuv { channel: 3 });
    assert_eq!(request.mode, CaptureMode::TimestampNs(123_456));
    let endpoint = node.capture(&request, &rt).expect("endpoint");
    assert_eq!((endpoint.host.as_str(), endpoint.port), ("camera.local", 9073));
    node.captured(&request, Ok(yuv_payload(3)), 5, &mut rt)
        .expect("captured");

    let packets = emitted(&rt);
    let DataPacket::ImageFrame(frame) = packets[0].1 else {
        panic!("capture must emit image.frame");
    };
    assert_eq!(frame.format, ImageFrameFormat::Nv12);
    assert_eq!(frame.identity.frame_sequence, 42);
    assert!(matches!(
        &frame.identity.provenance,
        FrameProvenance::Device {
            driver,
            channel: 3,
            camera: None,
            timestamp_ns: 123_456,
        } if driver == "x5_233"
    ));
    assert_eq!(frame.identity.device_timestamp_ns, Some(123_456));
    assert!(matches!(
        frame.identity.source_pts,
        SourcePts::Unavailable { .. }
    ));
}

#[test]
fn capture_yuv_action_uses_capture_request_path() {
    let mut node = X5233DriverNode::new(x5_spec());
    let Ok(X5Command::Capture(request)) = node.on_action(custom("capture_yuv")) else {
        panic!("capture_yuv action");
    };
    assert_eq!(request.target, CaptureTarget::Yuv { channel: 3 });
    assert_eq!(request.mode, CaptureMode::Latest);
    node.capture(&request, &x5_runtime()).expect("endpoint");
}

#[test]
fn capture_raw_action_uses_raw_camera_path() {
    let mut rt = x5_runtime();
    let mut node = X5233DriverNode::new(node_spec(
        "x5-1",
        "x5233Driver",
        object(vec![
            ("host", text("10.21.12.108")),
            ("tcpPort", JsonValue::Uint(9073)),
            ("rawCamera", JsonValue::Uint(1)),
        ]),
    ));
    let Ok(X5Command::Capture(request)) = node.on_action(custom("capture_raw")) else {
        panic!("capture_raw action");
    };
    assert_eq!(request.target, CaptureTarget::Raw { camera: 1 });
    assert_eq!(request.mode, CaptureMode::Latest);
    node.captured(&request, Ok(raw_payload(1)), 0, &mut rt)
        .expect("capture_raw reply");
}

#[test]
fn raw_capture_emits_bayer_frame_with_default_metadata() {
    let mut rt = x5_runtime();
    let mut node = X5233DriverNode::new(x5_spec());
    let request = node
        .on_input(
            "capture",
            capture_packet(CaptureTarget::Raw { camera: 0 }, CaptureMode::Latest),
        )
        .expect("X5 RAW capture")
        .expect("a capture");
    assert_eq!(request.target, CaptureTarget::Raw { camera: 0 });
    assert_eq!(request.mode, CaptureMode::Latest);
    node.capture(&request, &rt).expect("endpoint");
    node.captured(&request, Ok(raw_payload(0)), 0, &mut rt)
        .expect("captured");
    let packets = emitted(&rt);
    let DataPacket::ImageFrame(frame) = packets[0].1 else {
        panic!("RAW capture must emit image.frame");
    };
    assert_eq!(frame.format, ImageFrameFormat::BayerRaw);
    assert!(matches!(
        frame.raw,
        Some(RawMetadata {
            bayer_pattern: BayerPattern::Rggb,
            bits_per_sample: 12,
            ..
        })
    ));
}

#[test]
fn raw_exact_capture_is_explicit_precondition_without_device_support() {
    let mut node = X5233DriverNode::new(x5_spec());
    let request = node
        .on_input(
            "capture",
            capture_packet(CaptureTarget::Raw { camera: 0 }, CaptureMode::FrameId(42)),
        )
        .expect("request")
        .expect("a capture");
    let error = node
        .capture(&request, &runtime())
        .expect_err("RAW exact capture has no X5 executor support");
    assert!(matches!(error, NodeError::Precondition(_)), "got {error:?}");
}

#[test]
fn capture_without_x5_client_is_precondition() {
    let mut node = X5233DriverNode::new(x5_spec());
    let request = node
        .on_input(
            "capture",
            capture_packet(CaptureTarget::Yuv { channel: 0 }, CaptureMode::Latest),
        )
        .expect("request")
        .expect("a capture");
    let error = node
        .capture(&request, &runtime())
        .expect_err("X5 client is required");
    assert!(matches!(error, NodeError::Precondition(_)), "got {error:?}");
}

#[test]
fn replies_that_do_not_fit_the_request_are_refused() {
    let mut rt = x5_runtime();
    let node = X5233DriverNode::new(x5_spec());
    let request = CaptureRequest {
        target: CaptureTarget::Yuv { channel: 0 },
        mode: CaptureMode::FrameId(41),
        source_identity: None,
    };
    assert!(matches!(
        node.captured(&request, Ok(yuv_payload(3)), 0, &mut rt),
        Err(NodeError::Execution(_))
    ));
    assert!(matches!(
        node.captured(&request, Ok(raw_payload(0)), 0, &mut rt),
        Err(NodeError::Execution(_))
    ));
    assert_eq!(
        node.captured(&request, Err("offline".to_owned()), 0, &mut rt),
        Err(NodeError::Execution("offline".to_owned()))
    );
    assert!(emitted(&rt).is_empty());
    node.status_ready(Ok(object(vec![])), &mut rt).expect("status");
    assert_eq!(
        last_report(&rt),
        Some((NodeRuntimeState::Idle, "x5_233 status ready"))
    );
}

fn hex_config(control_enabled: bool, positions: &str, host: &str) -> JsonValue {
    object(vec![
        ("host", text(host)),
        ("port", JsonValue::Uint(8439)),
        ("transport", text("websocket")),
        ("controlEnabled", JsonValue::Bool(control_enabled)),
        ("jointPositions", text(positions)),
    ])
}

fn hex_node(control_enabled: bool, connected: bool) -> HexArmDeviceNode {
    HexArmDeviceNode {
        spec: node_spec(
            "hex-arm-1",
            "hexArmDevice",
            hex_config(control_enabled, "0.1", "hex-arm.local"),
        ),
        connected,
        api_control_initialized: connected,
        defaults: HexArmDefaults {
            port: 8439,
            command_timeout_ms: 5_000,
            connect_timeout_ms: 3_000,
        },
    }
}

fn hex_runtime() -> NodeRuntime {
    NodeRuntime::new(EngineServices {
        hex_arm: true,
        ..EngineServices::default()
    })
}

fn joints(request: &HexRequest) -> Vec<f64> {
    let Some(JointSource::Numerals(numerals)) = &request.joints else {
        panic!("joints are written as text");
    };
    let parsed = numerals
        .iter()
        .map(|numeral| numeral.parse::<f64>().ok().map(number))
        .collect();
    check_joint_positions(&parsed)
        .expect("finite joints")
        .into_iter()
        .map(|value| f64::from_bits(value.bits))
        .collect()
}

#[test]
fn hex_arm_missing_service_is_precondition() {
    let mut node = hex_node(true, false);
    let error = node
        .on_action(custom("status"), &mut runtime())
        .expect_err("missing Hex Arm service must be a precondition");
    assert!(matches!(error, NodeError::Precondition(_)));
}

#[test]
fn hex_arm_motion_requires_control_enabled() {
    let mut node = hex_node(false, true);
    let error = node
        .on_action(custom("send_joint_positions"), &mut hex_runtime())
        .expect_err("motion must be disabled when controlEnabled=false");
    assert!(matches!(error, NodeError::Precondition(_)));
}

#[test]
fn hex_arm_config_update_disconnects_only_for_target_changes() {
    let mut rt = hex_runtime();
    let mut node = hex_node(true, true);

    let update = || hex_config(true, "0.2,0.3", "hex-arm.local");
    assert!(node
        .plan_config_update(&update())
        .expect("joint-only update must preserve session")
        .is_none());
    node.on_config_update(update(), Ok(()), &mut rt)
        .expect("joint-only update must preserve session");
    assert!(node.connected);
    let request = node
        .on_action(custom("send_joint_positions"), &mut rt)
        .expect("joint positions");
    assert_eq!(request.call, HexCall::SendJointPositions);
    assert_eq!(joints(&request), vec![0.2, 0.3]);
    node.call_finished(request.call, Ok(()), &mut rt).unwrap();

    let host_changed = || hex_config(true, "0.2,0.3", "new-hex-arm.local");
    let old_target = node
        .plan_config_update(&host_changed())
        .expect("host update must disconnect old session")
        .expect("a session to end");
    assert_eq!(old_target.host, "hex-arm.local");
    assert_eq!(old_target.transport, HexArmTransport::WebSocket);
    node.on_config_update(host_changed(), Ok(()), &mut rt)
        .expect("host update must disconnect old session");
    assert!(!node.connected);
    assert!(!node.api_control_initialized);
}

#[test]
fn hex_arm_calls_come_in_order() {
    let mut rt = hex_runtime();
    let mut node = hex_node(true, false);
    assert!(matches!(
        node.on_action(custom("initialize_api_control"), &mut rt),
        Err(NodeError::Precondition(_))
    ));
    let request = node.on_action(NodeAction::Connect, &mut rt).expect("connect");
    assert_eq!(request.target.port, 8439);
    node.call_finished(request.call, Err("busy".to_owned()), &mut rt)
        .expect_err("busy");
    assert!(!node.connected);
    node.call_finished(request.call, Ok(()), &mut rt).unwrap();
    assert!(node.connected);
    assert!(matches!(
        node.on_action(custom("send_joint_positions"), &mut rt),
        Err(NodeError::Precondition(_))
    ));
    let request = node
        .on_action(custom("initialize_api_control"), &mut rt)
        .expect("initialize");
    node.call_finished(request.call, Ok(()), &mut rt).unwrap();
    assert!(node.api_control_initialized);
    assert!(matches!(
        node.on_action(NodeAction::Arm, &mut rt),
        Err(NodeError::UnsupportedAction(_))
    ));
    assert!(check_joint_positions(&vec![Some(number(f64::NAN))]).is_err());
    assert!(check_joint_positions(&vec![None]).is_err());
    assert!(check_joint_positions(&vec![]).is_err());
}

#[test]
fn hex_arm_probe_needs_no_permission() {
    let mut rt = hex_runtime();
    for (control_enabled, connected) in [(false, false), (false, true), (true, false)] {
        let mut node = hex_node(control_enabled, connected);
        let initialized = node.api_control_initialized;
        let request = node.on_action(custom("probe"), &mut rt).expect("probe");
        assert_eq!(request.call, HexCall::Probe);
        assert!(request.joints.is_none());
        node.call_finished(request.call, Ok(()), &mut rt).expect("probed");
        assert_eq!(
            (node.connected, node.api_control_initialized),
            (connected, initialized)
        );
    }
    assert!(rt.log.iter().any(|effect| matches!(
        effect,
        RuntimeEffect::Event { .. }
    )));
    let mut node = hex_node(false, false);
    assert!(matches!(
        node.on_action(custom("probe"), &mut runtime()),
        Err(NodeError::Precondition(_))
    ));
    assert_eq!(
        node.call_finished(HexCall::Probe, Err("no answer".to_owned()), &mut rt),
        Err(NodeError::Execution("no answer".to_owned()))
    );
}

fn ssh_session_spec() -> NodeSpec {
    node_spec(
        "ssh-session-1",
        "sshSession",
        object(vec![
            ("host", text("camera.local")),
            ("port", text("22")),
            ("username", text("root")),
            ("credentialRef", text("session:ssh-session-1")),
            ("recipeId", text("capture")),
        ]),
    )
}

fn command_result() -> CommandResult {
    CommandResult {
        terminal: "Succeeded".to_owned(),
        stdout_len: 0,
        stderr_len: 0,
        stdout_truncated: false,
        stderr_truncated: false,
        artifact_path: None,
    }
}

#[test]
fn ssh_session_executes_without_host_key() {
    let mut rt = NodeRuntime::new(EngineServices {
        ssh_command_executor: true,
        ..EngineServices::default()
    });
    let mut node = SshSessionNode {
        spec: ssh_session_spec(),
    };
    let command = node
        .on_action(NodeAction::Trigger)
        .expect("SSH command executes without a host key");
    node.ready_to_run(Ok(()), &rt).expect("executor");
    node.executed(Ok(command_result()), &mut rt).expect("result");

    assert_eq!(command.target.host, "camera.local");
    assert_eq!(command.target.port, 22);
    assert_eq!(command.target.username, "root");
    assert_eq!(command.target.expected_host_key, None);
    assert_eq!(command.recipe_id, "capture");
    assert_eq!(
        command.timeouts,
        RemoteTimeouts {
            connect_secs: 10,
            idle_secs: 60,
            overall_secs: 60,
        }
    );
    assert_eq!(command.credential_ref, "session:ssh-session-1");
    let packets = emitted(&rt);
    assert!(matches!(packets[0], ("result", DataPacket::Json(_))));
}

#[test]
fn ssh_session_discards_legacy_host_key_before_command_execution() {
    let mut spec = ssh_session_spec();
    let JsonValue::Object(members) = &mut spec.config else {
        panic!("SSH session config is an object");
    };
    members.push(JsonMember::new(
        "expectedHostKey",
        text("not-an-openssh-public-key"),
    ));
    let mut node = SshSessionNode { spec };
    let command = node
        .on_action(NodeAction::Trigger)
        .expect("legacy host key does not block SSH command execution");
    assert_eq!(command.target.expected_host_key, None);
    assert!(matches!(
        node.ready_to_run(Ok(()), &runtime()),
        Err(NodeError::Precondition(_))
    ));
}

#[test]
fn sftp_images_are_fetched_decoded_and_sent() {
    let services = EngineServices {
        sftp_reader: true,
        image_codec: true,
        ..EngineServices::default()
    };
    let mut rt = NodeRuntime::new(services);
    let mut node = SftpFileSourceFactory.instantiate(node_spec(
        "sftp-1",
        "sftpFileSource",
        object(vec![
            ("host", text("camera.local")),
            ("username", text("root")),
            ("port", text("22")),
            ("credentialRef", text("session:sftp-1")),
            ("remoteRoot", text("/data/")),
            ("selection", text("/board.PNG")),
        ]),
    ));
    let fetch = node.on_action(NodeAction::Trigger, &mut rt).expect("fetch");
    assert_eq!(fetch.path, "/data/board.PNG");
    assert_eq!(fetch.format, RasterFormat::Png);
    assert_eq!(
        fetch.timeouts,
        RemoteTimeouts {
            connect_secs: 30,
            idle_secs: 120,
            overall_secs: 120,
        }
    );
    assert_eq!(fetch.target.port, 22);
    assert_eq!(
        node.fetched(Err("gone".to_owned()), &rt),
        Err(NodeError::Execution("gone".to_owned()))
    );
    let bytes = node.fetched(Ok(vec![1]), &rt).expect("bytes");
    assert_eq!(bytes, [1]);
    node.decoded(
        Ok(RgbaImage {
            width: 1,
            height: 1,
            stride: 4,
            pixels: vec![1, 2, 3, 4],
        }),
        &mut rt,
    )
    .expect("decoded");
    assert!(emitted(&rt)
        .iter()
        .any(|(_, packet)| matches!(packet, DataPacket::ImageFrame(_))));
}

#[test]
fn ssh_connections_are_announced_and_revoked() {
    let mut rt = NodeRuntime::new(EngineServices {
        ssh_connection: true,
        ..EngineServices::default()
    });
    let mut node = SshConnectionFactory.instantiate(node_spec(
        "ssh-1",
        "sshConnection",
        object(vec![
            ("host", text("camera.local")),
            ("credentialRef", text("session:ssh-1")),
        ]),
    ));
    assert!(matches!(
        node.on_action(NodeAction::Connect),
        Ok(SshConnectionCommand::Connect)
    ));
    let connect = node.connect(&rt).expect("plan");
    assert_eq!(connect.target.username, "root");
    assert!(connect.revoke.is_none());
    assert!(matches!(
        node.connected(Ok(SshConnection { id: " ".to_owned() }), &mut rt),
        Err(NodeError::Execution(_))
    ));
    node.connected(Ok(SshConnection { id: "c1".to_owned() }), &mut rt)
        .expect("connected");
    assert!(matches!(
        emitted(&rt).last(),
        Some(("connection", DataPacket::SshConnection(connection))) if connection.id == "c1"
    ));
    assert!(node.connect(&rt).expect("again").revoke.is_some());
    node.on_stop(Ok(()), &mut rt).expect("stopped");
    assert!(node.connection.is_none());
}

fn extractor_spec(config: JsonValue, outputs: Vec<PortSpec>) -> NodeSpec {
    NodeSpec {
        id: "extractor".to_owned(),
        kind: "structuredFieldExtractor".to_owned(),
        title: String::new(),
        inputs: vec![port("packet", "data.packet.v1")],
        outputs,
        config,
    }
}

fn definition(members: Vec<(&str, JsonValue)>) -> JsonValue {
    object(vec![("outputs", JsonValue::Array(vec![object(members)]))])
}

fn datum() -> Datum {
    Datum {
        name: "camera.intrinsics.fx".to_owned(),
        value: TypedValue::F64(number(912.43)),
        unit: None,
        semantic_type: None,
    }
}

fn structured_packet() -> StructuredPacket {
    StructuredPacket {
        schema: "example.packet.v1".to_owned(),
        provenance: Arc::new(object(vec![])),
        fields: vec![datum()],
    }
}

fn json(text: &str) -> serde_json::Value {
    serde_json::from_str(text).expect("JSON")
}

#[test]
fn emits_complete_datum_on_generic_field_port() {
    let mut node = StructuredFieldExtractorNode::new(extractor_spec(
        definition(vec![("id", text("fx")), ("pointer", text("/fields/0"))]),
        vec![port("fx", "data.field.v1")],
    ))
    .expect("valid config");
    let mut rt = runtime();
    let Ok(PacketForm::Packet(packet)) = node.on_input(
        "packet",
        DataPacket::StructuredPacket(Arc::new(structured_packet())),
    ) else {
        panic!("the packet");
    };
    let document = json(
        "{\"schema\":\"example.packet.v1\",\"fields\":[{\"name\":\"camera.intrinsics.fx\",\"value\":912.43}]}",
    );
    let part = json("{\"name\":\"camera.intrinsics.fx\",\"value\":912.43}");
    assert_eq!(node.locate(&document), [Some(&part)]);
    assert_eq!(node.locate(&json("{\"fields\":[]}")), [None]);
    node.extract(&packet, vec![FieldLookup::Found(Arc::new(datum()))], &mut rt)
        .expect("extract");
    let packets = emitted(&rt);
    let [("fx", DataPacket::TypedField { datum, generation: 1, .. })] = packets.as_slice() else {
        panic!("expected field");
    };
    assert_eq!(datum.name, "camera.intrinsics.fx");
    let source: Arc<TypedFieldSource> = Arc::new(typed_field_source(&structured_packet()));
    assert_eq!(
        DataPacket::TypedField {
            datum: Arc::clone(datum),
            generation: 1,
            source
        }
        .port_kind(),
        Some("data.field.v1")
    );
}

#[test]
fn parts_are_located_as_they_stand() {
    let node = StructuredFieldExtractorNode::new(extractor_spec(
        definition(vec![("id", text("fx")), ("pointer", text("/a~1b/m~0n"))]),
        vec![port("fx", "data.field.v1")],
    ))
    .expect("valid config");
    let bits = 0x3fd5_5555_5555_5555_u64;
    let mut inner = serde_json::Map::new();
    inner.insert("m~n".to_owned(), serde_json::Value::from(f64::from_bits(bits)));
    let mut outer = serde_json::Map::new();
    outer.insert("a/b".to_owned(), serde_json::Value::Object(inner));
    let document = serde_json::Value::Object(outer);
    let located = node.locate(&document);
    let found = located[0].and_then(|part| part.as_f64()).expect("number");
    assert_eq!(found.to_bits(), bits);

    let mut deep = serde_json::Value::Null;
    for _ in 0..200 {
        deep = serde_json::Value::Array(vec![deep]);
    }
    let mut outer = serde_json::Map::new();
    outer.insert("a".to_owned(), deep);
    let node = StructuredFieldExtractorNode::new(extractor_spec(
        definition(vec![("id", text("fx")), ("pointer", text("/a/0"))]),
        vec![port("fx", "data.field.v1")],
    ))
    .expect("valid config");
    assert!(node.locate(&serde_json::Value::Object(outer))[0].is_some());
}

#[test]
fn documents_are_read_before_they_are_extracted() {
    let mut node = StructuredFieldExtractorNode::new(extractor_spec(
        definition(vec![("id", text("fx")), ("pointer", text("/fields/0"))]),
        vec![port("fx", "data.field.v1")],
    ))
    .expect("valid config");
    assert!(matches!(
        node.on_input("packet", DataPacket::PacketData(Arc::new(text("wire")))),
        Ok(PacketForm::Document(document))
            if matches!(document.as_ref(), JsonValue::Text(text) if text == "wire")
    ));
    assert_eq!(
        node.on_input("other", DataPacket::PacketData(Arc::new(text("wire"))))
            .err(),
        Some(NodeError::Precondition(
            "structuredFieldExtractor received input on unknown port `other`".to_owned()
        ))
    );
    assert_eq!(
        node.on_input("packet", DataPacket::Json(Arc::new(text("wire"))))
            .err(),
        Some(NodeError::Precondition(
            "structuredFieldExtractor.packet requires data.packet.v1".to_owned()
        ))
    );
    assert_eq!(
        node.document_read(Ok(structured_packet()))
            .expect("packet")
            .schema,
        "example.packet.v1"
    );
    assert_eq!(
        node.document_read(Err(WireFault::Encoding("no text".to_owned())))
            .err(),
        Some(NodeError::Precondition(
            "data.packet.v1 cannot be encoded: no text".to_owned()
        ))
    );
    assert_eq!(
        node.document_read(Err(WireFault::Reading("missing field `schema`".to_owned())))
            .err(),
        Some(NodeError::Precondition(
            "structuredFieldExtractor.packet requires StructuredPacket wire JSON: missing field `schema`"
                .to_owned()
        ))
    );
}

#[test]
fn rejects_primitive_typed_port_or_config() {
    assert!(StructuredFieldExtractorNode::new(extractor_spec(
        definition(vec![
            ("id", text("fx")),
            ("pointer", text("/fields/0")),
            ("type", text("f64"))
        ]),
        vec![port("fx", "data.field.v1")],
    ))
    .is_err());
    assert!(StructuredFieldExtractorNode::new(extractor_spec(
        definition(vec![("id", text("fx")), ("pointer", text("/fields/0"))]),
        vec![port("fx", "data.field.f64.v1")],
    ))
    .is_err());
}

#[test]
fn pointers_follow_their_grammar() {
    assert!(validate_json_pointer("/a/~0/~1").is_ok());
    for wrong in ["", "a", "/a~", "/a~2"] {
        assert!(
            matches!(validate_json_pointer(wrong), Err(NodeError::Config(_))),
            "{wrong}"
        );
    }
}

#[test]
fn failed_lookups_end_the_extraction() {
    let mut node = StructuredFieldExtractorNode::new(extractor_spec(
        definition(vec![("id", text("fx")), ("pointer", text("/fields/0"))]),
        vec![port("fx", "data.field.v1")],
    ))
    .expect("valid config");
    let mut rt = runtime();
    for lookup in [
        FieldLookup::Missing,
        FieldLookup::NotADatum("why".to_owned()),
        FieldLookup::Invalid("why".to_owned()),
    ] {
        assert!(node
            .extract(&structured_packet(), vec![lookup], &mut rt)
            .is_err());
    }
    assert!(emitted(&rt).is_empty());
    assert_eq!(node.next_generation, 4);
    assert!(node
        .on_input("other", DataPacket::StructuredPacket(Arc::new(structured_packet())))
        .is_err());
    assert!(node
        .on_input("packet", DataPacket::Json(Arc::new(JsonValue::Null)))
        .is_err());
}

const IMAGE_BYTES: u16 = 64;

fn task() -> I2cTaskPacket {
    let image = vec![0_u8; usize::from(IMAGE_BYTES)];
    I2cTaskPacket {
        schema: TASK_SCHEMA.to_owned(),
        operation: TaskOperation::GuardedWrite,
        map_id: "yg-stereo-p24c64g-v1".to_owned(),
        map_digest: "sha256:map".to_owned(),
        target: I2cTaskTarget {
            bus: 0,
            address: 0x50,
            address_width_bytes: 2,
            page_size_bytes: 32,
            write_cycle_ms: 5,
        },
        read_ranges: vec![I2cReadRange {
            offset: 0,
            byte_len: IMAGE_BYTES,
        }],
        validation: I2cMapValidationContract {
            image_bytes: IMAGE_BYTES,
        },
        pages: vec![I2cPageWrite {
            offset: 0,
            bytes: image.clone(),
            settle_ms: 5,
        }],
        final_image: image,
        verify_after_write: true,
        final_image_digest: String::new(),
    }
    .with_digest()
}

#[test]
fn task_json_rejects_digest_mismatch_and_reconstructs_sealed_requests() {
    let parsed = parse_task(Ok(task())).expect("valid task");
    let read = parsed.read_request();
    assert_eq!(read.map_id, "yg-stereo-p24c64g-v1");
    assert_eq!(read.read_ranges, task().read_ranges);
    let write = parsed.write_request();
    assert_eq!(write.final_image, task().final_image);
    assert_eq!(write.pages.len(), 1);
    assert!(write.verify_after_write);
    let mut malformed = task();
    malformed.final_image_digest = "sha256:bad".to_owned();
    assert!(parse_task(Ok(malformed)).is_err());
}

#[test]
fn task_json_rejects_unknown_fields() {
    assert!(parse_task(Ok(task())).is_ok());
    assert_eq!(
        parse_task(Err("unknown field `mapYaml`".to_owned())).err(),
        Some(NodeError::Precondition(
            "invalid I2C task JSON: unknown field `mapYaml`".to_owned()
        ))
    );
}

#[test]
fn each_part_of_a_task_is_checked() {
    let cases: Vec<(I2cTaskFault, fn(&mut I2cTaskPacket))> = vec![
        (I2cTaskFault::Schema, |task| task.schema.push('x')),
        (I2cTaskFault::MapIdentity, |task| task.map_id = " ".to_owned()),
        (I2cTaskFault::Target, |task| task.target.address = 0x80),
        (I2cTaskFault::Target, |task| task.target.address_width_bytes = 3),
        (I2cTaskFault::ImageSize, |task| task.validation.image_bytes = 1),
        (I2cTaskFault::ImageDigest, |task| task.final_image[0] = 1),
        (I2cTaskFault::ReadRanges, |task| task.read_ranges[0].offset = 1),
        (I2cTaskFault::ReadRanges, |task| task.read_ranges.clear()),
        (I2cTaskFault::NoPages, |task| task.pages.clear()),
        (I2cTaskFault::PageLayout, |task| task.pages[0].settle_ms = 6),
        (I2cTaskFault::PageLayout, |task| task.pages[0].offset = 1),
    ];
    assert_eq!(task().validate(), Ok(()));
    for (fault, spoil) in cases {
        let mut spoiled = task();
        spoil(&mut spoiled);
        assert_eq!(spoiled.validate(), Err(fault), "{}", fault.describe());
    }
}

fn executor_spec() -> NodeSpec {
    let mut spec = node_spec("exec", "i2cTaskExecutor", object(vec![]));
    spec.inputs = vec![
        port("task", "data.packet.v1"),
        port("connection", "ssh.connection.v1"),
    ];
    spec
}

#[test]
fn executors_run_a_task_over_a_connection() {
    let mut rt = NodeRuntime::new(EngineServices {
        i2c_task_executor: true,
        ..EngineServices::default()
    });
    assert!(I2cTaskExecutorFactory
        .instantiate(node_spec("exec", "i2cTaskExecutor", object(vec![])))
        .is_err());
    let mut node = I2cTaskExecutorFactory.instantiate(executor_spec()).expect("node");
    assert!(matches!(
        node.on_action(custom("execute"), &mut rt),
        Err(NodeError::Precondition(_))
    ));
    assert!(matches!(
        node.on_action(NodeAction::Trigger, &mut rt),
        Err(NodeError::UnsupportedAction(_))
    ));
    assert!(matches!(
        node.on_input("task", DataPacket::PacketData(Arc::new(text("task"))), &mut rt),
        Ok(Some(document)) if matches!(document.as_ref(), JsonValue::Text(text) if text == "task")
    ));
    assert_eq!(
        node.on_input("connection", DataPacket::PacketData(Arc::new(text("task"))), &mut rt)
            .err(),
        Some(NodeError::Precondition(
            "i2cTaskExecutor accepts only task PacketData and SSH connection".to_owned()
        ))
    );
    assert_eq!(
        node.task_parsed(Err("unknown field `mapYaml`".to_owned()), &mut rt),
        Err(NodeError::Precondition(
            "invalid I2C task JSON: unknown field `mapYaml`".to_owned()
        ))
    );
    assert!(node.task.is_none());
    node.task_parsed(Ok(task()), &mut rt).expect("task");
    node.on_input(
        "connection",
        DataPacket::SshConnection(Arc::new(SshConnection { id: "c1".to_owned() })),
        &mut rt,
    )
    .expect("connection");
    let Ok(I2cCommand::Write { connection, request }) = node.on_action(custom("execute"), &mut rt)
    else {
        panic!("a guarded write");
    };
    assert_eq!(connection.id, "c1");
    assert_eq!(request.final_image.len(), usize::from(IMAGE_BYTES));
    node.write_finished(
        Ok(I2cExecutionReport {
            final_verified: true,
            detail: JsonValue::Null,
        }),
        &mut rt,
    )
    .expect("written");
    node.read_finished(
        Ok(I2cReadReport {
            valid: true,
            detail: JsonValue::Null,
        }),
        &mut rt,
    )
    .expect("read");
    assert!(emitted(&rt)
        .iter()
        .any(|(port, _)| *port == "readReport"));
    node.on_stop(&mut rt).expect("stop");
    assert!(node.task.is_none());
}

fn encoder_map() -> EncoderMap {
    EncoderMap {
        id: "map".to_owned(),
        bus: 1,
        i2c_address: 0x50,
        address_width_bits: 16,
        page_size_bytes: 32,
        write_cycle_ms: 5,
        slots: vec![
            MapSlot {
                name: "fx".to_owned(),
                required: true,
                storage: Some(SlotStorage {
                    offset: 0,
                    byte_len: 8,
                    encoding: "F64_LE".to_owned(),
                }),
            },
            MapSlot {
                name: "crc".to_owned(),
                required: true,
                storage: None,
            },
        ],
        read_ranges: vec![I2cReadRange {
            offset: 0,
            byte_len: 8,
        }],
        image_bytes: 8,
        readback_required: true,
    }
}

fn encoder_config() -> JsonValue {
    object(vec![(
        "inputs",
        JsonValue::Array(vec![object(vec![
            ("id", text("fx")),
            ("name", text("fx")),
            ("offset", JsonValue::Uint(0)),
            ("byteLength", JsonValue::Uint(8)),
            ("encoding", text(" f64-le ")),
        ])]),
    )])
}

fn encoder_spec() -> NodeSpec {
    let mut spec = node_spec("enc", "i2cFieldEncoder", encoder_config());
    spec.inputs = vec![port("fx", "data.field.v1")];
    spec.outputs = vec![port("task", "data.packet.v1")];
    spec
}

#[test]
fn encoders_turn_fields_into_a_sealed_task() {
    let compiled = || {
        Ok(CompiledMap {
            map: encoder_map(),
            description: b"map".to_vec(),
        })
    };
    let mut spec = encoder_spec();
    spec.outputs.clear();
    assert!(I2cFieldEncoderFactory.instantiate(spec, compiled()).is_err());
    let mut node = I2cFieldEncoderFactory
        .instantiate(encoder_spec(), compiled())
        .expect("node");
    let mut fx = datum();
    fx.name = "fx".to_owned();
    let data = node
        .on_input(
            "fx",
            DataPacket::TypedField {
                datum: Arc::new(fx),
                generation: 1,
                source: Arc::new(typed_field_source(&structured_packet())),
            },
        )
        .expect("field")
        .expect("complete");
    assert_eq!(data.len(), 1);
    let mut rt = runtime();
    let task = node
        .encoded(Ok(EncodedImage {
            bytes: vec![1; 8],
            pages: vec![EncodedPage {
                offset: 0,
                bytes: vec![1; 8],
            }],
        }))
        .expect("encoded");
    assert_eq!(task.validate(), Ok(()));
    assert_eq!(task.map_id, "map");
    assert!(task.map_digest.starts_with("sha256:"));
    let digest = task.final_image_digest.clone();
    assert_eq!(parse_task(Ok(task)).expect("taken").final_image_digest, digest);
    assert_eq!(
        node.encoded(Err("no fields".to_owned())).err(),
        Some(NodeError::Precondition(
            "I2C encoder rejected fields: no fields".to_owned()
        ))
    );
    assert_eq!(
        node.task_written(Err("no JSON".to_owned()), &mut rt),
        Err(NodeError::Execution("no JSON".to_owned()))
    );
    assert!(emitted(&rt).is_empty());
    node.task_written(Ok(text("task document")), &mut rt)
        .expect("written");
    assert!(matches!(
        emitted(&rt).last(),
        Some(("task", DataPacket::PacketData(document)))
            if matches!(document.as_ref(), JsonValue::Text(text) if text == "task document")
    ));
}

#[test]
fn encoder_configurations_are_read() {
    assert_eq!(parse_operation(&object(vec![])), Ok(TaskOperation::GuardedWrite));
    assert_eq!(
        parse_operation(&object(vec![("operation", text("read"))])),
        Ok(TaskOperation::Read)
    );
    assert!(parse_operation(&object(vec![("operation", text("erase"))])).is_err());
    assert_eq!(normalize_encoding(" F64-LE_x\u{130} "), "f64lexi\u{307}");
    assert!(matches!(
        map_source(&object(vec![])),
        Ok(MapSource::Builtin(id)) if id == "yg-stereo-p24c64g-v1"
    ));
    assert!(map_source(&object(vec![("mapMode", text("custom"))])).is_err());
    let tuned = encoder_map()
        .tune(&object(vec![
            ("bus", JsonValue::Uint(4)),
            ("address", JsonValue::Uint(0x51)),
        ]))
        .expect("tuned");
    assert_eq!((tuned.bus, tuned.i2c_address), (4, 0x51));
    assert_eq!(tuned.page_size_bytes, 32);
    assert!(encoder_map()
        .tune(&object(vec![("address", JsonValue::Uint(0x100))]))
        .is_err());
}

#[test]
fn encoder_maps_are_found_tuned_and_checked() {
    let config = object(vec![("address", JsonValue::Uint(0x51))]);
    let refused = |loaded| match compile_encoder_map(&config, loaded) {
        Err(NodeError::Config(text)) => text,
        other => panic!("unexpected: {other:?}"),
    };
    assert_eq!(refused(LoadedMap::Builtin(None)), "unsupported I2C map");
    assert_eq!(
        refused(LoadedMap::Custom(Err("line 3".to_owned()))),
        "I2C map compilation failed: line 3"
    );
    assert_eq!(
        compile_encoder_map(&object(vec![]), LoadedMap::Builtin(Some(encoder_map())))
            .expect_err("no address"),
        NodeError::Config("i2cFieldEncoder config `address` is required".to_owned())
    );
    let map = compile_encoder_map(&config, LoadedMap::Custom(Ok(encoder_map()))).expect("map");
    assert_eq!(map.i2c_address, 0x51);
    assert_eq!(
        CompiledMap::checked(map, Err("overlap".to_owned())).expect_err("invalid"),
        NodeError::Config("I2C encoder map is invalid: overlap".to_owned())
    );
    let compiled = CompiledMap::checked(encoder_map(), Ok(vec![7])).expect("compiled");
    assert_eq!(compiled.description, [7]);
}
