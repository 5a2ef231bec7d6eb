use camera_toolbox_app::engine::dataset::{
    CalibrationDataset, CalibrationDatasetSample, DatasetImageRef, DatasetSampleAcceptance,
    DatasetSampleScore,
};
use camera_toolbox_app::engine::node::{NodeAction, NodeError};
use camera_toolbox_app::engine::nodes::calibration_params::{
    CalibrationBoardConfig, CalibrationBoardParamsFactory, CameraInitialConfig,
    CameraInitialParamsFactory, CALIBRATION_BOARD_PARAMS_KIND, CAMERA_INITIAL_PARAMS_KIND,
};
use camera_toolbox_app::engine::nodes::calibration_solver::{
    CalibrationSolverFactory, CalibrationSolverNode,
};
use camera_toolbox_app::engine::nodes::detection::{
    decoded_byte_limit, frame_to_rgba, ChessboardDetectorFactory, ChessboardDetectorNode,
};
use camera_toolbox_app::engine::nodes::pose_estimator::{
    PoseEstimatorFactory, PoseEstimatorNode,
};
use camera_toolbox_app::engine::packet::{
    CalibrationBoardKind, CalibrationBoardParams, CalibrationVector3, CameraModelKind,
    CameraModelParams, DataPacket, DetectionPacket, DetectionPoseConvention, DistortionModelKind,
    DistortionModelParams, FrameProvenance, ImageFrame, ImageFrameFormat, ImageFrameIdentity,
    ImagePlane,
};
use camera_toolbox_app::engine::runtime::{EngineServices, EventPart, NodeRuntime, RuntimeEffect};
use camera_toolbox_app::engine::spec::{NodeRuntimeState, NodeSpec, PortCardinality, PortSpec};
use camera_toolbox_app::ieee::{Real32, Real64};
use camera_toolbox_app::json::{JsonMember, JsonValue};
use camera_toolbox_app::model::{
    BoardSpec, CalibrationImageSize, CalibrationPoint, CalibrationSolution, ChessboardDetection,
    ChessboardDetectionOutcome, ViewCalibrationResult,
};
use camera_toolbox_app::source::{SourcePts, StreamSessionId};
use std::sync::Arc;

fn object(members: Vec<(&str, JsonValue)>) -> JsonValue {
    JsonValue::Object(
        members
            .into_iter()
            .map(|(name, value)| JsonMember::new(name, value))
            .collect(),
    )
}

fn number(x: f64) -> Real64 {
    Real64::from_bits(x.to_bits())
}

fn value(x: Real64) -> f64 {
    f64::from_bits(x.bits)
}

fn point(x: f32, y: f32) -> CalibrationPoint {
    CalibrationPoint {
        x: Real32::from_bits(x.to_bits()),
        y: Real32::from_bits(y.to_bits()),
    }
}

fn port(id: &str, kind: &str) -> PortSpec {
    PortSpec {
        id: id.to_owned(),
        label: id.to_owned(),
        kind: kind.to_owned(),
        cardinality: PortCardinality::One,
        required: false,
    }
}

fn node_spec(kind: &str, outputs: Vec<PortSpec>, config: JsonValue) -> NodeSpec {
    NodeSpec {
        id: format!("{kind}-1"),
        kind: kind.to_owned(),
        title: kind.to_owned(),
        inputs: vec![],
        outputs,
        config,
    }
}

fn solver_spec() -> NodeSpec {
    node_spec(
        "calibrationSolver",
        vec![port("solution", "calib.solution")],
        object(vec![
            ("imageWidth", JsonValue::Uint(1920)),
            ("imageHeight", JsonValue::Uint(1080)),
            ("boardCols", JsonValue::Uint(8)),
            ("boardRows", JsonValue::Uint(11)),
            ("squareSizeMm", JsonValue::Real(number(30.0))),
            ("fx", JsonValue::Real(number(1234.56))),
            ("fy", JsonValue::Real(number(1234.56))),
            ("cx", JsonValue::Real(number(960.0))),
            ("cy", JsonValue::Real(number(540.0))),
        ]),
    )
}

fn solver() -> CalibrationSolverNode {
    CalibrationSolverFactory.instantiate(solver_spec())
}

fn runtime() -> NodeRuntime {
    NodeRuntime::new(EngineServices::default())
}

fn calibrating() -> NodeRuntime {
    NodeRuntime::new(EngineServices {
        calibration: true,
        image_codec: true,
        ..EngineServices::default()
    })
}

fn emitted(rt: &NodeRuntime) -> Vec<(&str, &DataPacket)> {
    rt.log
        .iter()
        .filter_map(|effect| match effect {
            RuntimeEffect::Emit { port, packet } => Some((port.as_str(), packet)),
            _ => None,
        })
        .collect()
}

fn last_state(rt: &NodeRuntime) -> Option<NodeRuntimeState> {
    rt.log.iter().rev().find_map(|effect| match effect {
        RuntimeEffect::State { state, .. } => Some(*state),
        _ => None,
    })
}

fn last_event(rt: &NodeRuntime) -> Option<String> {
    rt.log.iter().rev().find_map(|effect| match effect {
        RuntimeEffect::Event { parts } => match parts.as_slice() {
            [EventPart::Text(text)] => Some(text.clone()),
            _ => None,
        },
        _ => None,
    })
}

fn full_board(x: f32, y: f32) -> ChessboardDetection {
    ChessboardDetection {
        image_size: CalibrationImageSize::new(1920, 1080).expect("image size"),
        corners: vec![point(x, y); 88],
    }
}

fn rich_dataset_sample(
    id: &str,
    detection: ChessboardDetection,
    accepted: bool,
    enabled: bool,
) -> CalibrationDatasetSample {
    CalibrationDatasetSample {
        id: id.to_owned(),
        image_ref: DatasetImageRef {
            reference: format!("runtime://frame/{id}"),
            width: detection.image_size.width,
            height: detection.image_size.height,
            format: Some("GRAY8".to_owned()),
        },
        detection: Arc::new(detection),
        score: Some(DatasetSampleScore {
            score: number(0.5),
            frame_sequence: 1,
        }),
        acceptance: DatasetSampleAcceptance { accepted, enabled },
        provenance: object(vec![
            ("source", object(vec![("kind", JsonValue::string("test"))])),
            (
                "frameIdentity",
                object(vec![("frameSequence", JsonValue::Uint(1))]),
            ),
        ]),
    }
}

fn dataset(samples: Vec<CalibrationDatasetSample>) -> DataPacket {
    DataPacket::Dataset(Arc::new(CalibrationDataset {
        kind: "calib.dataset.v1".to_owned(),
        board: JsonValue::Null,
        count: samples.len(),
        samples,
        selected_sample_id: None,
    }))
}

fn solution_for(size: CalibrationImageSize) -> CalibrationSolution {
    CalibrationSolution {
        image_size: size,
        camera_matrix: [1.0, 0.0, 0.0, 0.0, 1.0, 0.0, 0.0, 0.0, 1.0].map(number),
        distortion_coefficients: vec![number(0.0); 12],
        rms_error: number(0.0),
        calibration_flags: 0,
        views: vec![],
    }
}

#[test]
fn board_node_emits_valid_default_packet_on_trigger() {
    let mut node = CalibrationBoardParamsFactory.instantiate(
        node_spec(
            CALIBRATION_BOARD_PARAMS_KIND,
            vec![port("board", "calib.board.params")],
            object(vec![]),
        ),
        Ok(CalibrationBoardConfig::default()),
    );
    let mut rt = runtime();
    node.on_start(&mut rt).expect("default config is valid");
    node.on_action(NodeAction::Trigger, &mut rt)
        .expect("trigger emits board params");

    let packets = emitted(&rt);
    let [("board", DataPacket::CalibrationBoardParams(params))] = packets.as_slice() else {
        panic!("expected a board parameters packet");
    };
    assert_eq!(params.board_kind, CalibrationBoardKind::Chessboard);
    assert_eq!(params.cols, 11);
    assert_eq!(params.rows, 8);
    assert_eq!(value(params.square_size_mm), 40.0);
}

#[test]
fn camera_node_emits_pinhole_and_none_distortion_defaults_on_trigger() {
    let mut node = CameraInitialParamsFactory.instantiate(
        node_spec(
            CAMERA_INITIAL_PARAMS_KIND,
            vec![
                port("cameraModel", "calib.camera.model"),
                port("distortionModel", "calib.distortion.model"),
            ],
            object(vec![]),
        ),
        Ok(CameraInitialConfig::default()),
    );
    let mut rt = runtime();
    node.on_start(&mut rt).expect("default config is valid");
    node.on_action(NodeAction::Trigger, &mut rt)
        .expect("trigger emits camera parameters");

    let packets = emitted(&rt);
    let [("cameraModel", DataPacket::CameraModelParams(camera)), ("distortionModel", DataPacket::DistortionModelParams(distortion))] =
        packets.as_slice()
    else {
        panic!("expected camera and distortion parameter packets");
    };
    assert_eq!(camera.model, CameraModelKind::Pinhole);
    assert_eq!(
        (
            value(camera.fx),
            value(camera.fy),
            value(camera.cx),
            value(camera.cy)
        ),
        (900.0, 900.0, 960.0, 540.0)
    );
    assert_eq!(
        camera.image_size,
        Some(CalibrationImageSize::new(1_920, 1_080).expect("valid default size"))
    );
    assert_eq!(distortion.model, DistortionModelKind::Undistorted);
    assert!(distortion.coefficients.is_empty());
}

#[test]
fn invalid_config_update_keeps_last_valid_board_config() {
    let mut node = CalibrationBoardParamsFactory.instantiate(
        node_spec(
            CALIBRATION_BOARD_PARAMS_KIND,
            vec![port("board", "calib.board.params")],
            object(vec![("boardCols", JsonValue::Uint(11))]),
        ),
        Ok(CalibrationBoardConfig {
            board_cols: 11,
            ..CalibrationBoardConfig::default()
        }),
    );
    let mut rt = runtime();
    let error = node.on_config_update(
        object(vec![("boardCols", JsonValue::Uint(1))]),
        Ok(CalibrationBoardConfig {
            board_cols: 1,
            ..CalibrationBoardConfig::default()
        }),
        &mut rt,
    );
    assert!(matches!(error, Err(NodeError::Config(_))));
    node.on_action(NodeAction::Trigger, &mut rt)
        .expect("old valid config remains active");

    let packets = emitted(&rt);
    let [(_, DataPacket::CalibrationBoardParams(params))] = packets.as_slice() else {
        panic!("expected a board parameters packet");
    };
    assert_eq!(params.cols, 11);
}

#[test]
fn unreadable_parameter_configs_are_config_errors() {
    let mut rt = runtime();
    let mut board = CalibrationBoardParamsFactory.instantiate(
        node_spec(CALIBRATION_BOARD_PARAMS_KIND, vec![], object(vec![])),
        Err("no number".to_owned()),
    );
    assert_eq!(
        board.on_start(&mut rt),
        Err(NodeError::Config(
            "calibrationBoardParams config is invalid: no number".to_owned()
        ))
    );
    let mut camera = CameraInitialParamsFactory.instantiate(
        node_spec(CAMERA_INITIAL_PARAMS_KIND, vec![], object(vec![])),
        Ok(CameraInitialConfig {
            image_width: 0,
            ..CameraInitialConfig::default()
        }),
    );
    assert!(matches!(camera.on_start(&mut rt), Err(NodeError::Config(_))));
    assert!(rt.log.is_empty());
    assert!(matches!(
        camera.on_action(NodeAction::Connect, &mut rt),
        Err(NodeError::UnsupportedAction(_))
    ));
}

#[test]
fn calibration_solver_factory_instantiates_with_expected_kind() {
    assert_eq!(CalibrationSolverFactory.kind(), "calibrationSolver");
    assert_eq!(solver().spec.kind, "calibrationSolver");
}

#[test]
fn calibration_solver_on_start_reports_ready() {
    let mut rt = runtime();
    solver().on_start(&mut rt).expect("on_start");
    assert_eq!(last_state(&rt), Some(NodeRuntimeState::Ready));
}

#[test]
fn build_request_reads_scalar_config_defaults() {
    let request = solver().build_request(vec![]).expect("build request");
    assert_eq!(request.image_size.width, 1920);
    assert_eq!(request.image_size.height, 1080);
    assert_eq!(request.board.inner_cols, 8);
    assert_eq!(request.board.inner_rows, 11);
    assert_eq!(
        request.initial_intrinsics.distortion_coefficients,
        vec![number(0.0); 12]
    );

    let mut bare = solver();
    bare.spec.config = object(vec![]);
    let request = bare.build_request(vec![vec![point(1.0, 2.0)]]).expect("defaults");
    assert_eq!(
        request.initial_intrinsics.camera_matrix.map(value),
        [1234.56, 0.0, 960.0, 0.0, 1234.56, 540.0, 0.0, 0.0, 1.0]
    );
    assert_eq!(value(request.board.square_size), 30.0);
    assert_eq!(request.image_points, [[point(1.0, 2.0)]]);
}

#[test]
fn config_update_changes_solver_request_contract() {
    let mut rt = runtime();
    let mut node = solver();
    node.on_config_update(
        object(vec![
            ("imageWidth", JsonValue::Uint(1280)),
            ("imageHeight", JsonValue::Uint(720)),
            ("boardCols", JsonValue::Uint(7)),
            ("boardRows", JsonValue::Uint(6)),
            ("squareSizeMm", JsonValue::Real(number(24.0))),
            ("fx", JsonValue::Real(number(500.0))),
            ("fy", JsonValue::Real(number(510.0))),
            ("cx", JsonValue::Real(number(640.0))),
            ("cy", JsonValue::Real(number(360.0))),
        ]),
        &mut rt,
    )
    .expect("update solver config");
    let request = node.build_request(vec![]).expect("build updated request");
    assert_eq!(request.image_size.width, 1280);
    assert_eq!(request.image_size.height, 720);
    assert_eq!(request.board.inner_cols, 7);
    assert_eq!(request.board.inner_rows, 6);
    assert_eq!(value(request.initial_intrinsics.camera_matrix[0]), 500.0);
    assert_eq!(value(request.initial_intrinsics.camera_matrix[2]), 640.0);

    for bad in [
        ("imageWidth", JsonValue::Uint(0)),
        ("boardRows", JsonValue::Uint(1)),
        ("fx", JsonValue::Real(number(-1.0))),
    ] {
        assert!(matches!(
            node.on_config_update(object(vec![bad]), &mut rt),
            Err(NodeError::Config(_))
        ));
        assert_eq!(node.spec.config.get_u64("boardCols"), Some(7));
    }
}

#[test]
fn parameter_packets_override_legacy_solver_config() {
    let mut rt = runtime();
    let mut node = solver();
    node.on_input(
        "board",
        DataPacket::CalibrationBoardParams(Arc::new(CalibrationBoardParams::default())),
        &mut rt,
    )
    .expect("board input");
    node.on_input(
        "cameraModel",
        DataPacket::CameraModelParams(Arc::new(CameraModelParams::default())),
        &mut rt,
    )
    .expect("camera input");
    node.on_input(
        "distortionModel",
        DataPacket::DistortionModelParams(Arc::new(DistortionModelParams::default())),
        &mut rt,
    )
    .expect("distortion input");
    let request = node
        .build_request(vec![])
        .expect("request from parameter packets");
    assert_eq!(
        (
            request.board.inner_cols,
            request.board.inner_rows,
            value(request.board.square_size)
        ),
        (11, 8, 40.0)
    );
    assert_eq!(value(request.initial_intrinsics.camera_matrix[0]), 900.0);
    assert_eq!(
        request.initial_intrinsics.distortion_coefficients,
        vec![number(0.0); 5]
    );
}

#[test]
fn unusable_parameter_packets_are_preconditions() {
    let mut rt = runtime();
    let mut node = solver();
    node.on_input(
        "cameraModel",
        DataPacket::CameraModelParams(Arc::new(CameraModelParams {
            fx: number(0.0),
            ..CameraModelParams::default()
        })),
        &mut rt,
    )
    .expect("camera input");
    assert_eq!(
        node.build_request(vec![]).expect_err("focal length").describe(),
        "node precondition unmet: invalid camera parameters: focal lengths must be finite and positive"
    );
    node.on_input(
        "board",
        DataPacket::CalibrationBoardParams(Arc::new(CalibrationBoardParams {
            rows: 1,
            ..CalibrationBoardParams::default()
        })),
        &mut rt,
    )
    .expect("board input");
    assert_eq!(
        node.build_request(vec![]).expect_err("board").describe(),
        "node precondition unmet: invalid board parameters: board needs at least two inner corners in both directions"
    );
    for (port, text) in [
        ("dataset", "calibrationSolver.dataset requires calib.dataset"),
        ("board", "calibrationSolver.board requires calib.board.params"),
        ("cameraModel", "calibrationSolver.cameraModel requires calib.camera.model"),
        (
            "distortionModel",
            "calibrationSolver.distortionModel requires calib.distortion.model",
        ),
    ] {
        assert_eq!(
            node.on_input(port, DataPacket::Json(Arc::new(JsonValue::Null)), &mut rt),
            Err(NodeError::Precondition(text.to_owned()))
        );
    }
}

#[test]
fn rich_dataset_only_accepted_enabled_samples_become_calibration_image_points() {
    let mut rt = runtime();
    let mut node = solver();
    node.on_input(
        "dataset",
        dataset(vec![
            rich_dataset_sample("active", full_board(12.0, 24.0), true, true),
            rich_dataset_sample("rejected", full_board(48.0, 96.0), false, true),
            rich_dataset_sample("disabled", full_board(120.0, 240.0), true, false),
        ]),
        &mut rt,
    )
    .expect("accept rich dataset");
    let request = node
        .build_request(vec![vec![point(0.0, 0.0)]])
        .expect("build request");
    assert_eq!(request.image_points, vec![vec![point(12.0, 24.0); 88]]);
    request.validate().expect("a request from a dataset is valid");
}

#[test]
fn dataset_without_accepted_enabled_samples_is_rejected() {
    let mut rt = runtime();
    let mut node = solver();
    node.on_input(
        "dataset",
        dataset(vec![rich_dataset_sample(
            "rejected",
            full_board(12.0, 24.0),
            false,
            true,
        )]),
        &mut rt,
    )
    .expect("accept rich dataset");
    let error = node
        .build_request(vec![])
        .expect_err("no accepted/enabled samples");
    assert!(matches!(error, NodeError::Precondition(_)));
}

#[test]
fn samples_that_do_not_fit_are_named() {
    let mut rt = runtime();
    let mut node = solver();
    let mut short = full_board(1.0, 1.0);
    short.corners.pop();
    node.on_input(
        "dataset",
        dataset(vec![rich_dataset_sample("short", short, true, true)]),
        &mut rt,
    )
    .expect("accept rich dataset");
    assert_eq!(
        node.build_request(vec![]).expect_err("corner count").describe(),
        "node precondition unmet: dataset sample `short` is invalid for active board: view has 87 corners instead of 88"
    );
    let mut small = full_board(1.0, 1.0);
    small.image_size = CalibrationImageSize::new(640, 480).expect("size");
    node.on_input(
        "dataset",
        dataset(vec![rich_dataset_sample("small", small, true, true)]),
        &mut rt,
    )
    .expect("accept rich dataset");
    assert_eq!(
        node.build_request(vec![]).expect_err("size").describe(),
        "node precondition unmet: dataset sample `small` image size CalibrationImageSize { width: 640, height: 480 } does not match active CalibrationImageSize { width: 1920, height: 1080 }"
    );
}

#[test]
fn trigger_without_backend_is_precondition() {
    let mut rt = runtime();
    let error = solver()
        .on_action(NodeAction::Trigger, vec![], &mut rt)
        .expect_err("no backend");
    assert!(matches!(error, NodeError::Precondition(_)), "got {error:?}");
}

#[test]
fn trigger_solves_and_emits_solution() {
    let size = CalibrationImageSize::new(1920, 1080).expect("size");
    let mut rt = calibrating();
    let mut node = solver();
    let request = node
        .on_action(NodeAction::Trigger, vec![], &mut rt)
        .expect("trigger");
    assert_eq!(request.image_size, size);
    assert_eq!(last_state(&rt), Some(NodeRuntimeState::Running));
    node.solved(Ok(solution_for(size)), &mut rt).expect("solved");

    let packets = emitted(&rt);
    assert_eq!(packets.len(), 1, "solution must be emitted once");
    assert!(matches!(packets[0], ("solution", DataPacket::Solution(_))));
    assert_eq!(last_state(&rt), Some(NodeRuntimeState::Idle));
    assert_eq!(
        node.solved(Err("singular".to_owned()), &mut rt),
        Err(NodeError::Execution("singular".to_owned()))
    );
}

#[test]
fn calibration_solver_unsupported_action_is_error() {
    let mut rt = runtime();
    let error = solver()
        .on_action(NodeAction::Connect, vec![], &mut rt)
        .expect_err("unsupported");
    assert!(matches!(error, NodeError::UnsupportedAction(_)));
}

#[test]
fn on_stop_reports_idle() {
    let mut rt = runtime();
    solver().on_stop(&mut rt).expect("on_stop");
    assert_eq!(last_state(&rt), Some(NodeRuntimeState::Idle));
}

fn pose_detection() -> DataPacket {
    DataPacket::Detection(Arc::new(DetectionPacket {
        detection: Arc::new(ChessboardDetection {
            image_size: CalibrationImageSize::new(1920, 1080).expect("image size"),
            corners: vec![point(10.0, 20.0); 88],
        }),
        frame_identity: ImageFrameIdentity {
            provenance: FrameProvenance::Unknown {
                reason: "test".to_owned(),
            },
            frame_sequence: 7,
            source_pts: SourcePts::Unavailable {
                reason: "test".to_owned(),
            },
            host_monotonic_time_ns: 1,
            device_timestamp_ns: None,
        },
    }))
}

fn metres(node: &PoseEstimatorNode) -> Real64 {
    number(node.square_size_mm().map_or(0.0, value) / 1000.0)
}

#[test]
fn incomplete_inputs_never_emit_placeholder_pose() {
    let mut rt = runtime();
    let mut estimator = PoseEstimatorFactory.instantiate();
    for (port, packet) in [
        ("detection", pose_detection()),
        (
            "board",
            DataPacket::CalibrationBoardParams(Arc::new(CalibrationBoardParams::default())),
        ),
        (
            "cameraModel",
            DataPacket::CameraModelParams(Arc::new(CameraModelParams::default())),
        ),
    ] {
        assert!(estimator.on_input(port, packet).expect("pending input is accepted"));
        let length = metres(&estimator);
        assert!(estimator.try_estimate(length, &mut rt).expect("waiting").is_none());
    }
    assert!(emitted(&rt).is_empty());

    assert!(estimator
        .on_input(
            "distortionModel",
            DataPacket::DistortionModelParams(Arc::new(DistortionModelParams::default())),
        )
        .expect("last input is accepted"));
    let length = metres(&estimator);
    let error = estimator
        .try_estimate(length, &mut rt)
        .expect_err("missing backend must not yield a fake pose");
    assert!(matches!(error, NodeError::Precondition(_)));
    assert!(emitted(&rt).is_empty());
}

#[test]
fn complete_inputs_emit_meter_t_camera_board_pose() {
    let mut rt = calibrating();
    let mut estimator = PoseEstimatorFactory.instantiate();
    let mut boards = Vec::new();
    for (port, packet) in [
        (
            "board",
            DataPacket::CalibrationBoardParams(Arc::new(CalibrationBoardParams::default())),
        ),
        (
            "cameraModel",
            DataPacket::CameraModelParams(Arc::new(CameraModelParams::default())),
        ),
        (
            "distortionModel",
            DataPacket::DistortionModelParams(Arc::new(DistortionModelParams::default())),
        ),
        ("detection", pose_detection()),
    ] {
        assert!(estimator.on_input(port, packet).expect("valid input"));
        let length = metres(&estimator);
        if let Some(request) = estimator.try_estimate(length, &mut rt).expect("valid input") {
            boards.push(request.board);
            estimator
                .estimated(
                    &request,
                    Ok(ViewCalibrationResult {
                        rotation_vector: [0.1, 0.2, 0.3].map(number),
                        translation_vector: [1.0, 2.0, 3.0].map(number),
                        projected_points: Vec::new(),
                        reprojection_rmse: number(0.5),
                        max_reprojection_error: number(0.8),
                    }),
                    &mut rt,
                )
                .expect("pose");
        }
    }
    let packets = emitted(&rt);
    let [("pose", DataPacket::DetectionPose(pose))] = packets.as_slice() else {
        panic!("complete inputs must emit one pose");
    };
    assert_eq!(pose.convention, DetectionPoseConvention::TCameraBoard);
    assert_eq!(
        pose.translation_m,
        CalibrationVector3::new(number(1.0), number(2.0), number(3.0))
    );
    assert_eq!(
        pose.rotation_rodrigues,
        CalibrationVector3::new(number(0.1), number(0.2), number(0.3))
    );
    assert_eq!(pose.reprojection_error_px, Some(number(0.5)));
    assert_eq!(pose.frame_identity.frame_sequence, 7);
    assert_eq!(boards.len(), 1);
    assert_eq!(value(boards[0].square_size), 0.04);
}

#[test]
fn pose_results_that_are_not_finite_are_refused() {
    let mut rt = calibrating();
    let mut estimator = PoseEstimatorFactory.instantiate();
    for (port, packet) in [
        (
            "board",
            DataPacket::CalibrationBoardParams(Arc::new(CalibrationBoardParams::default())),
        ),
        (
            "cameraModel",
            DataPacket::CameraModelParams(Arc::new(CameraModelParams::default())),
        ),
        (
            "distortionModel",
            DataPacket::DistortionModelParams(Arc::new(DistortionModelParams::default())),
        ),
        ("detection", pose_detection()),
    ] {
        estimator.on_input(port, packet).expect("valid input");
    }
    let request = estimator
        .try_estimate(number(0.04), &mut rt)
        .expect("complete")
        .expect("request");
    let reply = |x: f64| {
        Ok(ViewCalibrationResult {
            rotation_vector: [0.1, 0.2, 0.3].map(number),
            translation_vector: [x, 2.0, 3.0].map(number),
            projected_points: Vec::new(),
            reprojection_rmse: number(0.5),
            max_reprojection_error: number(0.8),
        })
    };
    assert_eq!(
        estimator.estimated(&request, reply(f64::NAN), &mut rt),
        Err(NodeError::Execution(
            "invalid PnP result: pose must be finite".to_owned()
        ))
    );
    assert_eq!(
        estimator.estimated(&request, Err("no view".to_owned()), &mut rt),
        Err(NodeError::Execution("no view".to_owned()))
    );
    assert!(matches!(
        estimator.try_estimate(number(0.0), &mut rt),
        Err(NodeError::Precondition(_))
    ));
    assert!(matches!(
        estimator.on_input("board", DataPacket::Json(Arc::new(JsonValue::Null))),
        Err(NodeError::Precondition(_))
    ));
    assert_eq!(
        estimator.on_input("other", DataPacket::Json(Arc::new(JsonValue::Null))),
        Ok(false)
    );
}

fn detector_spec() -> NodeSpec {
    node_spec(
        "chessboardDetector",
        vec![port("overlay", "viewer.layer.overlay.v1")],
        object(vec![]),
    )
}

fn detector() -> ChessboardDetectorNode {
    ChessboardDetectorFactory.instantiate(detector_spec())
}

fn detector_identity() -> ImageFrameIdentity {
    ImageFrameIdentity {
        provenance: FrameProvenance::Stream {
            stream_id: StreamSessionId::new("detector-test").expect("session id"),
            channel: 0,
        },
        frame_sequence: 0,
        source_pts: SourcePts::Unavailable {
            reason: "test".to_owned(),
        },
        host_monotonic_time_ns: 123,
        device_timestamp_ns: None,
    }
}

fn planes(format: ImageFrameFormat, width: u32, height: u32, planes: Vec<ImagePlane>) -> ImageFrame {
    ImageFrame {
        width,
        height,
        format,
        planes,
        identity: detector_identity(),
        raw: None,
    }
}

fn detector_frame(width: u32, height: u32) -> DataPacket {
    if width == 0 || height == 0 {
        return DataPacket::ImageFrame(Arc::new(planes(
            ImageFrameFormat::Rgba8,
            width,
            height,
            Vec::new(),
        )));
    }
    let byte_len = width.saturating_mul(height).saturating_mul(4) as usize;
    DataPacket::ImageFrame(Arc::new(
        ImageFrame::new(
            width,
            height,
            ImageFrameFormat::Rgba8,
            vec![ImagePlane::new(vec![0u8; byte_len], width.saturating_mul(4))],
            detector_identity(),
            None,
        )
        .expect("valid frame"),
    ))
}

#[test]
fn detection_factory_instantiates_with_expected_kind() {
    assert_eq!(ChessboardDetectorFactory.kind(), "chessboardDetector");
    assert_eq!(detector().spec.kind, "chessboardDetector");
}

#[test]
fn overlay_output_records_chessboard_drawing_payload() {
    let mut rt = runtime();
    let node = detector();
    let board = BoardSpec::new(2, 2, number(30.0)).expect("board");
    let detection = ChessboardDetection {
        image_size: CalibrationImageSize::new(640, 480).expect("image size"),
        corners: vec![
            point(10.0, 20.0),
            point(30.0, 20.0),
            point(30.0, 40.0),
            point(10.0, 40.0),
        ],
    };
    node.emit_found_overlay(&mut rt, &detector_identity(), &detection, board)
        .expect("overlay emits");

    let packets = emitted(&rt);
    assert_eq!(packets.len(), 1);
    let DataPacket::Json(overlay) = packets[0].1 else {
        panic!("overlay must be JSON");
    };
    assert_eq!(overlay.get_str("kind"), Some("calib.chessboard.overlay.v1"));
    assert_eq!(overlay.get_str("schema"), Some("viewer.layer.overlay.v1"));
    assert_eq!(overlay.get_bool("found"), Some(true));
    assert_eq!(overlay.get_str("status"), Some("found"));
    assert_eq!(overlay.get_u64("frameSequence"), Some(0));
    let size = overlay.get("imageSize").expect("image size");
    assert_eq!(size.get_u64("width"), Some(640));
    assert_eq!(size.get_u64("height"), Some(480));
    let corners = overlay.get("corners").and_then(JsonValue::as_array).expect("corners");
    assert_eq!(corners.len(), 4);
    assert_eq!(corners[1].get_real("x").map(value), Some(30.0));
    let outline = overlay.get("outline").and_then(JsonValue::as_array).expect("outline");
    assert_eq!(outline.len(), 4);
    assert_eq!(outline[2].get_real("y").map(value), Some(40.0));
    assert_eq!(outline[3].get_real("x").map(value), Some(30.0));
}

#[test]
fn missing_image_codec_is_precondition() {
    let mut rt = runtime();
    let error = detector()
        .on_input("image", detector_frame(2, 2), &mut rt)
        .expect_err("missing image_codec must be a precondition error");
    assert!(matches!(error, NodeError::Precondition(_)), "got {error:?}");
}

#[test]
fn empty_frame_is_skipped_without_services() {
    let mut rt = runtime();
    assert!(detector()
        .on_input("image", detector_frame(0, 0), &mut rt)
        .is_ok());
    assert_eq!(
        last_event(&rt).as_deref(),
        Some("skipped empty or malformed frame")
    );
}

#[test]
fn rtsp_frames_image_frame_triggers_detection_path() {
    let mut rt = runtime();
    let error = detector()
        .on_input("frames", detector_frame(2, 2), &mut rt)
        .expect_err("RTSP frames as ImageFrame must reach detection and fail on missing services");
    assert!(matches!(error, NodeError::Precondition(_)), "got {error:?}");
}

#[test]
fn detection_runs_from_frame_to_packets() {
    let mut rt = calibrating();
    let mut node = detector();
    let job = node
        .on_input("image", detector_frame(2, 3), &mut rt)
        .expect("frame")
        .expect("job");
    assert_eq!(job.pixels.len(), 24);
    assert_eq!(job.decoded_byte_limit, 24);
    assert_eq!(
        node.encoded(Err("disk".to_owned()), &mut rt).err(),
        Some(NodeError::Execution("disk".to_owned()))
    );
    let board = node.encoded(Ok(()), &mut rt).expect("board");
    assert_eq!((board.inner_cols, board.inner_rows), (8, 11));
    assert_eq!(last_state(&rt), Some(NodeRuntimeState::Running));
    node.detected(
        &job.frame_identity,
        board,
        Ok(ChessboardDetectionOutcome::NotFound {
            image_size: job.image_size,
        }),
        &mut rt,
    )
    .expect("not found");
    assert_eq!(
        last_event(&rt).as_deref(),
        Some("chessboard not found in CalibrationImageSize { width: 2, height: 3 } frame")
    );
    assert!(emitted(&rt).is_empty());
    node.detected(
        &job.frame_identity,
        board,
        Ok(ChessboardDetectionOutcome::Found(full_board(1.0, 2.0))),
        &mut rt,
    )
    .expect("found");
    let packets = emitted(&rt);
    assert!(matches!(packets[0], ("detection", DataPacket::Detection(_))));
    assert!(matches!(packets[1], ("overlay", DataPacket::Json(_))));
    assert_eq!(last_state(&rt), Some(NodeRuntimeState::Idle));
}

#[test]
fn frames_become_packed_rgba() {
    let padded = planes(
        ImageFrameFormat::Rgba8,
        1,
        2,
        vec![ImagePlane::new(vec![1, 2, 3, 4, 9, 9, 5, 6, 7, 8], 6)],
    );
    assert_eq!(frame_to_rgba(&padded).expect("padded"), [1, 2, 3, 4, 5, 6, 7, 8]);
    let grey = planes(
        ImageFrameFormat::Gray8,
        2,
        1,
        vec![ImagePlane::new(vec![10, 20, 99], 3)],
    );
    assert_eq!(
        frame_to_rgba(&grey).expect("grey"),
        [10, 10, 10, 255, 20, 20, 20, 255]
    );
    let deep = planes(
        ImageFrameFormat::Gray16Le,
        2,
        1,
        vec![ImagePlane::new(vec![1, 200, 2, 100], 4)],
    );
    assert_eq!(
        frame_to_rgba(&deep).expect("deep"),
        [200, 200, 200, 255, 100, 100, 100, 255]
    );
    let short = planes(
        ImageFrameFormat::Gray8,
        4,
        2,
        vec![ImagePlane::new(vec![0; 7], 4)],
    );
    assert_eq!(
        frame_to_rgba(&short),
        Err(NodeError::Execution(
            "frame plane layout is inconsistent".to_owned()
        ))
    );
    let none = planes(ImageFrameFormat::Gray8, 4, 2, vec![]);
    assert_eq!(
        frame_to_rgba(&none),
        Err(NodeError::Precondition(
            "Gray8 image is missing its pixel plane".to_owned()
        ))
    );
    assert!(matches!(
        frame_to_rgba(&planes(ImageFrameFormat::Nv12, 2, 2, vec![])),
        Err(NodeError::Precondition(text)) if text.contains("NV12")
    ));
    assert!(matches!(
        frame_to_rgba(&planes(ImageFrameFormat::BayerRaw, 2, 2, vec![])),
        Err(NodeError::Precondition(text)) if text.contains("Demosaic")
    ));
}

#[test]
fn byte_budget_is_four_bytes_for_each_pixel() {
    let size = |width, height| CalibrationImageSize { width, height };
    assert_eq!(decoded_byte_limit(size(640, 480)), Ok(1_228_800));
    assert_eq!(
        decoded_byte_limit(size(u32::MAX, u32::MAX)),
        Err(NodeError::Execution(
            "image dimensions overflow byte budget".to_owned()
        ))
    );
}

#[test]
fn single_precision_numbers_widen_exactly() {
    for x in [
        0.0_f32,
        -0.0,
        1.0,
        -1.5,
        10.25,
        f32::MAX,
        f32::MIN,
        f32::MIN_POSITIVE,
        1.0e-40,
        -3.0e-45,
        f32::from_bits(1),
        f32::from_bits(0x007f_ffff),
        3.141_592_7,
    ] {
        assert_eq!(
            Real32::from_bits(x.to_bits()).widen().bits,
            f64::from(x).to_bits(),
            "{x:e}"
        );
    }
}
