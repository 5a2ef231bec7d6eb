use camera_toolbox_app::calibration::admission::{
    pose_bin_capacity_for_values, AutoCandidateAdmission, AutoCaptureAcceptanceCriteria,
    AutoCaptureAcquisitionKey, AutoCaptureBaseline, InitialIntrinsicsBinding,
    PANGBOT_CALIBRATION_FLAGS,
};
use camera_toolbox_app::calibration::assess::{
    AutoAdmissionAssessment, CandidateEvidence, DetectionMeasurement, ItemMeasurement, RawGain,
};
use camera_toolbox_app::calibration::coverage::{
    capped_region_score, capped_region_target, target_capped_region_gain,
};
use camera_toolbox_app::calibration::error::{
    BaselineFault, BindingMismatch, CalibrationInputError, CalibrationSessionError, GeometryFault,
    PnpFault,
};
use camera_toolbox_app::calibration::input::{
    parse_png_dimensions, plan_calibration_png, read_calibration_png, AutoCandidateId,
    CalibrationInputKey, CalibrationInputRevision, CalibrationItemId, ReadOutcome, StreamCaptureId,
};
use camera_toolbox_app::calibration::item::{AddCalibrationItemOutcome, CalibrationItemStatus};
use camera_toolbox_app::calibration::pnp::{
    adjacent_pairs, depth_corner_counts_for_criteria, detection_field_cells,
    pose_bin_for_criteria, AutoAdmissionPnpState, CornerDepth, PnPGeometry, PnPObservation,
    PnpMeasurement, PoseMeasurement,
};
use camera_toolbox_app::calibration::session::{
    AutoCandidateCommit, AutoCandidateToken, CalibrationSession, CalibrationSnapshot, PnpEvidence,
};
use camera_toolbox_app::digest::{sha256_hex, SnapshotHash};
use camera_toolbox_app::ieee::{Real32, Real64};
use camera_toolbox_app::model::{
    BoardSpec, CalibrationDataError, CalibrationImageSize, CalibrationPoint, CalibrationSolution,
    ChessboardDetection, ChessboardDetectionOutcome, InitialIntrinsics, ViewCalibrationResult,
};
use camera_toolbox_app::source::{
    FileRef, FileSourceId, FileVersion, SourcePath, StreamFrameIdentity, StreamSessionId,
};

fn number(x: f64) -> Real64 {
    Real64::from_bits(x.to_bits())
}

fn number32(x: f32) -> Real32 {
    Real32::from_bits(x.to_bits())
}

fn value(x: Real64) -> f64 {
    f64::from_bits(x.bits)
}

fn value32(x: Real32) -> f32 {
    f32::from_bits(x.bits)
}

fn board() -> BoardSpec {
    BoardSpec::new(2, 2, number(20.0)).unwrap()
}

fn size() -> CalibrationImageSize {
    CalibrationImageSize::new(640, 480).unwrap()
}

fn reference(name: &str) -> CalibrationInputKey {
    CalibrationInputKey::from(FileRef::new(
        FileSourceId::new("local").unwrap(),
        SourcePath::new(name).unwrap(),
    ))
}

fn file_version(size: u64) -> FileVersion {
    FileVersion {
        size,
        modified_millis: Some(size),
    }
}

fn version(size: u64) -> CalibrationInputRevision {
    CalibrationInputRevision::from(file_version(size))
}

fn point(x: f32, y: f32) -> CalibrationPoint {
    CalibrationPoint {
        x: number32(x),
        y: number32(y),
    }
}

fn found() -> ChessboardDetection {
    ChessboardDetection {
        image_size: size(),
        corners: vec![
            point(10.0, 10.0),
            point(20.0, 10.0),
            point(10.0, 20.0),
            point(20.0, 20.0),
        ],
    }
}

fn detection() -> ChessboardDetectionOutcome {
    ChessboardDetectionOutcome::Found(found())
}

fn intrinsics_with(focal: f64) -> InitialIntrinsics {
    InitialIntrinsics {
        camera_matrix: [focal, 0.0, 320.0, 0.0, 500.0, 240.0, 0.0, 0.0, 1.0].map(number),
        distortion_coefficients: vec![number(0.0); 12],
    }
}

fn intrinsics() -> InitialIntrinsics {
    intrinsics_with(500.0)
}

fn test_acquisition_key(channel: u16) -> AutoCaptureAcquisitionKey {
    AutoCaptureAcquisitionKey::new("auto-capture-test", channel, "test-geometry").unwrap()
}

fn test_criteria() -> AutoCaptureAcceptanceCriteria {
    AutoCaptureAcceptanceCriteria {
        field_columns: 2,
        field_rows: 2,
        field_target_per_cell: 1,
        min_adjacent_spacing_px: number32(1.0),
        pnp_depth_min: number(0.1),
        pnp_depth_max: number(2_000.0),
        pnp_depth_bins: 4,
        depth_target_per_bin: 1,
        pnp_tilt_deadband_deg: number(5.0),
        pnp_tilt_max_deg: number(65.0),
        pnp_tilt_bins: 3,
        pnp_azimuth_sectors: 8,
        pose_target_per_bin: 1,
        pnp_max_rmse_px: number(1.5),
        pnp_max_error_px: number(4.0),
        minimum_auto_gain: number(0.3),
    }
}

fn baseline_with(criteria: AutoCaptureAcceptanceCriteria) -> AutoCaptureBaseline {
    AutoCaptureBaseline::new(test_acquisition_key(0), size(), board(), criteria).unwrap()
}

fn test_baseline() -> AutoCaptureBaseline {
    baseline_with(test_criteria())
}

fn test_binding() -> InitialIntrinsicsBinding {
    InitialIntrinsicsBinding::full_frame(intrinsics(), size(), test_acquisition_key(0)).unwrap()
}

fn rotation_row(rotation: [f64; 3]) -> ([f64; 3], [f64; 3], f64) {
    let theta = rotation[0].hypot(rotation[1]).hypot(rotation[2]);
    if theta <= 1.0e-12 {
        return ([0.0, 0.0, 1.0], [0.0, 0.0, 1.0], theta);
    }
    let [x, y, z] = rotation.map(|part| part / theta);
    let (sine, cosine) = (theta.sin(), theta.cos());
    let rest = 1.0 - cosine;
    (
        [
            z * x * rest - y * sine,
            z * y * rest + x * sine,
            cosine + z * z * rest,
        ],
        [
            x * z * rest + y * sine,
            y * z * rest - x * sine,
            cosine + z * z * rest,
        ],
        theta,
    )
}

fn measure_pose(rotation: [Real64; 3], translation: [Real64; 3], board: BoardSpec) -> PoseMeasurement {
    let (row, normal, theta) = rotation_row(rotation.map(value));
    let square = value(board.square_size);
    let width = f64::from(board.inner_cols.saturating_sub(1)) * square;
    let height = f64::from(board.inner_rows.saturating_sub(1)) * square;
    PoseMeasurement {
        rotation_magnitude: number(theta),
        boundary_depths: [[0.0, 0.0], [width, 0.0], [0.0, height], [width, height]]
            .map(|[x, y]| number(row[0] * x + row[1] * y + value(translation[2]))),
        tilt_degrees: number(normal[0].hypot(normal[1]).atan2(normal[2]).to_degrees()),
        azimuth_degrees: number(normal[1].atan2(normal[0]).to_degrees().rem_euclid(360.0)),
    }
}

fn bin_of(normalized: f64, bins: usize) -> usize {
    (normalized * bins as f64) as usize
}

fn measure_pnp(
    observation: &PnPObservation,
    criteria: &AutoCaptureAcceptanceCriteria,
    board: BoardSpec,
) -> PnpMeasurement {
    let pose = measure_pose(observation.rotation_vector, observation.translation_vector, board);
    let (row, _, _) = rotation_row(observation.rotation_vector.map(value));
    let square = value(board.square_size);
    let (nearest, farthest) = (value(criteria.pnp_depth_min), value(criteria.pnp_depth_max));
    let mut corner_depths = Vec::new();
    for r in 0..board.inner_rows {
        for c in 0..board.inner_cols {
            let depth = row[0] * f64::from(c) * square
                + row[1] * f64::from(r) * square
                + value(observation.translation_vector[2]);
            corner_depths.push(CornerDepth {
                depth: number(depth),
                bin: bin_of((depth - nearest) / (farthest - nearest), criteria.pnp_depth_bins),
            });
        }
    }
    let deadband = value(criteria.pnp_tilt_deadband_deg);
    let floor = if deadband > 0.0 { deadband } else { 0.0 };
    PnpMeasurement {
        tilt_bin: bin_of(
            (value(pose.tilt_degrees) - floor) / (value(criteria.pnp_tilt_max_deg) - floor),
            criteria.pnp_tilt_bins,
        ),
        azimuth_sector: bin_of(
            value(pose.azimuth_degrees).rem_euclid(360.0) / 360.0,
            criteria.pnp_azimuth_sectors,
        ),
        pose,
        corner_depths,
    }
}

fn measure_detection(
    detection: &ChessboardDetection,
    criteria: &AutoCaptureAcceptanceCriteria,
    board: BoardSpec,
) -> DetectionMeasurement {
    let corner = |i: usize| detection.corners[i];
    let scaled = |x: f32, extent: u32, cells: usize| {
        (((x + 0.5) / extent as f32).clamp(0.0, 1.0) * cells as f32) as usize
    };
    DetectionMeasurement {
        adjacent_distances: adjacent_pairs(board)
            .into_iter()
            .filter(|(a, b)| *a < detection.corners.len() && *b < detection.corners.len())
            .map(|(a, b)| {
                let dx = value32(corner(a).x) - value32(corner(b).x);
                let dy = value32(corner(a).y) - value32(corner(b).y);
                number32(dx.hypot(dy))
            })
            .collect(),
        corner_positions: detection
            .corners
            .iter()
            .map(|p| {
                (
                    scaled(value32(p.x), detection.image_size.width, criteria.field_columns),
                    scaled(value32(p.y), detection.image_size.height, criteria.field_rows),
                )
            })
            .collect(),
    }
}

fn measure_items(
    session: &CalibrationSession,
    criteria: &AutoCaptureAcceptanceCriteria,
) -> Vec<ItemMeasurement> {
    session
        .items()
        .iter()
        .map(|item| {
            let board = session.board();
            let pnp = |observation: &Option<PnPObservation>| {
                measure_pnp(&observation.unwrap_or_else(test_pnp_observation), criteria, board)
            };
            ItemMeasurement {
                detection: match &item.status {
                    CalibrationItemStatus::Found(detection) => {
                        measure_detection(detection, criteria, board)
                    }
                    _ => DetectionMeasurement {
                        adjacent_distances: vec![],
                        corner_positions: vec![],
                    },
                },
                pnp: pnp(&item.pnp_observation),
                admission_pnp: pnp(&item.admission_pnp_observation),
            }
        })
        .collect()
}

fn assess_dataset(
    session: &CalibrationSession,
    criteria: &AutoCaptureAcceptanceCriteria,
) -> AutoAdmissionAssessment {
    let binding = test_binding();
    session
        .assess_dataset_acceptance(
            &measure_items(session, criteria),
            binding.reference_image_size,
            criteria,
            Some(&binding),
        )
        .unwrap()
}

fn assess_automatic(
    session: &CalibrationSession,
    criteria: &AutoCaptureAcceptanceCriteria,
    candidate: Option<(&ChessboardDetection, &PnPObservation)>,
) -> Result<AutoAdmissionAssessment, CalibrationSessionError> {
    let measurements = measure_items(session, criteria);
    match candidate {
        None => session.assess_auto_admission(&measurements, None),
        Some((detection, observation)) => session.assess_auto_admission(
            &measurements,
            Some(&CandidateEvidence {
                detection,
                observation,
                measurement: &measure_detection(detection, criteria, session.board()),
                pnp: &measure_pnp(observation, criteria, session.board()),
            }),
        ),
    }
}

fn field_gain(gain: RawGain, corners: usize) -> f64 {
    gain.field as f64 / corners as f64
}

fn depth_gain(gain: RawGain, corners: usize) -> f64 {
    gain.depth as f64 / corners as f64
}

fn pose_gain(gain: RawGain) -> f64 {
    gain.pose as f64
}

fn constraint_gain(gain: RawGain, corners: usize) -> f64 {
    (field_gain(gain, corners) + depth_gain(gain, corners) + pose_gain(gain)) / 3.0
}

fn commit(
    session: &mut CalibrationSession,
    criteria: &AutoCaptureAcceptanceCriteria,
    commit: AutoCandidateCommit,
) -> Result<CalibrationItemId, CalibrationSessionError> {
    let measurements = measure_items(session, criteria);
    let detection = measure_detection(&commit.detection, criteria, session.board());
    let pnp = measure_pnp(&commit.pnp_observation, criteria, session.board());
    session.commit_auto_candidate(commit, &measurements, &detection, &pnp, |gain, corners| {
        number(constraint_gain(gain, corners))
    })
}

fn observe(rotation: [f64; 3], depth: f64) -> Result<PnPObservation, CalibrationSessionError> {
    let result = ViewCalibrationResult {
        rotation_vector: rotation.map(number),
        translation_vector: [0.0, 0.0, depth].map(number),
        projected_points: Vec::new(),
        reprojection_rmse: number(0.1),
        max_reprojection_error: number(0.2),
    };
    let measured = measure_pose(result.rotation_vector, result.translation_vector, board());
    PnPObservation::from_view_result(test_binding().digest, &result, board(), &measured)
}

fn test_pnp_observation() -> PnPObservation {
    observe([0.0, 0.0, 0.0], 1_000.0).unwrap()
}

fn assert_gain_eq(actual: f64, expected: f64) {
    assert!(
        (actual - expected).abs() < 1.0e-12,
        "expected gain {expected}, got {actual}"
    );
}

fn configure_test_auto_admission(session: &mut CalibrationSession) {
    session
        .configure_auto_admission(Some(test_baseline()), Some(test_binding()))
        .unwrap();
}

fn solution(snapshot: &CalibrationSnapshot) -> CalibrationSolution {
    CalibrationSolution {
        image_size: snapshot.request.image_size,
        camera_matrix: snapshot.request.initial_intrinsics.camera_matrix,
        distortion_coefficients: vec![number(0.0); 12],
        rms_error: number(0.1),
        calibration_flags: PANGBOT_CALIBRATION_FLAGS as i32,
        views: snapshot
            .request
            .image_points
            .iter()
            .map(|points| ViewCalibrationResult {
                rotation_vector: [number(0.0); 3],
                translation_vector: [0.0, 0.0, 1.0].map(number),
                projected_points: points.clone(),
                reprojection_rmse: number(0.1),
                max_reprojection_error: number(0.2),
            })
            .collect(),
    }
}

fn add(session: &mut CalibrationSession, name: &str, size: u64) -> CalibrationItemId {
    match session.add_or_refresh(reference(name), version(size), name.to_owned()) {
        AddCalibrationItemOutcome::Added(id) => id,
        other => panic!("expected added item, got {other:?}"),
    }
}

fn detect(session: &mut CalibrationSession, id: CalibrationItemId, size: u64) {
    let token = session.begin_detection(id).unwrap();
    session.mark_reading(&token).unwrap();
    session.mark_detect_queued(&token).unwrap();
    session.mark_detecting(&token).unwrap();
    session
        .install_detection(&token, version(size), detection())
        .unwrap();
}

fn add_found(session: &mut CalibrationSession, name: &str, size: u64) -> CalibrationItemId {
    let id = add(session, name, size);
    detect(session, id, size);
    id
}

fn add_found_with_acquisition_key(
    session: &mut CalibrationSession,
    name: &str,
    size: u64,
    acquisition_key: AutoCaptureAcquisitionKey,
) -> CalibrationItemId {
    let AddCalibrationItemOutcome::Added(id) = session.add_or_refresh_with_acquisition_key(
        reference(name),
        version(size),
        name.to_owned(),
        Some(acquisition_key),
    ) else {
        panic!("expected added item");
    };
    detect(session, id, size);
    id
}

fn ephemeral(digest: String) -> CalibrationInputRevision {
    CalibrationInputRevision::EphemeralPng {
        content_sha256: digest,
        encoded_bytes: 128,
    }
}

fn capture_id(stream: &str, channel: u16, frame_sequence: u64) -> CalibrationInputKey {
    CalibrationInputKey::StreamCapture(StreamCaptureId {
        stream_id: StreamSessionId::new(stream).unwrap(),
        channel,
        frame_sequence,
    })
}

fn add_stream_found_with_acquisition_key(
    session: &mut CalibrationSession,
    frame_sequence: u64,
    acquisition_key: AutoCaptureAcquisitionKey,
) -> CalibrationItemId {
    let channel = acquisition_key.channel;
    let revision = ephemeral(format!("{frame_sequence:064x}"));
    let AddCalibrationItemOutcome::Added(id) = session.add_or_refresh_with_acquisition_key(
        capture_id("manual-stream", channel, frame_sequence),
        revision.clone(),
        format!("RTSP ch{channel} #{frame_sequence}"),
        Some(acquisition_key),
    ) else {
        panic!("expected added stream item");
    };
    let token = session.begin_encoded_detection(id).unwrap();
    session.mark_detecting(&token).unwrap();
    session
        .install_detection(&token, revision, detection())
        .unwrap();
    id
}

#[test]
fn encoded_input_queues_directly_without_a_fake_read_stage() {
    let mut session = CalibrationSession::new(board());
    let AddCalibrationItemOutcome::Added(id) = session.add_or_refresh(
        capture_id("stream-test", 0, 7),
        ephemeral("a".repeat(64)),
        "RTSP ch0 #7".to_owned(),
    ) else {
        panic!();
    };

    let token = session.begin_encoded_detection(id).unwrap();
    assert!(matches!(
        session.items()[0].status,
        CalibrationItemStatus::DetectQueued
    ));
    session.mark_detecting(&token).unwrap();
    assert!(matches!(
        session.items()[0].status,
        CalibrationItemStatus::Detecting
    ));
}

#[test]
fn detection_status_distinguishes_read_and_detect_queues() {
    let mut session = CalibrationSession::new(board());
    let id = add(&mut session, "a.png", 10);
    let token = session.begin_detection(id).unwrap();
    assert!(matches!(
        session.items()[0].status,
        CalibrationItemStatus::ReadQueued
    ));
    assert_eq!(
        session.mark_detect_queued(&token),
        Err(CalibrationSessionError::StaleResult)
    );
    session.mark_reading(&token).unwrap();
    assert!(matches!(
        session.items()[0].status,
        CalibrationItemStatus::Reading
    ));
    session.mark_detect_queued(&token).unwrap();
    assert!(matches!(
        session.items()[0].status,
        CalibrationItemStatus::DetectQueued
    ));
    session.mark_detecting(&token).unwrap();
    assert!(matches!(
        session.items()[0].status,
        CalibrationItemStatus::Detecting
    ));
}

fn png_header() -> Vec<u8> {
    let mut bytes = vec![0_u8; 24];
    bytes[..8].copy_from_slice(b"\x89PNG\r\n\x1a\n");
    bytes[8..12].copy_from_slice(&13_u32.to_be_bytes());
    bytes[12..16].copy_from_slice(b"IHDR");
    bytes[16..20].copy_from_slice(&640_u32.to_be_bytes());
    bytes[20..24].copy_from_slice(&480_u32.to_be_bytes());
    bytes
}

#[test]
fn png_preflight_reads_ihdr_dimensions() {
    let mut bytes = png_header();
    assert_eq!(
        parse_png_dimensions(&bytes).unwrap(),
        CalibrationImageSize::new(640, 480).unwrap()
    );

    bytes[0] = 0;
    assert_eq!(
        parse_png_dimensions(&bytes),
        Err(CalibrationInputError::InvalidPngHeader)
    );
}

#[test]
fn bounded_reads_refuse_changed_and_oversized_files() {
    let entry = file_version(24);
    assert_eq!(plan_calibration_png(entry, entry, 24), Ok(24));
    assert_eq!(
        plan_calibration_png(entry, file_version(25), 24),
        Err(CalibrationInputError::SourceChanged {
            expected: file_version(25),
            actual: entry
        })
    );
    assert_eq!(
        plan_calibration_png(entry, entry, 23),
        Err(CalibrationInputError::EncodedImageTooLarge { size: 24, limit: 23 })
    );
    let outcome = ReadOutcome {
        source_version: entry,
        bytes_read: 24,
    };
    let png = read_calibration_png(entry, entry, 24, outcome, png_header()).unwrap();
    assert_eq!(png.image_size, size());
    assert_eq!(png.source_revision, version(24));
    let later = ReadOutcome {
        source_version: file_version(30),
        bytes_read: 24,
    };
    assert!(matches!(
        read_calibration_png(entry, entry, 24, later, png_header()),
        Err(CalibrationInputError::SourceChanged { .. })
    ));
    let mut empty = png_header();
    empty[16..20].copy_from_slice(&0_u32.to_be_bytes());
    assert!(matches!(
        parse_png_dimensions(&empty),
        Err(CalibrationInputError::InvalidData(_))
    ));
}

#[test]
fn duplicate_refresh_invalidates_detection_and_solution_generation() {
    let mut session = CalibrationSession::new(board());
    let id = add_found(&mut session, "a.png", 10);
    assert_eq!(
        session.add_or_refresh(reference("a.png"), version(10), "a.png".into()),
        AddCalibrationItemOutcome::AlreadyPresent(id)
    );
    assert_eq!(
        session.add_or_refresh(reference("a.png"), version(11), "a.png".into()),
        AddCalibrationItemOutcome::SourceChanged(id)
    );
    assert!(matches!(
        session.items()[0].status,
        CalibrationItemStatus::Pending
    ));
}

#[test]
fn board_corner_layout_change_marks_all_items_pending() {
    let mut session = CalibrationSession::new(board());
    add_found(&mut session, "a.png", 10);
    session
        .set_board(BoardSpec::new(3, 2, number(10.0)).unwrap())
        .unwrap();
    assert!(matches!(
        session.items()[0].status,
        CalibrationItemStatus::Pending
    ));
}

#[test]
fn square_size_change_preserves_detections_and_invalidates_solution() {
    let mut session = CalibrationSession::new(board());
    add_found(&mut session, "a.png", 10);
    add_found(&mut session, "b.png", 20);
    add_found(&mut session, "c.png", 30);
    let snapshot = session.calibration_snapshot(intrinsics()).unwrap();
    let solution = solution(&snapshot);
    session.install_solution(snapshot, solution).unwrap();

    session
        .set_board(BoardSpec::new(2, 2, number(40.0)).unwrap())
        .unwrap();

    assert!(session
        .items()
        .iter()
        .all(|item| matches!(item.status, CalibrationItemStatus::Found(_))));
    assert!(session.installed().is_none());
    assert_eq!(session.board().square_size, number(40.0));
    assert_eq!(
        session
            .calibration_snapshot(intrinsics())
            .unwrap()
            .request
            .board
            .square_size,
        number(40.0)
    );
}

#[test]
fn reset_detections_marks_every_item_pending() {
    let mut session = CalibrationSession::new(board());
    add_found(&mut session, "a.png", 10);
    let disabled = add_found(&mut session, "b.png", 20);
    session.set_enabled(disabled, false).unwrap();

    session.reset_detections();

    assert!(session
        .items()
        .iter()
        .all(|item| matches!(item.status, CalibrationItemStatus::Pending)));
    assert!(!session.items()[1].enabled);
    assert!(matches!(
        session.calibration_snapshot(intrinsics()),
        Err(CalibrationSessionError::NotEnoughViews { found: 0, .. })
    ));
}

#[test]
fn stale_detection_result_is_rejected_after_dataset_change() {
    let mut session = CalibrationSession::new(board());
    let id = add(&mut session, "a.png", 10);
    let token = session.begin_detection(id).unwrap();
    session.add_or_refresh(reference("b.png"), version(20), "b.png".into());
    assert_eq!(
        session.install_detection(&token, version(10), detection()),
        Err(CalibrationSessionError::StaleResult)
    );
}

#[test]
fn concurrent_detection_tokens_install_in_reverse_order() {
    let mut session = CalibrationSession::new(board());
    let first = add(&mut session, "a.png", 10);
    let second = add(&mut session, "b.png", 20);
    let first_token = session.begin_detection(first).unwrap();
    let second_token = session.begin_detection(second).unwrap();
    session.mark_reading(&first_token).unwrap();
    session.mark_reading(&second_token).unwrap();
    session.mark_detect_queued(&first_token).unwrap();
    session.mark_detect_queued(&second_token).unwrap();
    session.mark_detecting(&first_token).unwrap();
    session.mark_detecting(&second_token).unwrap();

    session
        .install_detection(&second_token, version(20), detection())
        .unwrap();
    session
        .install_detection(&first_token, version(10), detection())
        .unwrap();

    assert!(session
        .items()
        .iter()
        .all(|item| matches!(item.status, CalibrationItemStatus::Found(_))));
}

#[test]
fn restarted_detection_rejects_result_from_cancelled_job() {
    let mut session = CalibrationSession::new(board());
    let id = add(&mut session, "a.png", 10);
    let cancelled_token = session.begin_detection(id).unwrap();
    session.cancel_detection(&cancelled_token).unwrap();
    let active_token = session.begin_detection(id).unwrap();
    session.mark_reading(&active_token).unwrap();
    session.mark_detect_queued(&active_token).unwrap();
    session.mark_detecting(&active_token).unwrap();

    assert_eq!(
        session.install_detection(&cancelled_token, version(10), detection()),
        Err(CalibrationSessionError::StaleResult)
    );
    session
        .install_detection(&active_token, version(10), detection())
        .unwrap();
    assert!(matches!(
        session.items()[0].status,
        CalibrationItemStatus::Found(_)
    ));
}

#[test]
fn snapshot_requires_three_same_size_found_views() {
    let mut session = CalibrationSession::new(board());
    add_found(&mut session, "a.png", 10);
    add_found(&mut session, "b.png", 20);
    assert!(matches!(
        session.calibration_snapshot(intrinsics()),
        Err(CalibrationSessionError::NotEnoughViews { found: 2, .. })
    ));
    add_found(&mut session, "c.png", 30);
    let snapshot = session.calibration_snapshot(intrinsics()).unwrap();
    assert_eq!(snapshot.item_ids.len(), 3);
}

#[test]
fn solution_install_is_transactional() {
    let mut session = CalibrationSession::new(board());
    add_found(&mut session, "a.png", 10);
    add_found(&mut session, "b.png", 20);
    add_found(&mut session, "c.png", 30);
    let snapshot = session.calibration_snapshot(intrinsics()).unwrap();
    let solution = solution(&snapshot);
    session.install_solution(snapshot, solution).unwrap();
    assert!(session.installed().is_some());
    session.set_enabled(session.items()[0].id, false).unwrap();
    assert!(session.installed().is_none());
}

fn auto_candidate_fixture_with_source(
    session: &CalibrationSession,
    candidate_id: u64,
    sequence: u64,
    stream_session: &str,
    source_acquisition_key: Option<AutoCaptureAcquisitionKey>,
) -> (AutoCandidateToken, CalibrationInputRevision) {
    let channel = source_acquisition_key.as_ref().map_or(0, |key| key.channel);
    let identity = StreamFrameIdentity::unavailable(
        StreamSessionId::new(stream_session).unwrap(),
        channel,
        sequence,
        "test fixture".to_owned(),
    );
    let revision = ephemeral(format!("{sequence:064x}"));
    let token = session
        .bind_auto_candidate(
            AutoCandidateId::new(candidate_id),
            identity,
            revision.clone(),
            format!("candidate-{sequence}"),
            source_acquisition_key,
        )
        .unwrap();
    (token, revision)
}

fn auto_candidate_fixture_with_channel(
    session: &CalibrationSession,
    candidate_id: u64,
    sequence: u64,
    channel: u16,
) -> (AutoCandidateToken, CalibrationInputRevision) {
    auto_candidate_fixture_with_source(
        session,
        candidate_id,
        sequence,
        "stream-new-session",
        Some(test_acquisition_key(channel)),
    )
}

fn auto_candidate_fixture(
    session: &CalibrationSession,
    candidate_id: u64,
    sequence: u64,
) -> (AutoCandidateToken, CalibrationInputRevision) {
    auto_candidate_fixture_with_channel(session, candidate_id, sequence, 0)
}

fn commit_found(
    session: &mut CalibrationSession,
    token: AutoCandidateToken,
    revision: CalibrationInputRevision,
    observation: PnPObservation,
) -> Result<CalibrationItemId, CalibrationSessionError> {
    commit(
        session,
        &test_criteria(),
        AutoCandidateCommit::new(token, revision, found(), observation),
    )
}

#[test]
fn stale_auto_admission_revision_cannot_mutate_dataset() {
    let mut session = CalibrationSession::new(board());
    let (token, revision) = auto_candidate_fixture(&session, 1, 7);
    session.invalidate_auto_admission();

    assert_eq!(
        commit_found(&mut session, token, revision, test_pnp_observation()),
        Err(CalibrationSessionError::StaleAutoCandidate)
    );
    assert!(session.items().is_empty());
    assert_eq!(session.selected(), None);
}

#[test]
fn auto_candidate_commit_requires_matching_baseline_and_binding() {
    let mut session = CalibrationSession::new(board());
    let (token, revision) = auto_candidate_fixture(&session, 1, 9);

    assert_eq!(
        commit_found(&mut session, token, revision, test_pnp_observation()),
        Err(CalibrationSessionError::RejectMissingBaseline)
    );
    assert!(session.items().is_empty());
}

#[test]
fn auto_candidate_commit_rejects_wrong_stream_channel_without_mutating_dataset() {
    let mut session = CalibrationSession::new(board());
    configure_test_auto_admission(&mut session);
    let (token, revision) = auto_candidate_fixture_with_channel(&session, 1, 10, 3);

    let result = commit_found(&mut session, token, revision, test_pnp_observation());
    assert!(
        matches!(
            &result,
            Err(CalibrationSessionError::RejectAutoAdmissionBindingMismatch(mismatch))
                if mismatch.describe().contains("candidate source")
        ),
        "unexpected result: {result:?}"
    );
    assert!(session.items().is_empty());
    assert_eq!(session.selected(), None);
}

#[test]
fn auto_candidate_bind_rejects_source_key_channel_mismatching_frame_identity() {
    let session = CalibrationSession::new(board());
    let identity = StreamFrameIdentity::unavailable(
        StreamSessionId::new("stream-channel-mismatch").unwrap(),
        3,
        13,
        "test fixture".to_owned(),
    );
    let result = session.bind_auto_candidate(
        AutoCandidateId::new(4),
        identity,
        ephemeral("d".repeat(64)),
        "candidate-13".to_owned(),
        Some(test_acquisition_key(0)),
    );
    assert!(
        matches!(
            &result,
            Err(CalibrationSessionError::RejectAutoAdmissionBindingMismatch(mismatch))
                if mismatch.describe().contains("source channel")
        ),
        "unexpected result: {result:?}"
    );
    assert!(session.items().is_empty());
}

#[test]
fn auto_candidate_commit_accepts_same_source_new_stream_session() {
    let mut session = CalibrationSession::new(board());
    configure_test_auto_admission(&mut session);
    let (token, revision) = auto_candidate_fixture_with_source(
        &session,
        2,
        11,
        "stream-2",
        Some(test_acquisition_key(0)),
    );

    let item_id = commit_found(&mut session, token, revision, test_pnp_observation()).unwrap();
    assert_eq!(session.items().len(), 1);
    assert_eq!(session.items()[0].id, item_id);
    assert_eq!(
        session.items()[0].acquisition_key,
        Some(test_acquisition_key(0))
    );
}

#[test]
fn auto_admission_assessment_ignores_other_source_dataset_items() {
    let mut session = CalibrationSession::new(board());
    add_found_with_acquisition_key(
        &mut session,
        "other-source.png",
        10,
        AutoCaptureAcquisitionKey::new("other-source", 0, "test-geometry").unwrap(),
    );
    configure_test_auto_admission(&mut session);

    let assessment = assess_automatic(&session, &test_criteria(), None).unwrap();
    assert_eq!(assessment.field_cells, 0);
    assert!(assessment.item_contributions.is_empty());
}

#[test]
fn dataset_acceptance_aggregates_file_manual_stream_and_auto_items() {
    let mut session = CalibrationSession::new(board());
    let local_file = add_found(&mut session, "local.png", 10);
    let manual_stream = add_stream_found_with_acquisition_key(
        &mut session,
        7,
        AutoCaptureAcquisitionKey::new("manual-rtsp", 0, "test-geometry").unwrap(),
    );
    let auto_item =
        add_found_with_acquisition_key(&mut session, "auto.png", 11, test_acquisition_key(0));
    for id in [local_file, manual_stream, auto_item] {
        session.item_mut(id).unwrap().pnp_observation = Some(test_pnp_observation());
    }
    session
        .item_mut(auto_item)
        .unwrap()
        .admission_pnp_observation = Some(test_pnp_observation());
    configure_test_auto_admission(&mut session);

    let dataset = assess_dataset(&session, &test_criteria());
    assert_eq!(dataset.item_contributions.len(), 3);
    assert_eq!(dataset.depth_bins, 1);
    assert_eq!(dataset.pose_bins, 1);
    assert!(session.items().iter().any(|item| item.id == manual_stream
        && matches!(item.input, CalibrationInputKey::StreamCapture(_))));

    let automatic = assess_automatic(&session, &test_criteria(), None).unwrap();
    assert_eq!(automatic.item_contributions.len(), 1);
    assert_eq!(automatic.item_contributions[0].item_id, auto_item);
}

#[test]
fn dataset_acceptance_counts_file_found_and_field_before_pnp() {
    let mut session = CalibrationSession::new(board());
    let local_file = add_found(&mut session, "local.png", 10);
    configure_test_auto_admission(&mut session);

    let assessment = assess_dataset(&session, &test_criteria());
    assert_eq!(assessment.field_cells, 1);
    assert_eq!(assessment.depth_bins, 0);
    assert_eq!(assessment.pose_bins, 0);
    let [contribution] = assessment.item_contributions.as_slice() else {
        panic!("expected field-only contribution");
    };
    let corners = assessment.corner_count;
    assert_eq!(contribution.item_id, local_file);
    assert_gain_eq(depth_gain(contribution.gain, corners), 0.0);
    assert_gain_eq(pose_gain(contribution.gain), 0.0);
    assert_eq!(
        contribution.pnp_state,
        AutoAdmissionPnpState::MissingObservation
    );
    assert_gain_eq(field_gain(contribution.gain, corners), 0.25);
    assert_gain_eq(constraint_gain(contribution.gain, corners), 0.25 / 3.0);
}

#[test]
fn dataset_acceptance_reports_gate_gaps_separately_from_zero_gain() {
    let mut rmse_session = CalibrationSession::new(board());
    let rmse_item = add_found(&mut rmse_session, "rmse-gap.png", 10);
    let mut rmse_observation = test_pnp_observation();
    rmse_observation.reprojection_rmse = number(value(test_criteria().pnp_max_rmse_px) + 0.1);
    rmse_session.item_mut(rmse_item).unwrap().pnp_observation = Some(rmse_observation);
    let rmse_assessment = assess_dataset(&rmse_session, &test_criteria());
    assert!(matches!(
        rmse_assessment.item_contributions[0].pnp_state,
        AutoAdmissionPnpState::RmseReprojectionGap(_)
    ));

    let mut max_error_session = CalibrationSession::new(board());
    let max_error_item = add_found(&mut max_error_session, "max-error-gap.png", 10);
    let mut max_error_observation = test_pnp_observation();
    max_error_observation.max_reprojection_error =
        number(value(test_criteria().pnp_max_error_px) + 0.1);
    max_error_session
        .item_mut(max_error_item)
        .unwrap()
        .pnp_observation = Some(max_error_observation);
    let max_error_assessment = assess_dataset(&max_error_session, &test_criteria());
    assert!(matches!(
        max_error_assessment.item_contributions[0].pnp_state,
        AutoAdmissionPnpState::MaxReprojectionGap(_)
    ));

    let mut depth_criteria = test_criteria();
    depth_criteria.pnp_depth_min = number(1_500.0);
    depth_criteria.pnp_depth_max = number(2_000.0);
    depth_criteria.validate().unwrap();
    let mut depth_session = CalibrationSession::new(board());
    let depth_item = add_found(&mut depth_session, "depth-gap.png", 10);
    depth_session.item_mut(depth_item).unwrap().pnp_observation = Some(test_pnp_observation());
    let depth_assessment = assess_dataset(&depth_session, &depth_criteria);
    let depth_contribution = &depth_assessment.item_contributions[0];
    assert_eq!(depth_contribution.pnp_state, AutoAdmissionPnpState::Valid);
    assert!(!depth_contribution.depth_covered);
    assert!(depth_contribution.pose_covered);
    assert_gain_eq(
        depth_gain(depth_contribution.gain, depth_assessment.corner_count),
        0.0,
    );

    let mut redundant_session = CalibrationSession::new(board());
    for index in 0..4_u64 {
        let item = add_found(
            &mut redundant_session,
            &format!("redundant-{index}.png"),
            10 + index,
        );
        redundant_session.item_mut(item).unwrap().pnp_observation = Some(test_pnp_observation());
    }
    let redundant = assess_dataset(&redundant_session, &test_criteria());
    let corners = redundant.corner_count;
    let gains: Vec<f64> = redundant
        .item_contributions
        .iter()
        .map(|contribution| constraint_gain(contribution.gain, corners))
        .collect();
    let whole = RawGain {
        field: redundant.field_quota_filled,
        depth: redundant.depth_quota_filled,
        pose: redundant.pose_quota_filled,
    };
    assert_gain_eq(gains.iter().sum::<f64>(), constraint_gain(whole, corners));
    assert_eq!(gains.iter().filter(|gain| **gain == 0.0).count(), 3);
    assert!(redundant.item_contributions.iter().any(|contribution| {
        contribution.pnp_state == AutoAdmissionPnpState::Valid
            && contribution.depth_covered
            && contribution.pose_covered
            && constraint_gain(contribution.gain, corners) > 0.0
    }));
}

#[test]
fn field_coverage_counts_corners_per_region_not_views() {
    let mut session = CalibrationSession::new(board());
    let first = add_found(&mut session, "first.png", 10);
    let second = add_found(&mut session, "second.png", 11);

    let assessment = assess_dataset(&session, &test_criteria());
    let corners = assessment.corner_count;
    assert_eq!(assessment.field_cells, 1);
    assert_eq!(assessment.field_counts[0], 8);
    assert_eq!(assessment.field_counts.iter().sum::<usize>(), 8);
    assert_eq!(assessment.item_contributions.len(), 2);
    let [first_contribution, second_contribution] = assessment.item_contributions.as_slice() else {
        panic!("expected two compatible field items");
    };
    assert_eq!(first_contribution.item_id, first);
    assert_gain_eq(field_gain(first_contribution.gain, corners), 0.25);
    assert_eq!(second_contribution.item_id, second);
    assert_gain_eq(field_gain(second_contribution.gain, corners), 0.0);

    session.set_enabled(second, false).unwrap();
    let assessment = assess_dataset(&session, &test_criteria());
    assert_eq!(assessment.field_counts[0], 4);
    assert_eq!(assessment.field_counts.iter().sum::<usize>(), 4);
    let [contribution] = assessment.item_contributions.as_slice() else {
        panic!("expected the only enabled compatible item");
    };
    assert_eq!(contribution.item_id, first);
    assert_gain_eq(field_gain(contribution.gain, corners), 0.25);
}

#[test]
fn auto_admission_item_contributions_are_target_capped_and_recompute() {
    let mut session = CalibrationSession::new(board());
    let first =
        add_found_with_acquisition_key(&mut session, "first.png", 10, test_acquisition_key(0));
    session.item_mut(first).unwrap().admission_pnp_observation = Some(test_pnp_observation());
    let second =
        add_found_with_acquisition_key(&mut session, "second.png", 11, test_acquisition_key(0));
    session.item_mut(second).unwrap().admission_pnp_observation = Some(test_pnp_observation());
    configure_test_auto_admission(&mut session);

    let assessment = assess_automatic(&session, &test_criteria(), None).unwrap();
    let corners = assessment.corner_count;
    assert_eq!(assessment.item_contributions.len(), 2);
    let [first_contribution, second_contribution] = assessment.item_contributions.as_slice() else {
        panic!("expected two source-bound items");
    };
    assert_eq!(first_contribution.item_id, first);
    assert_gain_eq(field_gain(first_contribution.gain, corners), 0.25);
    assert_gain_eq(depth_gain(first_contribution.gain, corners), 0.25);
    assert_gain_eq(pose_gain(first_contribution.gain), 1.0);
    assert_gain_eq(constraint_gain(first_contribution.gain, corners), 0.5);
    assert_eq!(second_contribution.item_id, second);
    assert_gain_eq(field_gain(second_contribution.gain, corners), 0.0);
    assert_gain_eq(depth_gain(second_contribution.gain, corners), 0.0);
    assert_gain_eq(pose_gain(second_contribution.gain), 0.0);
    assert_gain_eq(constraint_gain(second_contribution.gain, corners), 0.0);
    let total: f64 = assessment
        .item_contributions
        .iter()
        .map(|contribution| constraint_gain(contribution.gain, corners))
        .sum();
    assert_gain_eq(total, 0.5);

    session.set_enabled(second, false).unwrap();
    let assessment = assess_automatic(&session, &test_criteria(), None).unwrap();
    let [contribution] = assessment.item_contributions.as_slice() else {
        panic!("expected the only enabled compatible item");
    };
    assert_eq!(contribution.item_id, first);
    assert_gain_eq(field_gain(contribution.gain, corners), 0.25);
    assert_gain_eq(depth_gain(contribution.gain, corners), 0.25);
    assert_gain_eq(pose_gain(contribution.gain), 1.0);
    assert_gain_eq(constraint_gain(contribution.gain, corners), 0.5);

    session.set_enabled(first, false).unwrap();
    assert!(assess_automatic(&session, &test_criteria(), None)
        .unwrap()
        .item_contributions
        .is_empty());
}

fn other_binding_digest() -> SnapshotHash {
    InitialIntrinsicsBinding::full_frame(intrinsics_with(501.0), size(), test_acquisition_key(0))
        .unwrap()
        .digest
}

#[test]
fn auto_admission_excludes_items_without_valid_pnp_evidence() {
    let mut session = CalibrationSession::new(board());
    add_found_with_acquisition_key(&mut session, "missing-pnp.png", 10, test_acquisition_key(0));
    let stale_binding = add_found_with_acquisition_key(
        &mut session,
        "stale-binding.png",
        11,
        test_acquisition_key(0),
    );
    let mut observation = test_pnp_observation();
    observation.binding_digest = other_binding_digest();
    session
        .item_mut(stale_binding)
        .unwrap()
        .admission_pnp_observation = Some(observation);
    configure_test_auto_admission(&mut session);

    let assessment = assess_automatic(&session, &test_criteria(), None).unwrap();
    assert_eq!(assessment.field_cells, 0);
    assert_eq!(assessment.depth_bins, 0);
    assert_eq!(assessment.pose_bins, 0);
    assert!(assessment.item_contributions.is_empty());
}

#[test]
fn auto_admission_excludes_existing_item_after_spacing_gate_tightens() {
    let mut session = CalibrationSession::new(board());
    let item = add_found_with_acquisition_key(
        &mut session,
        "spacing-gated.png",
        10,
        test_acquisition_key(0),
    );
    session.item_mut(item).unwrap().admission_pnp_observation = Some(test_pnp_observation());
    configure_test_auto_admission(&mut session);
    let before = assess_automatic(&session, &test_criteria(), None).unwrap();
    assert_eq!(before.item_contributions.len(), 1);

    let mut tightened_criteria = test_criteria();
    tightened_criteria.min_adjacent_spacing_px = number32(11.0);
    session
        .configure_auto_admission(Some(baseline_with(tightened_criteria)), Some(test_binding()))
        .unwrap();
    let after = assess_automatic(&session, &tightened_criteria, None).unwrap();
    assert_eq!(after.field_cells, 0);
    assert_eq!(after.depth_bins, 0);
    assert_eq!(after.pose_bins, 0);
    assert!(after.item_contributions.is_empty());
}

#[test]
fn target_capped_region_gain_accumulates_until_region_quota() {
    let mut counts = vec![0; 4];
    assert_eq!(
        target_capped_region_gain(&mut counts, 2, &vec![(0, 1), (2, 1)]),
        2
    );
    assert_eq!(counts, vec![1, 0, 1, 0]);
    assert_eq!(
        target_capped_region_gain(&mut counts, 2, &vec![(0, 1), (1, 1)]),
        2
    );
    assert_eq!(counts, vec![2, 1, 1, 0]);
    assert_eq!(
        target_capped_region_gain(&mut counts, 2, &vec![(0, 1), (3, 5)]),
        2
    );
    assert_eq!(counts, vec![3, 1, 1, 5]);
}

fn baseline_fault(criteria: &AutoCaptureAcceptanceCriteria) -> BaselineFault {
    match criteria.validate() {
        Err(CalibrationSessionError::InvalidAutoCaptureBaseline(fault)) => fault,
        other => panic!("expected a baseline fault, got {other:?}"),
    }
}

#[test]
fn quota_scoring_saturates_and_validation_rejects_overflow_targets() {
    assert_eq!(
        capped_region_score(&vec![usize::MAX, usize::MAX], usize::MAX),
        usize::MAX
    );
    assert_eq!(capped_region_target(3, usize::MAX), usize::MAX);
    assert_eq!(capped_region_target(3, 5), 15);
    let mut counts = vec![usize::MAX - 1];
    assert_eq!(
        target_capped_region_gain(&mut counts, usize::MAX, &vec![(0, 10)]),
        1
    );
    assert_eq!(counts, vec![usize::MAX]);

    let mut criteria = test_criteria();
    criteria.field_target_per_cell = usize::MAX;
    assert!(baseline_fault(&criteria)
        .describe()
        .contains("field quota target overflows"));

    let mut criteria = test_criteria();
    criteria.depth_target_per_bin = usize::MAX;
    assert!(baseline_fault(&criteria)
        .describe()
        .contains("depth quota target overflows"));

    let mut criteria = test_criteria();
    criteria.pose_target_per_bin = usize::MAX;
    assert!(baseline_fault(&criteria)
        .describe()
        .contains("pose quota target overflows"));
}

#[test]
fn minimum_auto_gain_rejects_candidate_below_threshold() {
    let mut session = CalibrationSession::new(board());
    let mut criteria = test_criteria();
    criteria.minimum_auto_gain = number(0.75);
    session
        .configure_auto_admission(Some(baseline_with(criteria)), Some(test_binding()))
        .unwrap();
    let (token, revision) = auto_candidate_fixture(&session, 1, 31);

    match commit_found(&mut session, token, revision, test_pnp_observation()) {
        Err(CalibrationSessionError::RejectInsufficientConstraintGain { actual, minimum }) => {
            assert_gain_eq(value(actual), 0.5);
            assert_gain_eq(value(minimum), 0.75);
        }
        other => panic!("expected insufficient gain rejection, got {other:?}"),
    }
    assert!(session.items().is_empty());
}

#[test]
fn admission_digest_changes_when_quota_or_minimum_gain_changes() {
    let base = test_baseline();

    let mut criteria = test_criteria();
    criteria.field_target_per_cell = 2;
    assert_ne!(base.digest, baseline_with(criteria).digest);

    let mut criteria = test_criteria();
    criteria.minimum_auto_gain = number(0.6);
    assert_ne!(base.digest, baseline_with(criteria).digest);
    assert_eq!(base.digest, test_baseline().digest);
}

fn pose_bin(
    criteria: &AutoCaptureAcceptanceCriteria,
    tilt: f64,
    azimuth: f64,
) -> Result<usize, CalibrationSessionError> {
    let mut measured = measure_pnp(&test_pnp_observation(), criteria, board());
    measured.azimuth_sector = bin_of(azimuth.rem_euclid(360.0) / 360.0, criteria.pnp_azimuth_sectors);
    let deadband = value(criteria.pnp_tilt_deadband_deg);
    let floor = if deadband > 0.0 { deadband } else { 0.0 };
    measured.tilt_bin = bin_of(
        (tilt - floor) / (value(criteria.pnp_tilt_max_deg) - floor),
        criteria.pnp_tilt_bins,
    );
    let geometry = PnPGeometry {
        depth: number(1.0),
        minimum_board_depth: number(1.0),
        maximum_board_depth: number(1.0),
        tilt_degrees: number(tilt),
        azimuth_degrees: number(azimuth),
    };
    pose_bin_for_criteria(criteria, &geometry, &measured)
}

#[test]
fn pose_zero_deadband_has_no_center_bin() {
    let mut criteria = test_criteria();
    criteria.pnp_tilt_deadband_deg = number(0.0);
    criteria.pnp_tilt_bins = 2;
    criteria.pnp_azimuth_sectors = 4;
    criteria.validate().unwrap();

    assert_eq!(
        pose_bin_capacity_for_values(
            criteria.pnp_tilt_bins,
            criteria.pnp_azimuth_sectors,
            criteria.pnp_tilt_deadband_deg
        ),
        Some(8)
    );
    assert_eq!(pose_bin(&criteria, 0.0, 0.0).unwrap(), 0);
    assert_eq!(pose_bin(&criteria, 0.0, 90.0).unwrap(), 1);
}

#[test]
fn pose_bins_start_after_the_center_and_end_at_the_limit() {
    let criteria = test_criteria();
    assert_eq!(
        pose_bin_capacity_for_values(3, 8, criteria.pnp_tilt_deadband_deg),
        Some(25)
    );
    assert_eq!(pose_bin_capacity_for_values(usize::MAX, 2, number(0.0)), None);
    assert_eq!(pose_bin(&criteria, 4.9, 200.0), Ok(0));
    assert_eq!(pose_bin(&criteria, 5.0, 0.0), Ok(1));
    assert_eq!(pose_bin(&criteria, 65.0, 359.0), Ok(24));
    assert_eq!(
        pose_bin(&criteria, 65.5, 0.0),
        Err(CalibrationSessionError::RejectInvalidPnP(PnpFault::Tilt {
            tilt: number(65.5),
            maximum: number(65.0)
        }))
    );
    assert!(pose_bin(&criteria, f64::NAN, 0.0).is_err());
}

#[test]
fn depth_coverage_counts_corners_per_bin_not_views() {
    let mut criteria = test_criteria();
    criteria.pnp_depth_min = number(100.0);
    criteria.pnp_depth_max = number(130.0);
    criteria.pnp_depth_bins = 3;
    let observation = observe([0.0, 0.7, 0.0], 122.0).unwrap();
    assert!(value(observation.maximum_board_depth) > value(observation.minimum_board_depth));
    let observed_minimum_depth = observation.minimum_board_depth;
    let observed_maximum_depth = observation.maximum_board_depth;

    let measured = measure_pnp(&observation, &criteria, board());
    let corner_counts = depth_corner_counts_for_criteria(&criteria, board(), &measured).unwrap();
    assert_eq!(
        corner_counts.iter().map(|(_, count)| *count).sum::<usize>(),
        4
    );
    assert_eq!(corner_counts, vec![(0, 2), (2, 2)]);

    let mut session = CalibrationSession::new(board());
    let first = add_found(&mut session, "first.png", 10);
    let second = add_found(&mut session, "second.png", 11);
    session.item_mut(first).unwrap().pnp_observation = Some(observation);
    session.item_mut(second).unwrap().pnp_observation = Some(observation);
    let assessment = assess_dataset(&session, &criteria);
    let corners = assessment.corner_count;
    assert_eq!(assessment.depth_bins, 2);
    assert_eq!(assessment.depth_bin_counts.iter().sum::<usize>(), 8);
    assert_eq!(assessment.depth_ranges.len(), 2);
    assert_eq!(assessment.depth_ranges[0].item_id, first);
    assert_eq!(
        assessment.depth_ranges[0].minimum_depth,
        observed_minimum_depth
    );
    assert_eq!(
        assessment.depth_ranges[0].maximum_depth,
        observed_maximum_depth
    );
    assert_eq!(assessment.item_visualizations.len(), 2);
    assert_eq!(assessment.item_visualizations[0].item_id, first);
    assert_eq!(assessment.item_visualizations[0].field_cells, vec![0]);
    assert!(assessment.item_visualizations[0].pose_bin.is_some());
    let [first_contribution, second_contribution] = assessment.item_contributions.as_slice() else {
        panic!("expected two depth-compatible items");
    };
    assert_eq!(first_contribution.item_id, first);
    assert_gain_eq(depth_gain(first_contribution.gain, corners), 0.5);
    assert_eq!(second_contribution.item_id, second);
    assert_gain_eq(depth_gain(second_contribution.gain, corners), 0.0);
    assert!(assessment
        .item_contributions
        .iter()
        .all(|contribution| contribution.pnp_state == AutoAdmissionPnpState::Valid));

    session.set_enabled(second, false).unwrap();
    let assessment = assess_dataset(&session, &criteria);
    let [contribution] = assessment.item_contributions.as_slice() else {
        panic!("expected one enabled compatible item");
    };
    assert_eq!(assessment.depth_bin_counts.iter().sum::<usize>(), 4);
    assert_gain_eq(depth_gain(contribution.gain, corners), 0.5);
    let whole = RawGain {
        field: assessment.field_quota_filled,
        depth: assessment.depth_quota_filled,
        pose: assessment.pose_quota_filled,
    };
    assert_gain_eq(
        constraint_gain(whole, corners),
        constraint_gain(contribution.gain, corners),
    );
}

#[test]
fn auto_candidate_commit_rejects_same_size_wrong_source_without_mutating_dataset() {
    let mut session = CalibrationSession::new(board());
    configure_test_auto_admission(&mut session);
    let (token, revision) = auto_candidate_fixture_with_source(
        &session,
        3,
        12,
        "stream-3",
        Some(AutoCaptureAcquisitionKey::new("other-source", 0, "test-geometry").unwrap()),
    );

    let result = commit_found(&mut session, token, revision, test_pnp_observation());
    assert!(
        matches!(
            &result,
            Err(CalibrationSessionError::RejectAutoAdmissionBindingMismatch(mismatch))
                if mismatch.describe().contains("candidate source")
        ),
        "unexpected result: {result:?}"
    );
    assert!(session.items().is_empty());
    assert_eq!(session.selected(), None);
}

#[test]
fn auto_candidate_commit_preserves_active_dataset_detection_token() {
    let mut session = CalibrationSession::new(board());
    let dataset_id = add(&mut session, "dataset.png", 10);
    let dataset_token = session.begin_detection(dataset_id).unwrap();
    configure_test_auto_admission(&mut session);
    let (candidate_token, candidate_revision) = auto_candidate_fixture(&session, 1, 8);
    commit_found(
        &mut session,
        candidate_token,
        candidate_revision,
        test_pnp_observation(),
    )
    .unwrap();

    session.mark_reading(&dataset_token).unwrap();
    session.mark_detect_queued(&dataset_token).unwrap();
    session.mark_detecting(&dataset_token).unwrap();
    session
        .install_detection(&dataset_token, version(10), detection())
        .unwrap();
    assert!(matches!(
        session.item(dataset_id).unwrap().status,
        CalibrationItemStatus::Found(_)
    ));
    assert_eq!(session.items().len(), 2);
}

#[test]
fn pnp_combined_gain_counts_new_depth_and_pose_bins() {
    let mut session = CalibrationSession::new(board());
    let criteria = test_criteria();
    configure_test_auto_admission(&mut session);

    let (first_token, first_revision) = auto_candidate_fixture(&session, 1, 21);
    let first_pnp = observe([0.0, 0.0, 0.0], 100.0).unwrap();
    let assessment = assess_automatic(&session, &criteria, Some((&found(), &first_pnp))).unwrap();
    let corners = assessment.corner_count;
    let first_gain = assessment.candidate_gain.unwrap();
    assert_gain_eq(field_gain(first_gain, corners), 0.25);
    assert_gain_eq(depth_gain(first_gain, corners), 0.25);
    assert_gain_eq(pose_gain(first_gain), 1.0);
    assert_gain_eq(constraint_gain(first_gain, corners), 0.5);
    commit_found(&mut session, first_token, first_revision, first_pnp).unwrap();

    let (second_token, second_revision) = auto_candidate_fixture(&session, 2, 22);
    let second_pnp = observe([0.0, 0.5, 0.0], 1_000.0).unwrap();
    let assessment = assess_automatic(&session, &criteria, Some((&found(), &second_pnp))).unwrap();
    let second_gain = assessment.candidate_gain.unwrap();
    assert_gain_eq(field_gain(second_gain, corners), 0.0);
    assert_gain_eq(depth_gain(second_gain, corners), 0.25);
    assert_gain_eq(pose_gain(second_gain), 1.0);
    assert_gain_eq(constraint_gain(second_gain, corners), 1.25 / 3.0);
    assert_eq!(assessment.depth_bins, 2);
    assert_eq!(assessment.pose_bins, 2);
    commit_found(&mut session, second_token, second_revision, second_pnp).unwrap();

    let source_digest = test_binding().digest;
    let dataset_digest = InitialIntrinsicsBinding::dataset_full_frame(intrinsics(), size())
        .unwrap()
        .digest;
    assert!(session.items().iter().all(|item| {
        item.pnp_observation
            .as_ref()
            .is_some_and(|observation| observation.binding_digest == dataset_digest)
            && item
                .admission_pnp_observation
                .as_ref()
                .is_some_and(|observation| observation.binding_digest == source_digest)
    }));
}

#[test]
fn auto_candidate_rejects_pnp_evidence_bound_to_other_intrinsics() {
    let mut session = CalibrationSession::new(board());
    configure_test_auto_admission(&mut session);
    let (token, revision) = auto_candidate_fixture(&session, 1, 23);
    let mut observation = test_pnp_observation();
    observation.binding_digest = other_binding_digest();

    let result = commit_found(&mut session, token, revision, observation);
    assert!(matches!(
        result,
        Err(CalibrationSessionError::RejectAutoAdmissionBindingMismatch(mismatch))
            if mismatch.describe().contains("PnP evidence")
    ));
    assert!(session.items().is_empty());
}

#[test]
fn auto_admission_rejects_pnp_reprojection_metrics_beyond_active_limits() {
    let mut session = CalibrationSession::new(board());
    configure_test_auto_admission(&mut session);
    let mut high_rmse = test_pnp_observation();
    high_rmse.reprojection_rmse = number(1.6);
    assert!(matches!(
        assess_automatic(&session, &test_criteria(), Some((&found(), &high_rmse))),
        Err(CalibrationSessionError::RejectInvalidPnP(PnpFault::Rmse { .. }))
    ));

    let mut high_maximum = test_pnp_observation();
    high_maximum.max_reprojection_error = number(4.1);
    assert!(matches!(
        assess_automatic(&session, &test_criteria(), Some((&found(), &high_maximum))),
        Err(CalibrationSessionError::RejectInvalidPnP(PnpFault::MaxError { .. }))
    ));
}

#[test]
fn pnp_observation_rejects_nonpositive_board_point_depth() {
    assert_eq!(
        observe([0.0, 0.0, 0.0], -1.0).err(),
        Some(CalibrationSessionError::RejectInvalidPnP(
            PnpFault::BoardBehindCamera {
                minimum: number(-1.0)
            }
        ))
    );
}

#[test]
fn pose_evidence_must_be_finite() {
    assert_eq!(
        observe([f64::NAN, 0.0, 0.0], 1.0).err(),
        Some(CalibrationSessionError::RejectInvalidPnP(
            PnpFault::PoseVectors
        ))
    );
    let mut observation = test_pnp_observation();
    let pose = measure_pose(
        observation.rotation_vector,
        observation.translation_vector,
        board(),
    );
    observation.reprojection_rmse = number(-0.5);
    assert_eq!(
        observation.geometry(board(), &pose).err(),
        Some(CalibrationSessionError::RejectInvalidPnP(PnpFault::Metrics))
    );
    observation.reprojection_rmse = number(0.5);
    observation.depth = number(f64::INFINITY);
    assert_eq!(
        observation.geometry(board(), &pose).err(),
        Some(CalibrationSessionError::RejectInvalidPnP(
            PnpFault::DerivedValues
        ))
    );
}

#[test]
fn dataset_evidence_is_installed_on_found_items_alone() {
    let mut session = CalibrationSession::new(board());
    let pending = add(&mut session, "a.png", 10);
    let observation = test_pnp_observation();
    let evidence = PnpEvidence {
        observation,
        pose: measure_pose(
            observation.rotation_vector,
            observation.translation_vector,
            board(),
        ),
    };
    assert_eq!(
        session.install_dataset_pnp_observation(pending, Some(evidence)),
        Err(CalibrationSessionError::StaleResult)
    );
    let unknown = CalibrationItemId(99);
    assert_eq!(
        session.install_dataset_pnp_observation(unknown, Some(evidence)),
        Err(CalibrationSessionError::UnknownItem(unknown))
    );
    assert_eq!(
        session.item(unknown).err(),
        Some(CalibrationSessionError::UnknownItem(unknown))
    );
    assert_eq!(
        session.item_mut(unknown).err(),
        Some(CalibrationSessionError::UnknownItem(unknown))
    );
    let found = add_found(&mut session, "b.png", 20);
    session
        .install_dataset_pnp_observation(found, Some(evidence))
        .unwrap();
    assert_eq!(session.item(found).unwrap().pnp_observation, Some(observation));
    session.install_dataset_pnp_observation(found, None).unwrap();
    assert_eq!(session.item(found).unwrap().pnp_observation, None);
}

#[test]
fn detection_results_are_checked_before_they_count() {
    let mut session = CalibrationSession::new(board());
    let id = add(&mut session, "a.png", 10);
    let token = session.begin_detection(id).unwrap();
    assert_eq!(
        session.begin_detection(id).err(),
        Some(CalibrationSessionError::ItemBusy(id))
    );
    let mut short = found();
    short.corners.pop();
    assert!(matches!(
        session.install_detection(&token, version(10), ChessboardDetectionOutcome::Found(short)),
        Err(CalibrationSessionError::InvalidData(CalibrationDataError::CornerCount { .. }))
    ));
    let observation = test_pnp_observation();
    let evidence = PnpEvidence {
        observation,
        pose: measure_pose(
            observation.rotation_vector,
            observation.translation_vector,
            board(),
        ),
    };
    assert_eq!(
        session.install_detection_with_pnp(
            &token,
            version(10),
            ChessboardDetectionOutcome::NotFound { image_size: size() },
            Some(evidence),
        ),
        Err(CalibrationSessionError::RejectInvalidPnP(
            PnpFault::WithoutDetection
        ))
    );
    assert_eq!(
        session.install_detection(&token, version(11), detection()),
        Err(CalibrationSessionError::SourceChanged(id))
    );
    assert_eq!(
        session.install_failure(&token, "late".to_owned()),
        Err(CalibrationSessionError::StaleResult)
    );
    let token = session.begin_detection(id).unwrap();
    session.install_failure(&token, "broken".to_owned()).unwrap();
    assert!(matches!(
        &session.items()[0].status,
        CalibrationItemStatus::Failed(message) if message == "broken"
    ));
}

#[test]
fn candidates_are_bound_to_fresh_png_frames() {
    let mut session = CalibrationSession::new(board());
    configure_test_auto_admission(&mut session);
    let identity = || {
        StreamFrameIdentity::unavailable(
            StreamSessionId::new("stream").unwrap(),
            0,
            5,
            "test fixture".to_owned(),
        )
    };
    assert_eq!(
        session
            .bind_auto_candidate(
                AutoCandidateId::new(1),
                identity(),
                version(10),
                "file".to_owned(),
                Some(test_acquisition_key(0)),
            )
            .err(),
        Some(CalibrationSessionError::InvalidAutoCandidateRevision)
    );
    let (token, revision) =
        auto_candidate_fixture_with_source(&session, 1, 5, "stream", Some(test_acquisition_key(0)));
    assert_eq!(token.id(), AutoCandidateId::new(1));
    assert_eq!(token.board(), board());
    assert_eq!(token.source_revision(), &revision);
    assert_eq!(token.frame_identity().frame_sequence, 5);
    commit_found(&mut session, token, revision, test_pnp_observation()).unwrap();
    assert_eq!(
        session
            .bind_auto_candidate(
                AutoCandidateId::new(2),
                identity(),
                ephemeral(format!("{:064x}", 5)),
                "again".to_owned(),
                Some(test_acquisition_key(0)),
            )
            .err(),
        Some(CalibrationSessionError::AutoCandidateAlreadyPresent)
    );
    let (token, revision) = auto_candidate_fixture(&session, 3, 6);
    let mut wide = found();
    wide.image_size = CalibrationImageSize::new(800, 600).unwrap();
    let refused = commit(
        &mut session,
        &test_criteria(),
        AutoCandidateCommit::new(token, revision, wide, test_pnp_observation()),
    );
    assert!(matches!(
        refused,
        Err(CalibrationSessionError::RejectIncompatibleImageSize { .. })
    ));
    let (token, revision) = auto_candidate_fixture(&session, 4, 7);
    let mut outside = found();
    outside.corners[3] = point(640.0, 20.0);
    assert_eq!(
        commit(
            &mut session,
            &test_criteria(),
            AutoCandidateCommit::new(token, revision, outside, test_pnp_observation()),
        ),
        Err(CalibrationSessionError::RejectInvalidCandidateGeometry(
            GeometryFault::OutsideImage
        ))
    );
    assert_eq!(session.items().len(), 1);
}

#[test]
fn removal_moves_the_selection_and_clearing_forgets_everything() {
    let mut session = CalibrationSession::new(board());
    let first = add_found(&mut session, "a.png", 10);
    let second = add_found(&mut session, "b.png", 20);
    assert_eq!(session.selected(), Some(first));
    session.set_selected(second).unwrap();
    assert_eq!(session.selected(), Some(second));
    session.remove(second).unwrap();
    assert_eq!(session.selected(), Some(first));
    assert_eq!(
        session.remove(second),
        Err(CalibrationSessionError::UnknownItem(second))
    );
    let token = session.begin_detection(first).unwrap();
    session.remove(first).unwrap();
    assert_eq!(session.selected(), None);
    assert_eq!(
        session.cancel_detection(&token),
        Err(CalibrationSessionError::StaleResult)
    );
    add_found(&mut session, "c.png", 30);
    session.clear();
    assert!(session.items().is_empty());
    assert_eq!(session.selected(), None);
}

#[test]
fn admission_parts_come_in_pairs_that_fit() {
    let mut session = CalibrationSession::new(board());
    assert_eq!(
        session.configure_auto_admission(Some(test_baseline()), None),
        Err(CalibrationSessionError::RejectAutoAdmissionBindingMismatch(
            BindingMismatch::Unpaired
        ))
    );
    let other =
        InitialIntrinsicsBinding::full_frame(intrinsics(), size(), test_acquisition_key(1)).unwrap();
    assert_eq!(
        session.configure_auto_admission(Some(test_baseline()), Some(other)),
        Err(CalibrationSessionError::RejectAutoAdmissionBindingMismatch(
            BindingMismatch::AcquisitionSource
        ))
    );
    assert!(AutoCaptureAcquisitionKey::new(" ", 0, "geometry").is_err());
    let mut baseline = test_baseline();
    let binding = test_binding();
    assert_eq!(
        AutoCandidateAdmission {
            baseline: &baseline,
            initial_intrinsics_binding: &binding
        }
        .validate(),
        Ok(())
    );
    baseline.criteria.field_columns = 3;
    assert_eq!(
        AutoCandidateAdmission {
            baseline: &baseline,
            initial_intrinsics_binding: &binding
        }
        .validate(),
        Err(CalibrationSessionError::InvalidAutoCaptureBaseline(
            BaselineFault::Digest
        ))
    );
}

#[test]
fn field_cells_are_listed_in_order() {
    let mut criteria = test_criteria();
    criteria.field_columns = 3;
    let mut spread = found();
    spread.corners[0] = point(630.0, 470.0);
    let measured = measure_detection(&spread, &criteria, board());
    assert_eq!(
        detection_field_cells(&criteria, &measured.corner_positions),
        vec![0, 5]
    );
}

#[test]
fn boards_and_sizes_are_checked() {
    assert!(BoardSpec::new(1, 2, number(1.0)).is_err());
    assert!(BoardSpec::new(2, 2, number(0.0)).is_err());
    assert!(BoardSpec::new(2, 2, number(f64::NAN)).is_err());
    assert_eq!(BoardSpec::new(9, 6, number(1.0)).unwrap().corner_count(), Ok(54));
    assert!(CalibrationImageSize::new(0, 1).is_err());
    assert_eq!(
        adjacent_pairs(board()),
        vec![(0, 1), (0, 2), (1, 3), (2, 3)]
    );
}

#[test]
fn digests_are_those_of_sha256() {
    assert_eq!(
        sha256_hex(b"abc"),
        "sha256:ba7816bf8f01cfea414140de5dae2223b00361a396177a9cb410ff61f20015ad"
    );
    assert_eq!(
        SnapshotHash::digest_bytes(b""),
        SnapshotHash {
            w0: 0xe3b0c44298fc1c14,
            w1: 0x9afbf4c8996fb924,
            w2: 0x27ae41e4649b934c,
            w3: 0xa495991b7852b855,
        }
    );
    let mut one = SnapshotHash::builder("domain");
    one.string("ab");
    one.string("c");
    let mut other = SnapshotHash::builder("domain");
    other.string("a");
    other.string("bc");
    assert_ne!(one.finish(), other.finish());
}

#[test]
fn only_valid_evidence_is_not_blocked() {
    let valid = AutoAdmissionPnpState::Valid;
    assert!(valid.is_valid() && !valid.is_blocked());
    let missing = AutoAdmissionPnpState::MissingObservation;
    assert!(!missing.is_valid() && missing.is_blocked());
}

#[test]
fn a_candidate_of_another_source_is_refused_with_both_sources() {
    let mut session = CalibrationSession::new(board());
    configure_test_auto_admission(&mut session);
    let (token, revision) = auto_candidate_fixture_with_source(
        &session,
        2,
        11,
        "stream-2",
        Some(AutoCaptureAcquisitionKey::new("other \"x\"", 0, "test-geometry").unwrap()),
    );
    let error = commit_found(&mut session, token, revision, test_pnp_observation()).unwrap_err();
    let CalibrationSessionError::RejectAutoAdmissionBindingMismatch(mismatch) = error else {
        panic!("unexpected error: {error:?}");
    };
    let other = AutoCaptureAcquisitionKey::new("other \"x\"", 0, "test-geometry").unwrap();
    assert_eq!(other.describe(), format!("{other:?}"));
    assert_eq!(
        mismatch.describe(),
        format!(
            "candidate source {:?} does not match active baseline source {:?}",
            other,
            test_acquisition_key(0)
        )
    );
    assert!(session.items().is_empty());
}
