use camera_toolbox_app::engine::dataset::{
    CalibrationDataset, CalibrationDatasetSample, DatasetImageRef, DatasetSampleAcceptance,
    DatasetSampleScore, CALIBRATION_DATASET_KIND,
};
use camera_toolbox_app::engine::node::{NodeAction, NodeError};
use camera_toolbox_app::engine::nodes::collector::{
    DatasetCollectorFactory, DatasetCollectorNode,
};
use camera_toolbox_app::engine::nodes::composite::{
    check_calibration_dataset, grid_coverage, CoverageAnalyzerFactory, CoverageAnalyzerNode,
    GridCell, OverlayComposerFactory, PoseGuideFactory,
};
use camera_toolbox_app::engine::packet::{
    CalibrationFrameScore, DataPacket, DecodedVideoFrame, DetectionPacket, FrameProvenance,
    ImageFrame, ImageFrameIdentity,
};
use camera_toolbox_app::engine::runtime::{EngineServices, EventPart, NodeRuntime, RuntimeEffect};
use camera_toolbox_app::engine::spec::{NodeRuntimeState, NodeSpec, PortCardinality, PortSpec};
use camera_toolbox_app::ieee::{Real32, Real64};
use camera_toolbox_app::json::{JsonMember, JsonValue};
use camera_toolbox_app::model::{CalibrationImageSize, CalibrationPoint, ChessboardDetection};
use camera_toolbox_app::source::{SourcePts, StreamFrameIdentity, StreamSessionId};
use std::sync::Arc;

fn object(members: Vec<(&str, JsonValue)>) -> JsonValue {
    JsonValue::Object(
        members
            .into_iter()
            .map(|(name, value)| JsonMember::new(name, value))
            .collect(),
    )
}

fn number(x: f64) -> Real64 {
    Real64::from_bits(x.to_bits())
}

fn port(id: &str) -> PortSpec {
    PortSpec {
        id: id.to_owned(),
        label: id.to_owned(),
        kind: "status.metrics".to_owned(),
        cardinality: PortCardinality::One,
        required: false,
    }
}

fn node_spec(kind: &str, inputs: Vec<&str>, outputs: Vec<&str>) -> NodeSpec {
    NodeSpec {
        id: "n".to_owned(),
        kind: kind.to_owned(),
        title: kind.to_owned(),
        inputs: inputs.into_iter().map(port).collect(),
        outputs: outputs.into_iter().map(port).collect(),
        config: object(vec![]),
    }
}

fn runtime() -> NodeRuntime {
    NodeRuntime::new(EngineServices::default())
}

fn emitted(rt: &NodeRuntime) -> Vec<(&str, &DataPacket)> {
    rt.log
        .iter()
        .filter_map(|effect| match effect {
            RuntimeEffect::Emit { port, packet } => Some((port.as_str(), packet)),
            _ => None,
        })
        .collect()
}

fn events(rt: &NodeRuntime) -> Vec<String> {
    rt.log
        .iter()
        .filter_map(|effect| match effect {
            RuntimeEffect::Event { parts } => Some(
                parts
                    .iter()
                    .map(|part| match part {
                        EventPart::Text(text) => text.clone(),
                        EventPart::Fixed3(value) => format!("{:.3}", f64::from_bits(value.bits)),
                    })
                    .collect::<String>(),
            ),
            _ => None,
        })
        .collect()
}

fn identity(sequence: u64) -> ImageFrameIdentity {
    ImageFrameIdentity {
        provenance: FrameProvenance::Stream {
            stream_id: StreamSessionId::new("test-stream").expect("stream id"),
            channel: 3,
        },
        frame_sequence: sequence,
        source_pts: SourcePts::Unavailable {
            reason: "test source PTS".to_owned(),
        },
        host_monotonic_time_ns: sequence * 1_000,
        device_timestamp_ns: None,
    }
}

fn detection(width: u32, height: u32, x: f32, y: f32) -> ChessboardDetection {
    ChessboardDetection {
        image_size: CalibrationImageSize::new(width, height).expect("image size"),
        corners: vec![CalibrationPoint {
            x: Real32::from_bits(x.to_bits()),
            y: Real32::from_bits(y.to_bits()),
        }],
    }
}

fn rich_sample(
    id: &str,
    detection: ChessboardDetection,
    accepted: bool,
    enabled: bool,
) -> CalibrationDatasetSample {
    CalibrationDatasetSample {
        id: id.to_owned(),
        image_ref: DatasetImageRef {
            reference: format!("runtime://frame/{id}"),
            width: detection.image_size.width,
            height: detection.image_size.height,
            format: Some("GRAY8".to_owned()),
        },
        detection: Arc::new(detection),
        score: Some(DatasetSampleScore {
            score: number(0.5),
            frame_sequence: 1,
        }),
        acceptance: DatasetSampleAcceptance { accepted, enabled },
        provenance: object(vec![
            ("source", object(vec![("kind", JsonValue::string("test"))])),
            (
                "frameIdentity",
                object(vec![("frameSequence", JsonValue::Uint(1))]),
            ),
        ]),
    }
}

fn rich_dataset(samples: Vec<CalibrationDatasetSample>) -> CalibrationDataset {
    CalibrationDataset {
        kind: CALIBRATION_DATASET_KIND.to_owned(),
        board: JsonValue::Null,
        count: samples.len(),
        samples,
        selected_sample_id: None,
    }
}

fn collector() -> DatasetCollectorNode {
    let mut spec = node_spec(
        "datasetCollector",
        vec!["frames", "image", "detection", "score"],
        vec!["dataset", "preview"],
    );
    spec.config = object(vec![("maxSamples", JsonValue::Uint(4))]);
    DatasetCollectorFactory.instantiate(spec)
}

fn image(sequence: u64) -> DataPacket {
    DataPacket::ImageFrame(Arc::new(
        ImageFrame::rgba8(2, 2, vec![0_u8; 16], identity(sequence)).expect("image"),
    ))
}

fn video_frame(sequence: u64) -> DataPacket {
    DataPacket::VideoFrame(Arc::new(DecodedVideoFrame {
        width: 2,
        height: 2,
        rgba: vec![0_u8; 16],
        identity: StreamFrameIdentity {
            stream_id: StreamSessionId::new("test-stream").expect("stream id"),
            channel: 3,
            frame_sequence: sequence,
            source_pts: SourcePts::Unavailable {
                reason: "test source PTS".to_owned(),
            },
            host_monotonic_time_ns: sequence * 1_000,
            device_timestamp_ns: None,
        },
    }))
}

fn detection_packet(detection: ChessboardDetection, sequence: u64) -> DataPacket {
    DataPacket::Detection(Arc::new(DetectionPacket {
        detection: Arc::new(detection),
        frame_identity: identity(sequence),
    }))
}

fn score_packet(score: f64, sequence: u64) -> DataPacket {
    DataPacket::Score(Arc::new(CalibrationFrameScore {
        score: number(score),
        frame_identity: identity(sequence),
    }))
}

fn custom(name: &str, payload: JsonValue) -> NodeAction {
    NodeAction::Custom {
        name: name.to_owned(),
        payload,
    }
}

fn for_sample(id: &str) -> JsonValue {
    object(vec![("sampleId", JsonValue::string(id))])
}

fn last_dataset(rt: &NodeRuntime) -> Arc<CalibrationDataset> {
    match emitted(rt).last().expect("emitted packet").1 {
        DataPacket::Dataset(dataset) => Arc::clone(dataset),
        packet => panic!("expected dataset, got {packet:?}"),
    }
}

fn last_coverage(rt: &NodeRuntime) -> Arc<JsonValue> {
    match emitted(rt).last().expect("emitted packet").1 {
        DataPacket::Coverage(coverage) => Arc::clone(coverage),
        packet => panic!("expected coverage, got {packet:?}"),
    }
}

fn frame_sequence(sample: &CalibrationDatasetSample) -> Option<u64> {
    sample
        .provenance
        .get("frameIdentity")
        .and_then(|identity| identity.get_u64("frameSequence"))
}

fn cell_of(detection: &ChessboardDetection, cols: u64, rows: u64) -> GridCell {
    let count = detection.corners.len() as f64;
    let (x, y) = detection.corners.iter().fold((0.0, 0.0), |(x, y), corner| {
        (
            x + f64::from(f32::from_bits(corner.x.bits)),
            y + f64::from(f32::from_bits(corner.y.bits)),
        )
    });
    let x = (x / count / f64::from(detection.image_size.width)).clamp(0.0, 1.0);
    let y = (y / count / f64::from(detection.image_size.height)).clamp(0.0, 1.0);
    GridCell {
        col: (x * cols as f64).floor() as u64,
        row: (y * rows as f64).floor() as u64,
    }
}

fn analyze(node: &mut CoverageAnalyzerNode, dataset: CalibrationDataset, rt: &mut NodeRuntime) {
    let job = node
        .on_input("dataset", DataPacket::Dataset(Arc::new(dataset)))
        .expect("coverage input")
        .expect("a dataset begins an analysis");
    let cells = job
        .detections
        .iter()
        .map(|detection| cell_of(detection, job.cols, job.rows))
        .collect();
    let coverage = grid_coverage(&cells, job.cols, job.rows);
    let ratio = number(coverage.occupied as f64 / coverage.total as f64);
    node.analyzed(&coverage, ratio, rt).expect("analyzed");
}

#[test]
fn factories_instantiate_with_expected_kinds() {
    assert_eq!(OverlayComposerFactory.kind(), "overlayComposer");
    assert_eq!(DatasetCollectorFactory.kind(), "datasetCollector");
    assert_eq!(CoverageAnalyzerFactory.kind(), "coverageAnalyzer");
    assert_eq!(PoseGuideFactory.kind(), "poseGuide");
    let composer = OverlayComposerFactory.instantiate(node_spec("overlayComposer", vec![], vec![]));
    assert_eq!(composer.spec.kind, "overlayComposer");
    let dataset = DatasetCollectorFactory.instantiate(node_spec("datasetCollector", vec![], vec![]));
    assert_eq!(dataset.spec.kind, "datasetCollector");
    let coverage = CoverageAnalyzerFactory.instantiate(node_spec("coverageAnalyzer", vec![], vec![]));
    assert_eq!(coverage.spec.kind, "coverageAnalyzer");
    let guide = PoseGuideFactory.instantiate(node_spec("poseGuide", vec![], vec![]));
    assert_eq!(guide.spec.kind, "poseGuide");
}

#[test]
fn coverage_grid_defaults_are_locked() {
    let mut node =
        CoverageAnalyzerFactory.instantiate(node_spec("coverageAnalyzer", vec![], vec![]));
    let job = node
        .on_input("dataset", DataPacket::Dataset(Arc::new(rich_dataset(vec![]))))
        .expect("empty dataset")
        .expect("job");
    assert_eq!((job.cols, job.rows), (6, 4));
}

#[test]
fn coverage_is_based_on_distinct_detected_grid_cells() {
    let detections = [
        detection(100, 100, 10.0, 10.0),
        detection(100, 100, 90.0, 10.0),
    ];
    let cells = detections.iter().map(|item| cell_of(item, 2, 2)).collect();
    let coverage = grid_coverage(&cells, 2, 2);
    assert_eq!(coverage.sample_count, 2);
    assert_eq!(coverage.occupied, 2);
    assert_eq!(coverage.total, 4);
    assert_eq!(coverage.occupied as f64 / coverage.total as f64, 0.5);
    assert_eq!(coverage.missing.first(), Some(&GridCell { col: 0, row: 1 }));
}

#[test]
fn rich_dataset_parser_requires_complete_sample_metadata() {
    let payload = || {
        rich_dataset(vec![rich_sample(
            "sample-1",
            detection(100, 100, 10.0, 10.0),
            true,
            true,
        )])
    };
    let parsed = payload();
    check_calibration_dataset(&parsed).expect("rich dataset is accepted");
    assert_eq!(parsed.count, 1);
    assert_eq!(
        parsed.samples[0].image_ref.reference,
        "runtime://frame/sample-1"
    );
    assert!(parsed.samples[0].acceptance.accepted);
    assert!(parsed.samples[0].acceptance.enabled);

    let mut bare = payload();
    bare.samples[0].id = String::new();
    bare.samples[0].provenance = JsonValue::Null;
    assert!(check_calibration_dataset(&bare).is_err());

    let mut mismatched_score = payload();
    mismatched_score.samples[0].score = Some(DatasetSampleScore {
        score: number(0.5),
        frame_sequence: 2,
    });
    assert!(check_calibration_dataset(&mismatched_score).is_err());

    let mut wrong_count = payload();
    wrong_count.count = 2;
    assert!(check_calibration_dataset(&wrong_count).is_err());
}

#[test]
fn dataset_faults_name_the_sample() {
    let fault = |change: &dyn Fn(&mut CalibrationDataset)| {
        let mut dataset = rich_dataset(vec![
            rich_sample("a", detection(100, 100, 1.0, 1.0), true, true),
            rich_sample("b", detection(100, 100, 1.0, 1.0), true, true),
        ]);
        change(&mut dataset);
        check_calibration_dataset(&dataset)
            .expect_err("faulty dataset")
            .describe()
    };
    assert_eq!(
        fault(&|dataset| dataset.kind = "other".to_owned()),
        "node precondition unmet: dataset payload kind must be calib.dataset.v1"
    );
    assert_eq!(
        fault(&|dataset| dataset.count = 5),
        "node precondition unmet: dataset count 5 does not match 2 samples"
    );
    assert_eq!(
        fault(&|dataset| dataset.samples[1].id = "  ".to_owned()),
        "node precondition unmet: dataset sample 1 has an empty id"
    );
    assert_eq!(
        fault(&|dataset| dataset.samples[0].image_ref.width = 0),
        "node precondition unmet: dataset sample 0 has an invalid imageRef"
    );
    assert_eq!(
        fault(&|dataset| dataset.samples[0].image_ref.width = 99),
        "node precondition unmet: dataset sample 0 imageRef size does not match detection image size"
    );
    assert_eq!(
        fault(&|dataset| dataset.samples[1].provenance = JsonValue::Null),
        "node precondition unmet: dataset sample 1 provenance must contain frameIdentity.frameSequence"
    );
    assert_eq!(
        fault(&|dataset| dataset.samples[1].score = Some(DatasetSampleScore {
            score: number(1.5),
            frame_sequence: 1
        })),
        "node precondition unmet: dataset sample 1 has an invalid score"
    );
    assert_eq!(
        fault(&|dataset| dataset.samples[1].score = Some(DatasetSampleScore {
            score: number(1.0),
            frame_sequence: 9
        })),
        "node precondition unmet: dataset sample 1 score frameSequence does not match provenance"
    );
}

#[test]
fn collector_emits_sample_list_with_metadata_score_and_acceptance() {
    let mut rt = runtime();
    let mut node = collector();
    node.on_input("image", image(7), &mut rt).expect("image input");
    node.on_input("score", score_packet(0.75, 7), &mut rt)
        .expect("score input");
    node.on_input("detection", detection_packet(detection(2, 2, 1.0, 1.0), 7), &mut rt)
        .expect("detection input");
    node.on_action(NodeAction::Trigger, &mut rt)
        .expect("emit dataset");

    let dataset = last_dataset(&rt);
    let sample = &dataset.samples[0];
    assert_eq!(dataset.kind, CALIBRATION_DATASET_KIND);
    assert_eq!(dataset.count, 1);
    assert_eq!(sample.id, "sample-1");
    assert_eq!(sample.image_ref.width, 2);
    assert_eq!(sample.image_ref.height, 2);
    assert_eq!(sample.image_ref.format.as_deref(), Some("RGBA8"));
    assert_eq!(sample.score.expect("score").score, number(0.75));
    assert_eq!(
        sample.acceptance,
        DatasetSampleAcceptance {
            accepted: true,
            enabled: true
        }
    );
    assert_eq!(frame_sequence(sample), Some(7));
    assert!(check_calibration_dataset(&dataset).is_ok());
    assert_eq!(
        events(&rt).last().map(String::as_str),
        Some("emitted dataset with 1 samples (1 accepted/enabled)")
    );
}

#[test]
fn sample_provenance_and_reference_name_the_frame() {
    let mut rt = runtime();
    let mut node = collector();
    node.on_input("detection", detection_packet(detection(2, 2, 1.0, 1.0), 7), &mut rt)
        .expect("detection input");
    let dataset = last_dataset(&rt);
    let sample = &dataset.samples[0];
    assert_eq!(
        sample.image_ref.reference,
        "runtime://frame/ImageFrameIdentity { provenance: Stream { stream_id: StreamSessionId(\"test-stream\"), channel: 3 }, frame_sequence: 7, source_pts: Unavailable { reason: \"test source PTS\" }, host_monotonic_time_ns: 7000, device_timestamp_ns: None }"
    );
    let source = sample.provenance.get("source").expect("source");
    assert_eq!(source.get_str("kind"), Some("stream"));
    assert_eq!(source.get_str("streamId"), Some("test-stream"));
    assert_eq!(source.get_u64("channel"), Some(3));
    let frame = sample.provenance.get("frameIdentity").expect("frame identity");
    assert_eq!(frame.get_u64("hostMonotonicTimeNs"), Some(7_000));
    assert_eq!(
        frame.get("sourcePts").and_then(|pts| pts.get_str("kind")),
        Some("unavailable")
    );
}

#[test]
fn collector_auto_emits_dataset_when_detection_arrives() {
    let mut rt = runtime();
    let mut node = collector();
    node.on_input("detection", detection_packet(detection(2, 2, 1.0, 1.0), 7), &mut rt)
        .expect("detection input emits dataset");

    let dataset = last_dataset(&rt);
    assert_eq!(dataset.kind, CALIBRATION_DATASET_KIND);
    assert_eq!(dataset.count, 1);
    assert_eq!(dataset.samples[0].id, "sample-1");
    assert_eq!(dataset.samples[0].score, None);
    assert_eq!(frame_sequence(&dataset.samples[0]), Some(7));
}

#[test]
fn collector_never_joins_image_or_score_by_time() {
    let mut rt = runtime();
    let mut node = collector();
    node.on_input("image", image(8), &mut rt).expect("image input");
    node.on_input("score", score_packet(0.75, 8), &mut rt)
        .expect("score input");
    node.on_input("detection", detection_packet(detection(2, 2, 1.0, 1.0), 7), &mut rt)
        .expect("detection input");
    node.on_action(NodeAction::Trigger, &mut rt)
        .expect("emit dataset");

    let dataset = last_dataset(&rt);
    let sample = &dataset.samples[0];
    assert!(sample.score.is_none());
    assert!(sample.image_ref.format.is_none());
    assert_eq!(frame_sequence(sample), Some(7));
}

#[test]
fn collector_sample_actions_update_acceptance_and_reject_missing_payload() {
    let mut rt = runtime();
    let mut node = collector();
    node.on_input("detection", detection_packet(detection(2, 2, 1.0, 1.0), 7), &mut rt)
        .expect("detection input");
    node.on_action(custom("reject", for_sample("sample-1")), &mut rt)
        .expect("reject sample");
    assert_eq!(
        last_dataset(&rt).samples[0].acceptance,
        DatasetSampleAcceptance {
            accepted: false,
            enabled: true
        }
    );

    node.on_action(custom("disable", for_sample("sample-1")), &mut rt)
        .expect("disable sample");
    assert_eq!(
        last_dataset(&rt).samples[0].acceptance,
        DatasetSampleAcceptance {
            accepted: false,
            enabled: false
        }
    );

    let error = node
        .on_action(custom("accept", JsonValue::Null), &mut rt)
        .expect_err("missing sample id must be rejected");
    assert!(matches!(error, NodeError::Precondition(_)));
}

#[test]
fn judgements_can_be_undone_and_samples_deleted() {
    let mut rt = runtime();
    let mut node = collector();
    node.on_input("image", image(7), &mut rt).expect("image input");
    node.on_input("detection", detection_packet(detection(2, 2, 1.0, 1.0), 7), &mut rt)
        .expect("detection input");
    for action in ["reject", "accept", "disable", "enable"] {
        node.on_action(custom(action, for_sample("sample-1")), &mut rt)
            .expect("judge sample");
    }
    assert_eq!(
        last_dataset(&rt).samples[0].acceptance,
        DatasetSampleAcceptance {
            accepted: true,
            enabled: true
        }
    );
    assert_eq!(
        events(&rt).last().map(String::as_str),
        Some("enable dataset sample sample-1")
    );
    node.on_action(custom("select", for_sample("sample-1")), &mut rt)
        .expect("select sample");
    node.on_action(custom("delete", for_sample("sample-1")), &mut rt)
        .expect("delete sample");
    let dataset = last_dataset(&rt);
    assert_eq!(dataset.count, 0);
    assert_eq!(dataset.selected_sample_id, None);
    assert_eq!(
        node.on_action(custom("delete", for_sample("sample-1")), &mut rt)
            .expect_err("gone")
            .describe(),
        "node precondition unmet: dataset sample `sample-1` does not exist"
    );
    node.on_input("detection", detection_packet(detection(2, 2, 1.0, 1.0), 9), &mut rt)
        .expect("detection input");
    assert_eq!(last_dataset(&rt).samples[0].id, "sample-2");
    node.on_action(custom("clear", JsonValue::Null), &mut rt)
        .expect("clear");
    assert_eq!(last_dataset(&rt).count, 0);
    assert_eq!(events(&rt).last().map(String::as_str), Some("dataset cleared"));
    assert!(matches!(
        node.on_action(NodeAction::Arm, &mut rt),
        Err(NodeError::UnsupportedAction(name)) if name == "arm"
    ));
}

#[test]
fn collector_records_video_frame_for_exact_identity_preview() {
    let mut rt = runtime();
    let mut node = collector();
    node.on_input("frames", video_frame(7), &mut rt)
        .expect("video frame input");
    node.on_input("detection", detection_packet(detection(2, 2, 1.0, 1.0), 7), &mut rt)
        .expect("detection input");
    rt.log.clear();

    node.on_action(custom("select", for_sample("sample-1")), &mut rt)
        .expect("select cached video frame");
    assert!(matches!(
        emitted(&rt).first(),
        Some(("preview", DataPacket::ImageFrame(_)))
    ));
}

#[test]
fn collector_select_emits_exact_cached_image_before_dataset_snapshot() {
    let mut rt = runtime();
    let mut node = collector();
    let mut pixels = vec![0_u8; 16];
    pixels[5] = 77;
    let image = Arc::new(ImageFrame::rgba8(2, 2, pixels.clone(), identity(7)).expect("image"));
    node.on_input("image", DataPacket::ImageFrame(Arc::clone(&image)), &mut rt)
        .expect("image input");
    node.on_input("detection", detection_packet(detection(2, 2, 1.0, 1.0), 7), &mut rt)
        .expect("detection input");
    rt.log.clear();

    node.on_action(custom("select", for_sample("sample-1")), &mut rt)
        .expect("select sample");

    let recorded = emitted(&rt);
    assert_eq!(recorded.len(), 2);
    let DataPacket::ImageFrame(preview) = recorded[0].1 else {
        panic!("select must emit cached image preview first");
    };
    assert!(Arc::ptr_eq(preview, &image));
    assert_eq!(preview.planes[0].bytes, pixels);
    assert!(preview.identity.eq_value(&image.identity));
    let DataPacket::Dataset(dataset) = recorded[1].1 else {
        panic!("select must leave dataset as the latest runtime output");
    };
    assert_eq!(dataset.selected_sample_id.as_deref(), Some("sample-1"));
}

#[test]
fn collector_select_rejects_nearby_but_nonidentical_image() {
    let mut rt = runtime();
    let mut node = collector();
    node.on_input("image", image(8), &mut rt).expect("image input");
    node.on_input("detection", detection_packet(detection(2, 2, 1.0, 1.0), 7), &mut rt)
        .expect("detection input");
    rt.log.clear();

    let error = node
        .on_action(custom("select", for_sample("sample-1")), &mut rt)
        .expect_err("select must reject a sample without an exact cached image");
    assert!(matches!(
        error,
        NodeError::Precondition(message) if message.contains("no exact cached image preview")
    ));
    assert!(node.selected_sample_id.is_none());
    assert!(emitted(&rt).is_empty());
}

#[test]
fn collector_bounds_preview_cache_by_sample_capacity() {
    let mut rt = runtime();
    let mut node = collector();
    node.on_config_update(object(vec![("maxSamples", JsonValue::Uint(1))]), &mut rt)
        .expect("reduce cache capacity");
    for sequence in 1..=2 {
        node.on_input("image", image(sequence), &mut rt)
            .expect("image input");
    }
    assert_eq!(node.cached_images.len(), 1);
    assert!(node.cached_images.entries[0].identity.eq_value(&identity(2)));
}

#[test]
fn collector_refuses_bad_input() {
    let mut rt = runtime();
    let mut node = collector();
    for (port, text) in [
        ("frames", "datasetCollector.frames requires stream.video-frame"),
        ("image", "datasetCollector.image requires image.frame"),
        ("detection", "datasetCollector.detection requires calib.detection"),
        ("score", "datasetCollector.score requires capture.score"),
    ] {
        let error = node
            .on_input(port, DataPacket::Json(Arc::new(JsonValue::Null)), &mut rt)
            .expect_err("wrong packet");
        assert_eq!(error, NodeError::Precondition(text.to_owned()));
    }
    node.on_input("other", DataPacket::Json(Arc::new(JsonValue::Null)), &mut rt)
        .expect("unknown ports are ignored");
    assert_eq!(
        node.on_input("score", score_packet(1.5, 1), &mut rt),
        Err(NodeError::Precondition(
            "datasetCollector.score must be finite and within [0, 1]".to_owned()
        ))
    );
    assert_eq!(
        node.on_config_update(object(vec![("maxSamples", JsonValue::Uint(0))]), &mut rt),
        Err(NodeError::Config(
            "datasetCollector.maxSamples must be positive".to_owned()
        ))
    );
    rt.full_ports.push("dataset".to_owned());
    assert!(matches!(
        node.on_action(NodeAction::Trigger, &mut rt),
        Err(NodeError::ChannelFull(_))
    ));
    node.next_sample_id = u64::MAX;
    assert_eq!(
        node.on_input("detection", detection_packet(detection(2, 2, 1.0, 1.0), 7), &mut rt),
        Err(NodeError::Execution(
            "dataset sample id counter overflowed".to_owned()
        ))
    );
}

#[test]
fn full_collector_takes_no_more_samples() {
    let mut rt = runtime();
    let mut node = collector();
    for sequence in 1..=6 {
        node.on_input(
            "detection",
            detection_packet(detection(2, 2, 1.0, 1.0), sequence),
            &mut rt,
        )
        .expect("detection input");
    }
    let dataset = last_dataset(&rt);
    assert_eq!(dataset.count, 4);
    let ids: Vec<&str> = dataset.samples.iter().map(|sample| sample.id.as_str()).collect();
    assert_eq!(ids, ["sample-1", "sample-2", "sample-3", "sample-4"]);
}

#[test]
fn coverage_only_uses_accepted_and_enabled_samples() {
    let dataset = rich_dataset(vec![
        rich_sample("active", detection(100, 100, 10.0, 10.0), true, true),
        rich_sample("rejected", detection(100, 100, 90.0, 10.0), false, true),
        rich_sample("disabled", detection(100, 100, 90.0, 90.0), true, false),
    ]);
    let mut rt = runtime();
    let mut node = CoverageAnalyzerFactory.instantiate(node_spec(
        "coverageAnalyzer",
        vec!["dataset"],
        vec!["coverage"],
    ));
    analyze(&mut node, dataset, &mut rt);

    let coverage = last_coverage(&rt);
    assert_eq!(coverage.get_u64("sampleCount"), Some(1));
    assert_eq!(coverage.get_u64("occupiedCells"), Some(1));
    assert_eq!(coverage.get_str("kind"), Some("calib.coverage.v1"));
    assert_eq!(coverage.get_real("coverageRatio"), Some(number(1.0 / 24.0)));
}

#[test]
fn config_update_applies_dataset_capacity_and_coverage_grid() {
    let mut rt = runtime();
    let mut collector = collector();
    for sequence in 1..=3 {
        collector
            .on_input(
                "detection",
                detection_packet(detection(2, 2, 1.0, 1.0), sequence),
                &mut rt,
            )
            .expect("record sample");
    }
    collector
        .on_config_update(object(vec![("maxSamples", JsonValue::Uint(2))]), &mut rt)
        .expect("update collector config");
    collector
        .on_action(NodeAction::Trigger, &mut rt)
        .expect("emit trimmed dataset");
    assert_eq!(last_dataset(&rt).count, 2);

    let mut coverage = CoverageAnalyzerFactory.instantiate(node_spec(
        "coverageAnalyzer",
        vec!["dataset"],
        vec!["coverage"],
    ));
    coverage
        .on_config_update(
            object(vec![
                ("gridCols", JsonValue::Uint(3)),
                ("gridRows", JsonValue::Uint(2)),
            ]),
            &mut rt,
        )
        .expect("update coverage grid");
    analyze(
        &mut coverage,
        rich_dataset(vec![rich_sample(
            "active",
            detection(100, 100, 10.0, 10.0),
            true,
            true,
        )]),
        &mut rt,
    );
    assert_eq!(last_coverage(&rt).get_u64("totalCells"), Some(6));
}

#[test]
fn coverage_refuses_unusable_grids_and_detections() {
    let mut rt = runtime();
    let mut node =
        CoverageAnalyzerFactory.instantiate(node_spec("coverageAnalyzer", vec![], vec![]));
    assert_eq!(
        node.on_config_update(object(vec![("gridCols", JsonValue::Uint(0))]), &mut rt),
        Err(NodeError::Config(
            "gridCols and gridRows must be positive".to_owned()
        ))
    );
    assert_eq!(
        node.on_config_update(
            object(vec![
                ("gridCols", JsonValue::Uint(u64::MAX)),
                ("gridRows", JsonValue::Uint(2)),
            ]),
            &mut rt
        ),
        Err(NodeError::Config("coverage grid is too large".to_owned()))
    );
    let infinite = rich_dataset(vec![rich_sample(
        "a",
        detection(100, 100, f32::INFINITY, 1.0),
        true,
        true,
    )]);
    assert_eq!(
        node.on_input("dataset", DataPacket::Dataset(Arc::new(infinite)))
            .err()
            .map(|error| error.describe()),
        Some("node precondition unmet: dataset sample 0 contains non-finite corner".to_owned())
    );
    let mut empty = detection(100, 100, 1.0, 1.0);
    empty.corners.clear();
    let empty = rich_dataset(vec![rich_sample("a", empty, true, true)]);
    assert_eq!(
        node.on_input("dataset", DataPacket::Dataset(Arc::new(empty)))
            .err()
            .map(|error| error.describe()),
        Some("node precondition unmet: dataset sample 0 has no usable image geometry".to_owned())
    );
    assert_eq!(
        node.on_input("dataset", DataPacket::Json(Arc::new(JsonValue::Null)))
            .err(),
        Some(NodeError::Precondition(
            "coverageAnalyzer.dataset requires calib.dataset".to_owned()
        ))
    );
}

#[test]
fn cells_are_occupied_or_missing() {
    let cells = vec![
        GridCell { col: 0, row: 0 },
        GridCell { col: 9, row: 9 },
        GridCell { col: 0, row: 0 },
    ];
    let coverage = grid_coverage(&cells, 3, 2);
    assert_eq!(coverage.occupied, 2);
    assert_eq!(
        coverage.missing,
        [
            GridCell { col: 1, row: 0 },
            GridCell { col: 2, row: 0 },
            GridCell { col: 0, row: 1 },
            GridCell { col: 1, row: 1 },
        ]
    );
    assert_eq!(coverage.occupied + coverage.missing.len(), 6);
}

#[test]
fn guide_points_to_the_first_missing_cell() {
    let mut rt = runtime();
    let mut analyzer = CoverageAnalyzerFactory.instantiate(node_spec(
        "coverageAnalyzer",
        vec!["dataset"],
        vec!["coverage", "overlay"],
    ));
    analyzer
        .on_config_update(
            object(vec![
                ("gridCols", JsonValue::Uint(2)),
                ("gridRows", JsonValue::Uint(1)),
            ]),
            &mut rt,
        )
        .expect("grid");
    analyze(
        &mut analyzer,
        rich_dataset(vec![rich_sample(
            "a",
            detection(100, 100, 10.0, 10.0),
            true,
            true,
        )]),
        &mut rt,
    );
    assert_eq!(events(&rt), ["coverage: 1 accepted/enabled samples"]);
    let packets = emitted(&rt);
    assert_eq!(packets.len(), 2);
    let DataPacket::Coverage(coverage) = packets[0].1 else {
        panic!("coverage goes first");
    };
    let DataPacket::Json(overlay) = packets[1].1 else {
        panic!("overlay goes second");
    };
    assert_eq!(overlay.get_str("kind"), Some("overlay"));
    assert_eq!(
        overlay.get("coverage").and_then(|item| item.get_u64("totalCells")),
        Some(2)
    );

    let mut guide = PoseGuideFactory.instantiate(node_spec("poseGuide", vec![], vec!["target"]));
    let mut out = runtime();
    guide
        .on_input("coverage", DataPacket::Coverage(Arc::clone(coverage)), &mut out)
        .expect("guide");
    let DataPacket::Target(target) = emitted(&out)[0].1 else {
        panic!("target expected");
    };
    assert_eq!(target.get_u64("gridCol"), Some(1));
    assert_eq!(target.get_u64("gridRow"), Some(0));
    assert_eq!(target.get_str("reason"), Some("uncovered-image-grid-cell"));
    assert_eq!(events(&out), ["guided next image-grid cell (1, 0)"]);

    let complete = object(vec![("missingCells", JsonValue::Array(vec![]))]);
    guide
        .on_input("coverage", DataPacket::Coverage(Arc::new(complete)), &mut out)
        .expect("complete");
    assert_eq!(
        events(&out).last().map(String::as_str),
        Some("coverage complete; no image-grid target")
    );
    guide
        .on_config_update(object(vec![("enabled", JsonValue::Bool(false))]), &mut out)
        .expect("disable");
    guide
        .on_input("coverage", DataPacket::Json(Arc::new(JsonValue::Null)), &mut out)
        .expect("disabled");
    assert_eq!(events(&out).last().map(String::as_str), Some("pose guide disabled"));
}

#[test]
fn composer_passes_layers_on() {
    let mut rt = runtime();
    let mut node =
        OverlayComposerFactory.instantiate(node_spec("overlayComposer", vec![], vec!["scene"]));
    node.on_start(&mut rt).expect("start");
    node.on_input("overlay", DataPacket::Json(Arc::new(JsonValue::Uint(5))), &mut rt)
        .expect("layer");
    node.on_input("unknown", DataPacket::Json(Arc::new(JsonValue::Null)), &mut rt)
        .expect("ignored");
    let packets = emitted(&rt);
    assert_eq!(packets.len(), 1);
    assert_eq!(packets[0].0, "scene");
    assert!(matches!(packets[0].1, DataPacket::Json(value) if value.as_u64() == Some(5)));
    assert_eq!(events(&rt), ["composed scene from `overlay`"]);
    assert!(matches!(
        rt.log.first(),
        Some(RuntimeEffect::State { state: NodeRuntimeState::Ready, .. })
    ));
}
