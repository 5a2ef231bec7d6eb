//! The pose of a board in one frame, from a detection and explicit parameters.
use crate::asset::share;
use crate::engine::node::{channel_full, NodeAction, NodeError, NodeErrorView};
use crate::engine::nodes::config::failed;
use crate::engine::nodes::intrinsics::{
    camera_matrix, matrix_usable, pinhole_intrinsics, zeros,
};
use crate::engine::packet::{
    pose_fault, CalibrationBoardParams, CalibrationVector3, CameraModelParams, DataPacket,
    DetectionPacket, DetectionPose, DetectionPoseConvention, DistortionModelParams, DistortionView,
    IdentityView, ImageFrameIdentity, PacketView,
};
use crate::engine::runtime::{require_service, service_missing, NodeRuntime};
use crate::engine::spec::NodeRuntimeState;
use crate::ieee::Real64;
use crate::model::{
    view_fault, BoardSpec, CalibrationDataError, ChessboardDetection, InitialIntrinsics,
    ViewCalibrationResult,
};
use crate::text::{concat, same_text};
use std::sync::Arc;
use vstd::prelude::*;

verus! {

pub const POSE_ESTIMATOR_KIND: &'static str = "poseEstimator";

/// What an estimator holds.
pub struct EstimatorState {
    pub detection: Option<(ChessboardDetection, IdentityView)>,
    pub board: Option<CalibrationBoardParams>,
    pub camera: Option<CameraModelParams>,
    pub distortion: Option<DistortionView>,
}

/// What a packet does to an estimator, and whether an estimate is due.
pub open spec fn estimator_input(state: EstimatorState, port: Seq<char>, packet: PacketView) -> (
    EstimatorState,
    Result<bool, NodeErrorView>,
) {
    if port == "detection"@ {
        match packet {
            PacketView::Detection { detection, identity } => (
                EstimatorState { detection: Some((detection, identity)), ..state },
                Ok(true),
            ),
            _ => (
                state,
                Err(
                    NodeErrorView::Precondition(
                        "poseEstimator.detection requires calib.detection"@,
                    ),
                ),
            ),
        }
    } else if port == "board"@ {
        match packet {
            PacketView::CalibrationBoardParams(board) => (
                EstimatorState { board: Some(board), ..state },
                Ok(true),
            ),
            _ => (
                state,
                Err(
                    NodeErrorView::Precondition(
                        "poseEstimator.board requires calib.board.params"@,
                    ),
                ),
            ),
        }
    } else if port == "cameraModel"@ {
        match packet {
            PacketView::CameraModelParams(camera) => (
                EstimatorState { camera: Some(camera), ..state },
                Ok(true),
            ),
            _ => (
                state,
                Err(
                    NodeErrorView::Precondition(
                        "poseEstimator.cameraModel requires calib.camera.model"@,
                    ),
                ),
            ),
        }
    } else if port == "distortionModel"@ {
        match packet {
            PacketView::DistortionModelParams(lens) => (
                EstimatorState { distortion: Some(lens), ..state },
                Ok(true),
            ),
            _ => (
                state,
                Err(
                    NodeErrorView::Precondition(
                        "poseEstimator.distortionModel requires calib.distortion.model"@,
                    ),
                ),
            ),
        }
    } else {
        (state, Ok(false))
    }
}

/// Why a pose cannot be estimated from complete inputs; `board` has its spacing in metres.
pub open spec fn estimate_fault(
    detection: ChessboardDetection,
    params: CalibrationBoardParams,
    camera: CameraModelParams,
    lens: DistortionView,
    board: BoardSpec,
) -> Option<NodeErrorView> {
    if params.fault() is Some {
        Some(
            NodeErrorView::Precondition(
                "invalid board parameters: "@ + params.fault()->Some_0.text(),
            ),
        )
    } else if camera.fault() is Some {
        Some(
            NodeErrorView::Precondition(
                "invalid camera parameters: "@ + camera.fault()->Some_0.text(),
            ),
        )
    } else if lens.fault() is Some {
        Some(
            NodeErrorView::Precondition(
                "invalid distortion parameters: "@ + lens.fault()->Some_0.text(),
            ),
        )
    } else if camera.image_size is Some && camera.image_size->Some_0 != detection.image_size {
        Some(
            NodeErrorView::Precondition(
                "detection image size "@ + detection.image_size.text()
                    + " does not match camera model "@ + camera.image_size->Some_0.text(),
            ),
        )
    } else if board.fault() is Some {
        Some(NodeErrorView::Precondition(board.fault()->Some_0.text()))
    } else if view_fault(detection.corners@, board) is Some {
        Some(
            NodeErrorView::Precondition(
                "invalid detection: "@ + view_fault(detection.corners@, board)->Some_0.text(),
            ),
        )
    } else if !matrix_usable(camera_matrix(camera)) {
        Some(NodeErrorView::Precondition(CalibrationDataError::Intrinsics.text()))
    } else {
        None
    }
}

/// The board that points are solved for.
pub open spec fn metric_board(params: CalibrationBoardParams, metres: Real64) -> BoardSpec {
    BoardSpec { inner_cols: params.cols, inner_rows: params.rows, square_size: metres }
}

/// A pose that is to be solved for.
#[derive(Debug)]
pub struct PoseRequest {
    pub detection: Arc<ChessboardDetection>,
    pub frame_identity: ImageFrameIdentity,
    pub intrinsics: InitialIntrinsics,
    pub board: BoardSpec,
}

impl PoseRequest {
    /// Whether the request is made of the given inputs.
    pub open spec fn is_for(
        self,
        detection: ChessboardDetection,
        identity: IdentityView,
        camera: CameraModelParams,
        board: BoardSpec,
    ) -> bool {
        &&& *self.detection == detection
        &&& self.frame_identity@ == identity
        &&& self.intrinsics.camera_matrix@ == camera_matrix(camera)
        &&& self.intrinsics.distortion_coefficients@ == zeros(5)
        &&& self.board == board
    }
}

pub struct PoseEstimatorFactory;

impl PoseEstimatorFactory {
    pub fn kind(&self) -> (r: &'static str)
        ensures
            r@ == POSE_ESTIMATOR_KIND@,
    {
        POSE_ESTIMATOR_KIND
    }

    pub fn instantiate(&self) -> (r: PoseEstimatorNode)
        ensures
            r@ == (EstimatorState { detection: None, board: None, camera: None, distortion: None }),
    {
        PoseEstimatorNode {
            detection: None,
            board: None,
            camera_model: None,
            distortion_model: None,
        }
    }
}

/// Estimates the pose of a board from the latest complete set of inputs.
pub struct PoseEstimatorNode {
    pub detection: Option<Arc<DetectionPacket>>,
    pub board: Option<Arc<CalibrationBoardParams>>,
    pub camera_model: Option<Arc<CameraModelParams>>,
    pub distortion_model: Option<Arc<DistortionModelParams>>,
}

impl View for PoseEstimatorNode {
    type V = EstimatorState;

    open spec fn view(&self) -> EstimatorState {
        EstimatorState {
            detection: match self.detection {
                Some(packet) => Some((*packet.detection, packet.frame_identity@)),
                None => None,
            },
            board: match self.board {
                Some(board) => Some(*board),
                None => None,
            },
            camera: match self.camera_model {
                Some(camera) => Some(*camera),
                None => None,
            },
            distortion: match self.distortion_model {
                Some(lens) => Some((*lens)@),
                None => None,
            },
        }
    }
}

impl PoseEstimatorNode {
    pub fn on_start(&mut self, rt: &mut NodeRuntime) -> (r: Result<(), NodeError>)
        ensures
            r is Ok,
            *final(self) == *old(self),
            final(rt)@ == old(rt)@.reported(
                NodeRuntimeState::Ready,
                "waiting for detection and camera parameters"@,
            ),
    {
        rt.report_state(NodeRuntimeState::Ready, "waiting for detection and camera parameters");
        Ok(())
    }

    /// Keeps what came in; the result tells whether an estimate is due.
    pub fn on_input(&mut self, port: &str, packet: DataPacket) -> (r: Result<bool, NodeError>)
        ensures
            final(self)@ == estimator_input(old(self)@, port@, packet@).0,
            match estimator_input(old(self)@, port@, packet@).1 {
                Ok(due) => r == Ok::<bool, NodeError>(due),
                Err(error) => failed(r, error),
            },
    {
        if same_text(port, "detection") {
            return match packet {
                DataPacket::Detection(detection) => {
                    self.detection = Some(detection);
                    Ok(true)
                },
                _ => Err(
                    NodeError::precondition("poseEstimator.detection requires calib.detection"),
                ),
            };
        }
        if same_text(port, "board") {
            return match packet {
                DataPacket::CalibrationBoardParams(board) => {
                    self.board = Some(board);
                    Ok(true)
                },
                _ => Err(
                    NodeError::precondition("poseEstimator.board requires calib.board.params"),
                ),
            };
        }
        if same_text(port, "cameraModel") {
            return match packet {
                DataPacket::CameraModelParams(camera) => {
                    self.camera_model = Some(camera);
                    Ok(true)
                },
                _ => Err(
                    NodeError::precondition(
                        "poseEstimator.cameraModel requires calib.camera.model",
                    ),
                ),
            };
        }
        if same_text(port, "distortionModel") {
            return match packet {
                DataPacket::DistortionModelParams(lens) => {
                    self.distortion_model = Some(lens);
                    Ok(true)
                },
                _ => Err(
                    NodeError::precondition(
                        "poseEstimator.distortionModel requires calib.distortion.model",
                    ),
                ),
            };
        }
        Ok(false)
    }

    /// The spacing of the board in millimetres, where a board came in.
    pub fn square_size_mm(&self) -> (r: Option<Real64>)
        ensures
            r == (match self@.board {
                Some(board) => Some(board.square_size_mm),
                None => None,
            }),
    {
        match &self.board {
            Some(board) => Some(board.square_size_mm),
            None => None,
        }
    }

    /// Begins an estimate where all four inputs are there. `metres` is the spacing of the board.
    pub fn try_estimate(&self, metres: Real64, rt: &mut NodeRuntime) -> (r: Result<
        Option<PoseRequest>,
        NodeError,
    >)
        ensures
            match (self@.detection, self@.board, self@.camera, self@.distortion) {
                (Some((detection, identity)), Some(params), Some(camera), Some(lens)) => {
                    let board = metric_board(params, metres);
                    let running = old(rt)@.reported(
                        NodeRuntimeState::Running,
                        "estimating T_camera_board"@,
                    );
                    match estimate_fault(detection, params, camera, lens, board) {
                        Some(error) => failed(r, error) && final(rt)@ == old(rt)@,
                        None => final(rt)@ == running && if old(rt)@.services.calibration {
                            r is Ok && r->Ok_0 is Some && r->Ok_0->Some_0.is_for(
                                detection,
                                identity,
                                camera,
                                board,
                            )
                        } else {
                            failed(r, service_missing("calibration"@))
                        },
                    }
                },
                _ => r == Ok::<Option<PoseRequest>, NodeError>(None) && final(rt)@ == old(rt)@.reported(
                    NodeRuntimeState::Ready,
                    "waiting for detection, board, camera model, and distortion model"@,
                ),
            },
    {
        let (packet, params, camera, lens): (
            &Arc<DetectionPacket>,
            &Arc<CalibrationBoardParams>,
            &Arc<CameraModelParams>,
            &Arc<DistortionModelParams>,
        ) = match (&self.detection, &self.board, &self.camera_model, &self.distortion_model) {
            (Some(packet), Some(params), Some(camera), Some(lens)) => (
                packet,
                params,
                camera,
                lens,
            ),
            _ => {
                rt.report_state(
                    NodeRuntimeState::Ready,
                    "waiting for detection, board, camera model, and distortion model",
                );
                return Ok(None);
            },
        };
        let (intrinsics, board): (InitialIntrinsics, BoardSpec) = match check_inputs(
            &packet.detection,
            params,
            camera,
            lens,
            metres,
        ) {
            Ok(checked) => checked,
            Err(error) => {
                return Err(error);
            },
        };
        rt.report_state(NodeRuntimeState::Running, "estimating T_camera_board");
        match require_service(rt.services.calibration, "calibration") {
            Ok(()) => {},
            Err(error) => {
                return Err(error);
            },
        }
        Ok(
            Some(
                PoseRequest {
                    detection: share(&packet.detection),
                    frame_identity: packet.frame_identity.clone(),
                    intrinsics,
                    board,
                },
            ),
        )
    }

    /// The pose came, or the words of what went wrong. It goes out under the identity of its frame.
    pub fn estimated(
        &self,
        request: &PoseRequest,
        reply: Result<ViewCalibrationResult, String>,
        rt: &mut NodeRuntime,
    ) -> (r: Result<(), NodeError>)
        ensures
            match reply {
                Err(text) => failed(r, NodeErrorView::Execution(text@)) && final(rt)@ == old(rt)@,
                Ok(result) => {
                    let translation = vector(result.translation_vector@);
                    let rotation = vector(result.rotation_vector@);
                    let error = Some(result.reprojection_rmse);
                    match pose_fault(translation, rotation, error) {
                        Some(text) => failed(
                            r,
                            NodeErrorView::Execution("invalid PnP result: "@ + text),
                        ) && final(rt)@ == old(rt)@,
                        None => if old(rt)@.accepts("pose"@) {
                            r is Ok && final(rt)@ == old(rt)@.emitted(
                                "pose"@,
                                PacketView::DetectionPose {
                                    identity: request.frame_identity@,
                                    convention: DetectionPoseConvention::TCameraBoard,
                                    translation_m: translation,
                                    rotation_rodrigues: rotation,
                                    reprojection_error_px: error,
                                },
                            ).reported(NodeRuntimeState::Idle, "pose estimated"@)
                        } else {
                            failed(r, channel_full()) && final(rt)@ == old(rt)@
                        },
                    }
                },
            },
    {
        let result: ViewCalibrationResult = match reply {
            Ok(result) => result,
            Err(text) => {
                return Err(NodeError::Execution(text));
            },
        };
        let pose: DetectionPose = match DetectionPose::new(
            request.frame_identity.clone(),
            CalibrationVector3::new(
                result.translation_vector[0],
                result.translation_vector[1],
                result.translation_vector[2],
            ),
            CalibrationVector3::new(
                result.rotation_vector[0],
                result.rotation_vector[1],
                result.rotation_vector[2],
            ),
            Some(result.reprojection_rmse),
        ) {
            Ok(pose) => pose,
            Err(text) => {
                return Err(NodeError::Execution(concat("invalid PnP result: ", text)));
            },
        };
        match rt.emit("pose", DataPacket::DetectionPose(Arc::new(pose))) {
            Ok(()) => {},
            Err(error) => {
                return Err(error);
            },
        }
        rt.report_state(NodeRuntimeState::Idle, "pose estimated");
        Ok(())
    }

    pub fn on_action(&mut self, action: NodeAction, _rt: &mut NodeRuntime) -> (r: Result<
        (),
        NodeError,
    >)
        ensures
            failed(r, NodeErrorView::UnsupportedAction(action.label())),
            *final(self) == *old(self),
            final(_rt)@ == old(_rt)@,
    {
        Err(NodeError::unsupported(&action))
    }

    pub fn on_stop(&mut self, rt: &mut NodeRuntime) -> (r: Result<(), NodeError>)
        ensures
            r is Ok,
            *final(self) == *old(self),
            final(rt)@ == old(rt)@.reported(NodeRuntimeState::Idle, "stopped"@),
    {
        rt.report_state(NodeRuntimeState::Idle, "stopped");
        Ok(())
    }
}

/// Three numbers as a vector.
pub open spec fn vector(values: Seq<Real64>) -> CalibrationVector3 {
    CalibrationVector3 { x: values[0], y: values[1], z: values[2] }
}

fn check_inputs(
    detection: &ChessboardDetection,
    params: &CalibrationBoardParams,
    camera: &CameraModelParams,
    lens: &DistortionModelParams,
    metres: Real64,
) -> (r: Result<(InitialIntrinsics, BoardSpec), NodeError>)
    ensures
        match estimate_fault(
            *detection,
            *params,
            *camera,
            lens@,
            metric_board(*params, metres),
        ) {
            Some(error) => failed(r, error),
            None => r is Ok && r->Ok_0.0.camera_matrix@ == camera_matrix(*camera)
                && r->Ok_0.0.distortion_coefficients@ == zeros(5) && r->Ok_0.1 == metric_board(
                *params,
                metres,
            ),
        },
{
    match params.validate() {
        Ok(()) => {},
        Err(fault) => {
            return Err(
                NodeError::Precondition(concat("invalid board parameters: ", fault.describe())),
            );
        },
    }
    match camera.validate() {
        Ok(()) => {},
        Err(fault) => {
            return Err(
                NodeError::Precondition(concat("invalid camera parameters: ", fault.describe())),
            );
        },
    }
    match lens.validate() {
        Ok(()) => {},
        Err(fault) => {
            return Err(
                NodeError::Precondition(
                    concat("invalid distortion parameters: ", fault.describe()),
                ),
            );
        },
    }
    match camera.image_size {
        Some(expected) => {
            if expected != detection.image_size {
                let mut s: String = "detection image size ".to_owned();
                s.append(detection.image_size.describe().as_str());
                s.append(" does not match camera model ");
                s.append(expected.describe().as_str());
                return Err(NodeError::Precondition(s));
            }
        },
        None => {},
    }
    let board: BoardSpec = match BoardSpec::new(params.cols, params.rows, metres) {
        Ok(board) => board,
        Err(fault) => {
            return Err(NodeError::Precondition(fault.describe()));
        },
    };
    match detection.validate(board) {
        Ok(()) => {},
        Err(fault) => {
            return Err(
                NodeError::Precondition(concat("invalid detection: ", fault.describe().as_str())),
            );
        },
    }
    let intrinsics: InitialIntrinsics = pinhole_intrinsics(
        camera.fx,
        camera.fy,
        camera.cx,
        camera.cy,
        5,
    );
    match intrinsics.validate() {
        Ok(()) => Ok((intrinsics, board)),
        Err(fault) => Err(NodeError::Precondition(fault.describe())),
    }
}

} // verus!
