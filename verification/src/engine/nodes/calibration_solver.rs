//! The calibration solver: a request is put together on a trigger, solved outside, and the solution
//! sent on.
use crate::engine::dataset::{
    counted, sample_views, CalibrationDataset, CalibrationDatasetSample, DatasetView, SampleView,
};
use crate::engine::node::{channel_full, NodeAction, NodeError, NodeErrorView};
use crate::engine::nodes::collector::came_out;
use crate::engine::nodes::composite::{check_calibration_dataset, dataset_fault};
use crate::engine::nodes::config::{
    config_real, config_u16, config_u32, failed, real_or, u16_or, u32_or,
};
use crate::engine::nodes::intrinsics::{
    camera_matrix, matrix_usable, pinhole_intrinsics, pinhole_matrix, zeros,
};
use crate::engine::packet::{
    CalibrationBoardParams, CameraModelParams, DataPacket, DistortionModelParams, DistortionView,
    PacketView,
};
use crate::engine::runtime::{require_service, service_missing, NodeRuntime};
use crate::engine::spec::{NodeRuntimeState, NodeSpec, NodeView};
use crate::ieee::Real64;
use crate::json::{JsonTree, JsonValue};
use crate::model::{
    corner_lists, view_fault, views_fault, BoardSpec,
    CalibrationDataError, CalibrationImageSize, CalibrationPoint, CalibrationRequest,
    CalibrationSolution, InitialIntrinsics,
};
use crate::text::{concat, same_text};
use std::sync::Arc;
use vstd::prelude::*;

verus! {

/// What a solver holds.
pub struct SolverState {
    pub config: JsonTree,
    pub dataset: Option<DatasetView>,
    pub board: Option<CalibrationBoardParams>,
    pub camera: Option<CameraModelParams>,
    pub distortion: Option<DistortionView>,
}

/// A request by its values.
#[verifier::ext_equal]
pub struct RequestView {
    pub image_size: CalibrationImageSize,
    pub board: BoardSpec,
    pub image_points: Seq<Seq<CalibrationPoint>>,
    pub camera_matrix: Seq<Real64>,
    pub distortion_coefficients: Seq<Real64>,
}

impl View for CalibrationRequest {
    type V = RequestView;

    open spec fn view(&self) -> RequestView {
        RequestView {
            image_size: self.image_size,
            board: self.board,
            image_points: corner_lists(self.image_points@),
            camera_matrix: self.initial_intrinsics.camera_matrix@,
            distortion_coefficients: self.initial_intrinsics.distortion_coefficients@,
        }
    }
}

/// The image size of a configuration.
pub open spec fn configured_size(config: JsonTree) -> CalibrationImageSize {
    CalibrationImageSize {
        width: u32_or(config, "imageWidth"@, 1920),
        height: u32_or(config, "imageHeight"@, 1080),
    }
}

/// Why the image size of a configuration cannot be used.
pub open spec fn size_fault(config: JsonTree) -> Option<NodeErrorView> {
    let size = configured_size(config);
    if size.width == 0 || size.height == 0 {
        Some(
            NodeErrorView::Config(
                CalibrationDataError::EmptyImage { width: size.width, height: size.height }.text(),
            ),
        )
    } else {
        None
    }
}

/// The board of a configuration: 8 by 11 inner corners 30 mm apart where nothing else is said.
pub open spec fn configured_board(config: JsonTree) -> BoardSpec {
    BoardSpec {
        inner_cols: u16_or(config, "boardCols"@, 8),
        inner_rows: u16_or(config, "boardRows"@, 11),
        square_size: real_or(config, "squareSizeMm"@, 0x403e_0000_0000_0000),
    }
}

/// The camera matrix of a configuration.
pub open spec fn configured_matrix(config: JsonTree) -> Seq<Real64> {
    pinhole_matrix(
        real_or(config, "fx"@, 0x4093_4a3d_70a3_d70a),
        real_or(config, "fy"@, 0x4093_4a3d_70a3_d70a),
        real_or(config, "cx"@, 0x408e_0000_0000_0000),
        real_or(config, "cy"@, 0x4080_e000_0000_0000),
    )
}

/// Why a configuration cannot be used.
pub open spec fn solver_config_fault(config: JsonTree) -> Option<NodeErrorView> {
    match size_fault(config) {
        Some(error) => Some(error),
        None => match configured_board(config).fault() {
            Some(fault) => Some(NodeErrorView::Config(fault.text())),
            None => if !matrix_usable(configured_matrix(config)) {
                Some(NodeErrorView::Config(CalibrationDataError::Intrinsics.text()))
            } else {
                None
            },
        },
    }
}

fn read_size(config: &JsonValue) -> (r: Result<CalibrationImageSize, NodeError>)
    ensures
        match size_fault(config@) {
            Some(error) => failed(r, error),
            None => r == Ok::<CalibrationImageSize, NodeError>(configured_size(config@)),
        },
{
    match CalibrationImageSize::new(
        config_u32(config, "imageWidth", 1920),
        config_u32(config, "imageHeight", 1080),
    ) {
        Ok(size) => Ok(size),
        Err(error) => Err(NodeError::Config(error.describe())),
    }
}

/// Reads the board of a configuration.
pub fn read_board(config: &JsonValue) -> (r: Result<BoardSpec, NodeError>)
    ensures
        match configured_board(config@).fault() {
            Some(fault) => failed(r, NodeErrorView::Config(fault.text())),
            None => r == Ok::<BoardSpec, NodeError>(configured_board(config@)),
        },
{
    match BoardSpec::new(
        config_u16(config, "boardCols", 8),
        config_u16(config, "boardRows", 11),
        config_real(config, "squareSizeMm", 0x403e_0000_0000_0000),
    ) {
        Ok(board) => Ok(board),
        Err(error) => Err(NodeError::Config(error.describe())),
    }
}

fn read_intrinsics(config: &JsonValue) -> (r: InitialIntrinsics)
    ensures
        r.camera_matrix@ == configured_matrix(config@),
        r.distortion_coefficients@ == zeros(12),
        r.usable() == matrix_usable(configured_matrix(config@)),
{
    pinhole_intrinsics(
        config_real(config, "fx", 0x4093_4a3d_70a3_d70a),
        config_real(config, "fy", 0x4093_4a3d_70a3_d70a),
        config_real(config, "cx", 0x408e_0000_0000_0000),
        config_real(config, "cy", 0x4080_e000_0000_0000),
        12,
    )
}

/// The board that is in force, or why there is none: parameters that came in go before the
/// configuration.
pub open spec fn active_board(state: SolverState) -> Result<BoardSpec, NodeErrorView> {
    match state.board {
        Some(params) => {
            let board = BoardSpec {
                inner_cols: params.cols,
                inner_rows: params.rows,
                square_size: params.square_size_mm,
            };
            match params.fault() {
                Some(fault) => Err(
                    NodeErrorView::Precondition("invalid board parameters: "@ + fault.text()),
                ),
                None => match board.fault() {
                    Some(fault) => Err(NodeErrorView::Precondition(fault.text())),
                    None => Ok(board),
                },
            }
        },
        None => match configured_board(state.config).fault() {
            Some(fault) => Err(NodeErrorView::Config(fault.text())),
            None => Ok(configured_board(state.config)),
        },
    }
}

/// The image size that is in force.
pub open spec fn active_size(state: SolverState) -> CalibrationImageSize {
    match state.camera {
        Some(camera) => match camera.image_size {
            Some(size) => size,
            None => configured_size(state.config),
        },
        None => configured_size(state.config),
    }
}

/// Why a sample does not fit what is in force.
pub open spec fn misfit(sample: SampleView, size: CalibrationImageSize, board: BoardSpec) -> Option<
    NodeErrorView,
> {
    if sample.detection.image_size != size {
        Some(
            NodeErrorView::Precondition(
                "dataset sample `"@ + sample.id + "` image size "@
                    + sample.detection.image_size.text() + " does not match active "@
                    + size.text(),
            ),
        )
    } else {
        match view_fault(sample.detection.corners@, board) {
            Some(fault) => Some(
                NodeErrorView::Precondition(
                    "dataset sample `"@ + sample.id + "` is invalid for active board: "@
                        + fault.text(),
                ),
            ),
            None => None,
        }
    }
}

/// Why one of the samples that count does not fit: the first such sample decides.
pub open spec fn misfits(
    samples: Seq<SampleView>,
    size: CalibrationImageSize,
    board: BoardSpec,
) -> Option<NodeErrorView>
    decreases samples.len(),
{
    if samples.len() == 0 {
        None
    } else {
        match misfits(samples.drop_last(), size, board) {
            Some(error) => Some(error),
            None => if samples.last().acceptance.counts() {
                misfit(samples.last(), size, board)
            } else {
                None
            },
        }
    }
}

/// The corners of the samples that count.
pub open spec fn counted_points(samples: Seq<SampleView>) -> Seq<Seq<CalibrationPoint>> {
    counted(samples).map_values(|sample: SampleView| sample.detection.corners@)
}

/// The camera matrix that is in force with its number of distortion coefficients, or why there is
/// none.
pub open spec fn active_intrinsics(state: SolverState) -> Result<
    (Seq<Real64>, nat),
    NodeErrorView,
> {
    match state.camera {
        None => Ok((configured_matrix(state.config), 12)),
        Some(camera) => match camera.fault() {
            Some(fault) => Err(
                NodeErrorView::Precondition("invalid camera parameters: "@ + fault.text()),
            ),
            None => {
                let lens = match state.distortion {
                    Some(lens) => lens,
                    None => DistortionView::none(),
                };
                match lens.fault() {
                    Some(fault) => Err(
                        NodeErrorView::Precondition(
                            "invalid distortion parameters: "@ + fault.text(),
                        ),
                    ),
                    None => Ok((camera_matrix(camera), 5)),
                }
            },
        },
    }
}

/// The points of a request: those of the dataset, or the configured ones where no dataset came in.
pub open spec fn active_points(
    state: SolverState,
    size: CalibrationImageSize,
    board: BoardSpec,
    configured: Seq<Seq<CalibrationPoint>>,
) -> Result<Seq<Seq<CalibrationPoint>>, NodeErrorView> {
    match state.dataset {
        None => Ok(configured),
        Some(dataset) => match misfits(dataset.samples, size, board) {
            Some(error) => Err(error),
            None => if counted(dataset.samples).len() == 0 {
                Err(
                    NodeErrorView::Precondition(
                        "calibration dataset has no accepted/enabled samples"@,
                    ),
                )
            } else {
                Ok(counted_points(dataset.samples))
            },
        },
    }
}

/// The request that a solver makes, or why it makes none.
pub open spec fn request_of(
    state: SolverState,
    configured: Seq<Seq<CalibrationPoint>>,
) -> Result<RequestView, NodeErrorView> {
    match size_fault(state.config) {
        Some(error) => Err(error),
        None => match active_board(state) {
            Err(error) => Err(error),
            Ok(board) => match active_points(state, active_size(state), board, configured) {
                Err(error) => Err(error),
                Ok(points) => match active_intrinsics(state) {
                    Err(error) => Err(error),
                    Ok((matrix, count)) => if !matrix_usable(matrix) {
                        Err(
                            NodeErrorView::Precondition(
                                "invalid initial intrinsics: "@
                                    + CalibrationDataError::Intrinsics.text(),
                            ),
                        )
                    } else {
                        Ok(
                            RequestView {
                                image_size: active_size(state),
                                board,
                                image_points: points,
                                camera_matrix: matrix,
                                distortion_coefficients: zeros(count),
                            },
                        )
                    },
                },
            },
        },
    }
}

/// Copies corners.
pub fn copy_corners(corners: &Vec<CalibrationPoint>) -> (r: Vec<CalibrationPoint>)
    ensures
        r@ == corners@,
{
    let mut r: Vec<CalibrationPoint> = Vec::new();
    let mut i: usize = 0;
    while i < corners.len()
        invariant
            i <= corners@.len(),
            r@ == corners@.take(i as int),
        decreases corners@.len() - i,
    {
        r.push(corners[i]);
        proof {
            assert(r@ =~= corners@.take(i + 1));
        }
        i = i + 1;
    }
    proof {
        assert(corners@.take(i as int) =~= corners@);
    }
    r
}

fn check_fit(sample: &CalibrationDatasetSample, size: CalibrationImageSize, board: BoardSpec) -> (r:
    Result<(), NodeError>)
    ensures
        came_out(r, misfit(sample@, size, board)),
{
    if sample.detection.image_size != size {
        let mut s: String = "dataset sample `".to_owned();
        s.append(sample.id.as_str());
        s.append("` image size ");
        s.append(sample.detection.image_size.describe().as_str());
        s.append(" does not match active ");
        s.append(size.describe().as_str());
        return Err(NodeError::Precondition(s));
    }
    match sample.detection.validate(board) {
        Ok(()) => Ok(()),
        Err(fault) => {
            let mut s: String = "dataset sample `".to_owned();
            s.append(sample.id.as_str());
            s.append("` is invalid for active board: ");
            s.append(fault.describe().as_str());
            Err(NodeError::Precondition(s))
        },
    }
}

proof fn lemma_misfits_persist(
    samples: Seq<SampleView>,
    size: CalibrationImageSize,
    board: BoardSpec,
    i: int,
)
    requires
        0 <= i <= samples.len(),
        misfits(samples.take(i), size, board) is Some,
    ensures
        misfits(samples, size, board) == misfits(samples.take(i), size, board),
    decreases samples.len() - i,
{
    if i < samples.len() {
        assert(samples.take(i + 1).drop_last() =~= samples.take(i));
        lemma_misfits_persist(samples, size, board, i + 1);
    } else {
        assert(samples.take(i) =~= samples);
    }
}

fn dataset_points(dataset: &CalibrationDataset, size: CalibrationImageSize, board: BoardSpec) -> (r:
    Result<Vec<Vec<CalibrationPoint>>, NodeError>)
    ensures
        match misfits(dataset@.samples, size, board) {
            Some(error) => failed(r, error),
            None => r is Ok && corner_lists(r->Ok_0@) == counted_points(dataset@.samples),
        },
{
    let ghost views = sample_views(dataset.samples@);
    let mut points: Vec<Vec<CalibrationPoint>> = Vec::new();
    let mut i: usize = 0;
    proof {
        assert(views.take(0) =~= Seq::<SampleView>::empty());
        assert(corner_lists(points@) =~= counted_points(views.take(0)));
    }
    while i < dataset.samples.len()
        invariant
            i <= dataset.samples@.len() == views.len(),
            views == sample_views(dataset.samples@),
            dataset@.samples == views,
            misfits(views.take(i as int), size, board) is None,
            corner_lists(points@) == counted_points(views.take(i as int)),
        decreases dataset.samples@.len() - i,
    {
        let sample: &CalibrationDatasetSample = &dataset.samples[i];
        let ghost next = views.take(i + 1);
        proof {
            assert(next.drop_last() =~= views.take(i as int));
            assert(next.last() == sample@);
        }
        if sample.acceptance.accepted && sample.acceptance.enabled {
            match check_fit(sample, size, board) {
                Ok(()) => {},
                Err(error) => {
                    proof {
                        lemma_misfits_persist(views, size, board, i + 1);
                    }
                    return Err(error);
                },
            }
            let ghost before = corner_lists(points@);
            points.push(copy_corners(&sample.detection.corners));
            proof {
                assert(corner_lists(points@) =~= before.push(sample@.detection.corners@));
                assert(counted_points(next) =~= counted_points(views.take(i as int)).push(
                    sample@.detection.corners@,
                ));
            }
        }
        i = i + 1;
    }
    proof {
        assert(views.take(i as int) =~= views);
    }
    Ok(points)
}

pub struct CalibrationSolverFactory;

impl CalibrationSolverFactory {
    pub fn kind(&self) -> (r: &'static str)
        ensures
            r@ == "calibrationSolver"@,
    {
        "calibrationSolver"
    }

    pub fn instantiate(&self, spec: NodeSpec) -> (r: CalibrationSolverNode)
        ensures
            r.spec == spec,
            r@ == (SolverState {
                config: spec.config@,
                dataset: None,
                board: None,
                camera: None,
                distortion: None,
            }),
    {
        CalibrationSolverNode {
            spec,
            dataset: None,
            board: None,
            camera_model: None,
            distortion_model: None,
        }
    }
}

/// Solves calibrations on request.
pub struct CalibrationSolverNode {
    pub spec: NodeSpec,
    pub dataset: Option<Arc<CalibrationDataset>>,
    pub board: Option<Arc<CalibrationBoardParams>>,
    pub camera_model: Option<Arc<CameraModelParams>>,
    pub distortion_model: Option<Arc<DistortionModelParams>>,
}

impl View for CalibrationSolverNode {
    type V = SolverState;

    open spec fn view(&self) -> SolverState {
        SolverState {
            config: self.spec.config@,
            dataset: match self.dataset {
                Some(dataset) => Some((*dataset)@),
                None => None,
            },
            board: match self.board {
                Some(board) => Some(*board),
                None => None,
            },
            camera: match self.camera_model {
                Some(camera) => Some(*camera),
                None => None,
            },
            distortion: match self.distortion_model {
                Some(lens) => Some((*lens)@),
                None => None,
            },
        }
    }
}

/// What a packet does to a solver.
pub open spec fn solver_input(state: SolverState, port: Seq<char>, packet: PacketView) -> (
    SolverState,
    Option<NodeErrorView>,
) {
    if port == "dataset"@ {
        match packet {
            PacketView::Dataset(dataset) => match dataset_fault(dataset) {
                Some(error) => (state, Some(error)),
                None => (SolverState { dataset: Some(dataset), ..state }, None),
            },
            _ => (
                state,
                Some(
                    NodeErrorView::Precondition(
                        "calibrationSolver.dataset requires calib.dataset"@,
                    ),
                ),
            ),
        }
    } else if port == "board"@ {
        match packet {
            PacketView::CalibrationBoardParams(board) => (
                SolverState { board: Some(board), ..state },
                None,
            ),
            _ => (
                state,
                Some(
                    NodeErrorView::Precondition(
                        "calibrationSolver.board requires calib.board.params"@,
                    ),
                ),
            ),
        }
    } else if port == "cameraModel"@ {
        match packet {
            PacketView::CameraModelParams(camera) => (
                SolverState { camera: Some(camera), ..state },
                None,
            ),
            _ => (
                state,
                Some(
                    NodeErrorView::Precondition(
                        "calibrationSolver.cameraModel requires calib.camera.model"@,
                    ),
                ),
            ),
        }
    } else if port == "distortionModel"@ {
        match packet {
            PacketView::DistortionModelParams(lens) => (
                SolverState { distortion: Some(lens), ..state },
                None,
            ),
            _ => (
                state,
                Some(
                    NodeErrorView::Precondition(
                        "calibrationSolver.distortionModel requires calib.distortion.model"@,
                    ),
                ),
            ),
        }
    } else {
        (state, None)
    }
}

impl CalibrationSolverNode {
    pub fn on_start(&mut self, rt: &mut NodeRuntime) -> (r: Result<(), NodeError>)
        ensures
            r is Ok,
            *final(self) == *old(self),
            final(rt)@ == old(rt)@.reported(NodeRuntimeState::Ready, "trigger to solve"@),
    {
        rt.report_state(NodeRuntimeState::Ready, "trigger to solve");
        Ok(())
    }

    /// Keeps what came in; each packet must fit its port, and a dataset must be usable.
    pub fn on_input(&mut self, port: &str, packet: DataPacket, _rt: &mut NodeRuntime) -> (r: Result<
        (),
        NodeError,
    >)
        ensures
            final(self).spec == old(self).spec,
            came_out(r, solver_input(old(self)@, port@, packet@).1),
            final(self)@ == solver_input(old(self)@, port@, packet@).0,
            final(_rt)@ == old(_rt)@,
    {
        if same_text(port, "dataset") {
            return match packet {
                DataPacket::Dataset(dataset) => {
                    match check_calibration_dataset(&dataset) {
                        Ok(()) => {},
                        Err(error) => {
                            return Err(error);
                        },
                    }
                    self.dataset = Some(dataset);
                    Ok(())
                },
                _ => Err(
                    NodeError::precondition("calibrationSolver.dataset requires calib.dataset"),
                ),
            };
        }
        if same_text(port, "board") {
            return match packet {
                DataPacket::CalibrationBoardParams(board) => {
                    self.board = Some(board);
                    Ok(())
                },
                _ => Err(
                    NodeError::precondition("calibrationSolver.board requires calib.board.params"),
                ),
            };
        }
        if same_text(port, "cameraModel") {
            return match packet {
                DataPacket::CameraModelParams(camera) => {
                    self.camera_model = Some(camera);
                    Ok(())
                },
                _ => Err(
                    NodeError::precondition(
                        "calibrationSolver.cameraModel requires calib.camera.model",
                    ),
                ),
            };
        }
        if same_text(port, "distortionModel") {
            return match packet {
                DataPacket::DistortionModelParams(lens) => {
                    self.distortion_model = Some(lens);
                    Ok(())
                },
                _ => Err(
                    NodeError::precondition(
                        "calibrationSolver.distortionModel requires calib.distortion.model",
                    ),
                ),
            };
        }
        Ok(())
    }

    /// A trigger begins to solve and gives the request to be solved; no other action is known.
    /// `configured_points` are the points that the configuration holds.
    pub fn on_action(
        &mut self,
        action: NodeAction,
        configured_points: Vec<Vec<CalibrationPoint>>,
        rt: &mut NodeRuntime,
    ) -> (r: Result<CalibrationRequest, NodeError>)
        ensures
            *final(self) == *old(self),
            match action {
                NodeAction::Trigger => if !old(rt)@.services.calibration {
                    failed(r, service_missing("calibration"@)) && final(rt)@ == old(rt)@
                } else {
                    match request_of(old(self)@, corner_lists(configured_points@)) {
                        Err(error) => failed(r, error) && final(rt)@ == old(rt)@,
                        Ok(request) => r is Ok && r->Ok_0@ == request && final(rt)@ == old(rt)@.reported(NodeRuntimeState::Running, "solving calibration"@),
                    }
                },
                _ => failed(r, NodeErrorView::UnsupportedAction(action.label())) && final(rt)@
                    == old(rt)@,
            },
    {
        match action {
            NodeAction::Trigger => self.solve(configured_points, rt),
            other => Err(NodeError::unsupported(&other)),
        }
    }

    fn solve(&self, configured_points: Vec<Vec<CalibrationPoint>>, rt: &mut NodeRuntime) -> (r:
        Result<CalibrationRequest, NodeError>)
        ensures
            if !old(rt)@.services.calibration {
                failed(r, service_missing("calibration"@)) && final(rt)@ == old(rt)@
            } else {
                match request_of(self@, corner_lists(configured_points@)) {
                    Err(error) => failed(r, error) && final(rt)@ == old(rt)@,
                    Ok(request) => r is Ok && r->Ok_0@ == request && final(rt)@ == old(rt)@.reported(NodeRuntimeState::Running, "solving calibration"@),
                }
            },
    {
        match require_service(rt.services.calibration, "calibration") {
            Ok(()) => {},
            Err(error) => {
                return Err(error);
            },
        }
        let request: CalibrationRequest = match self.build_request(configured_points) {
            Ok(request) => request,
            Err(error) => {
                return Err(error);
            },
        };
        rt.report_state(NodeRuntimeState::Running, "solving calibration");
        Ok(request)
    }

    /// The solution came, or the words of what went wrong.
    pub fn solved(&self, reply: Result<CalibrationSolution, String>, rt: &mut NodeRuntime) -> (r:
        Result<(), NodeError>)
        ensures
            match reply {
                Err(text) => failed(r, NodeErrorView::Execution(text@)) && final(rt)@ == old(rt)@,
                Ok(solution) => if old(rt)@.accepts("solution"@) {
                    r is Ok && final(rt)@ == old(rt)@.emitted(
                        "solution"@,
                        PacketView::Solution(solution),
                    ).reported(NodeRuntimeState::Idle, "solved"@)
                } else {
                    failed(r, channel_full()) && final(rt)@ == old(rt)@
                },
            },
    {
        let solution: CalibrationSolution = match reply {
            Ok(solution) => solution,
            Err(text) => {
                return Err(NodeError::Execution(text));
            },
        };
        match rt.emit("solution", DataPacket::Solution(Arc::new(solution))) {
            Ok(()) => {},
            Err(error) => {
                return Err(error);
            },
        }
        rt.report_state(NodeRuntimeState::Idle, "solved");
        Ok(())
    }

    fn board_in_force(&self) -> (r: Result<BoardSpec, NodeError>)
        ensures
            match active_board(self@) {
                Ok(board) => r == Ok::<BoardSpec, NodeError>(board),
                Err(error) => failed(r, error),
            },
    {
        match &self.board {
            Some(params) => {
                match params.validate() {
                    Ok(()) => {},
                    Err(fault) => {
                        return Err(
                            NodeError::Precondition(
                                concat("invalid board parameters: ", fault.describe()),
                            ),
                        );
                    },
                }
                match BoardSpec::new(params.cols, params.rows, params.square_size_mm) {
                    Ok(board) => Ok(board),
                    Err(fault) => Err(NodeError::Precondition(fault.describe())),
                }
            },
            None => read_board(&self.spec.config),
        }
    }

    fn size_in_force(&self, fallback: CalibrationImageSize) -> (r: CalibrationImageSize)
        requires
            fallback == configured_size(self@.config),
        ensures
            r == active_size(self@),
    {
        match &self.camera_model {
            Some(camera) => match camera.image_size {
                Some(size) => size,
                None => fallback,
            },
            None => fallback,
        }
    }

    fn intrinsics_in_force(&self) -> (r: Result<InitialIntrinsics, NodeError>)
        ensures
            match active_intrinsics(self@) {
                Ok((matrix, count)) => r is Ok && r->Ok_0.camera_matrix@ == matrix
                    && r->Ok_0.distortion_coefficients@ == zeros(count) && r->Ok_0.usable()
                    == matrix_usable(matrix),
                Err(error) => failed(r, error),
            },
    {
        let camera: &Arc<CameraModelParams> = match &self.camera_model {
            Some(camera) => camera,
            None => {
                return Ok(read_intrinsics(&self.spec.config));
            },
        };
        match camera.validate() {
            Ok(()) => {},
            Err(fault) => {
                return Err(
                    NodeError::Precondition(
                        concat("invalid camera parameters: ", fault.describe()),
                    ),
                );
            },
        }
        match &self.distortion_model {
            Some(lens) => match lens.validate() {
                Ok(()) => {},
                Err(fault) => {
                    return Err(
                        NodeError::Precondition(
                            concat("invalid distortion parameters: ", fault.describe()),
                        ),
                    );
                },
            },
            None => {},
        }
        Ok(pinhole_intrinsics(camera.fx, camera.fy, camera.cx, camera.cy, 5))
    }

    /// Puts a request together. Samples that do not count take no part in it.
    pub fn build_request(&self, configured_points: Vec<Vec<CalibrationPoint>>) -> (r: Result<
        CalibrationRequest,
        NodeError,
    >)
        ensures
            match request_of(self@, corner_lists(configured_points@)) {
                Ok(request) => r is Ok && r->Ok_0@ == request,
                Err(error) => failed(r, error),
            },
    {
        let fallback: CalibrationImageSize = match read_size(&self.spec.config) {
            Ok(size) => size,
            Err(error) => {
                return Err(error);
            },
        };
        let image_size: CalibrationImageSize = self.size_in_force(fallback);
        let board: BoardSpec = match self.board_in_force() {
            Ok(board) => board,
            Err(error) => {
                return Err(error);
            },
        };
        let image_points: Vec<Vec<CalibrationPoint>> = match &self.dataset {
            None => configured_points,
            Some(dataset) => {
                let points: Vec<Vec<CalibrationPoint>> = match dataset_points(
                    dataset,
                    image_size,
                    board,
                ) {
                    Ok(points) => points,
                    Err(error) => {
                        return Err(error);
                    },
                };
                proof {
                    assert(corner_lists(points@).len() == counted(dataset@.samples).len());
                }
                if points.len() == 0 {
                    return Err(
                        NodeError::precondition(
                            "calibration dataset has no accepted/enabled samples",
                        ),
                    );
                }
                points
            },
        };
        let initial_intrinsics: InitialIntrinsics = match self.intrinsics_in_force() {
            Ok(intrinsics) => intrinsics,
            Err(error) => {
                return Err(error);
            },
        };
        match initial_intrinsics.validate() {
            Ok(()) => {},
            Err(fault) => {
                return Err(
                    NodeError::Precondition(
                        concat("invalid initial intrinsics: ", fault.describe().as_str()),
                    ),
                );
            },
        }
        Ok(CalibrationRequest { image_size, board, image_points, initial_intrinsics })
    }

    /// Takes a usable configuration; another one changes nothing.
    pub fn on_config_update(&mut self, config: JsonValue, _rt: &mut NodeRuntime) -> (r: Result<
        (),
        NodeError,
    >)
        ensures
            final(_rt)@ == old(_rt)@,
            match solver_config_fault(config@) {
                Some(error) => failed(r, error) && *final(self) == *old(self),
                None => r is Ok && final(self)@ == (SolverState {
                    config: config@,
                    ..old(self)@
                }) && final(self).spec@ == (NodeView { config: config@, ..old(self).spec@ }),
            },
    {
        match validate_config(&config) {
            Ok(()) => {
                self.spec.config = config;
                Ok(())
            },
            Err(error) => Err(error),
        }
    }

    pub fn on_stop(&mut self, rt: &mut NodeRuntime) -> (r: Result<(), NodeError>)
        ensures
            r is Ok,
            *final(self) == *old(self),
            final(rt)@ == old(rt)@.reported(NodeRuntimeState::Idle, "stopped"@),
    {
        rt.report_state(NodeRuntimeState::Idle, "stopped");
        Ok(())
    }
}

fn validate_config(config: &JsonValue) -> (r: Result<(), NodeError>)
    ensures
        came_out(r, solver_config_fault(config@)),
{
    match read_size(config) {
        Ok(_) => {},
        Err(error) => {
            return Err(error);
        },
    }
    match read_board(config) {
        Ok(_) => {},
        Err(error) => {
            return Err(error);
        },
    }
    match read_intrinsics(config).validate() {
        Ok(()) => Ok(()),
        Err(fault) => Err(NodeError::Config(fault.describe())),
    }
}

/// A request that was put together from a dataset can be handed to a solver as it is: it passes every
/// check of a request.
pub proof fn law_dataset_request_is_valid(
    state: SolverState,
    configured: Seq<Seq<CalibrationPoint>>,
    request: CalibrationRequest,
)
    requires
        state.dataset is Some,
        request_of(state, configured) == Ok::<RequestView, NodeErrorView>(request@),
    ensures
        request.fault() is None,
{
    let samples = state.dataset->Some_0.samples;
    let board = request.board;
    lemma_points_fit(samples, request.image_size, board);
    lemma_no_view_fault(corner_lists(request.image_points@), board);
    assert forall|i: int| 0 <= i < request.initial_intrinsics.distortion_coefficients@.len() implies
        (#[trigger] request.initial_intrinsics.distortion_coefficients@[i]).finite() by {}
}

proof fn lemma_points_fit(samples: Seq<SampleView>, size: CalibrationImageSize, board: BoardSpec)
    requires
        misfits(samples, size, board) is None,
    ensures
        forall|i: int|
            0 <= i < counted_points(samples).len() ==> view_fault(
                #[trigger] counted_points(samples)[i],
                board,
            ) is None,
    decreases samples.len(),
{
    if samples.len() > 0 {
        let init = samples.drop_last();
        lemma_points_fit(init, size, board);
        let all = counted_points(samples);
        assert forall|i: int| 0 <= i < all.len() implies view_fault(#[trigger] all[i], board)
            is None by {
            if i < counted_points(init).len() {
                assert(all[i] == counted_points(init)[i]);
            } else {
                assert(all[i] == samples.last().detection.corners@);
            }
        }
    }
}

proof fn lemma_no_view_fault(views: Seq<Seq<CalibrationPoint>>, board: BoardSpec)
    requires
        forall|i: int| 0 <= i < views.len() ==> view_fault(#[trigger] views[i], board) is None,
    ensures
        views_fault(views, board) is None,
    decreases views.len(),
{
    if views.len() > 0 {
        let rest = views.drop_first();
        assert forall|i: int| 0 <= i < rest.len() implies view_fault(#[trigger] rest[i], board)
            is None by {
            assert(rest[i] == views[i + 1]);
        }
        lemma_no_view_fault(rest, board);
    }
}

/// A sample that does not count has no part in a request: without it the request is the same.
pub proof fn law_uncounted_sample_changes_nothing(
    state: SolverState,
    configured: Seq<Seq<CalibrationPoint>>,
    dataset: DatasetView,
    sample: SampleView,
)
    requires
        !sample.acceptance.counts(),
    ensures
        request_of(
            SolverState {
                dataset: Some(DatasetView { samples: dataset.samples.push(sample), ..dataset }),
                ..state
            },
            configured,
        ) == request_of(SolverState { dataset: Some(dataset), ..state }, configured),
{
    let more = dataset.samples.push(sample);
    assert(more.drop_last() =~= dataset.samples);
    assert(counted(more) == counted(dataset.samples));
    assert forall|size: CalibrationImageSize, board: BoardSpec| #[trigger] misfits(
        more,
        size,
        board,
    ) == misfits(dataset.samples, size, board) by {}
}

} // verus!
