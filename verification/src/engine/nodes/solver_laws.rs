//! Laws of the calibration solver: where each part of a request comes from.
use crate::engine::dataset::{counted, DatasetView, SampleView};
use crate::engine::nodes::calibration_solver::{
    counted_points, misfits, request_of, solver_config_fault, solver_input, SolverState,
};
use crate::engine::nodes::composite::dataset_fault;
use crate::engine::nodes::vision_laws::{law_matrix_holds_the_camera, law_usable_parameters};
use crate::engine::packet::PacketView;
use crate::ieee::Real64;
use crate::json::JsonTree;
use crate::model::{view_fault, BoardSpec, CalibrationImageSize, CalibrationPoint};
use vstd::prelude::*;

verus! {

/// What a configuration says of a number of at most `most`: a number that is missing, no whole
/// number, or too large gives way to a fallback.
pub open spec fn says(config: JsonTree, key: Seq<char>, most: int, fallback: int, n: int) -> bool {
    match config.member(key) {
        Some(JsonTree::Uint(value)) => n == (if value <= most {
            value as int
        } else {
            fallback
        }),
        _ => n == fallback,
    }
}

/// The image size of a request is that of the camera that came in with one, whatever the
/// configuration says, and that of the configuration where no camera did.
pub proof fn law_camera_size_goes_before_configuration(
    state: SolverState,
    configured: Seq<Seq<CalibrationPoint>>,
    config: JsonTree,
)
    ensures
        request_of(state, configured) is Ok ==> {
            let size = request_of(state, configured)->Ok_0.image_size;
            match state.camera {
                Some(camera) if camera.image_size is Some => size == camera.image_size->Some_0,
                _ => says(state.config, "imageWidth"@, 0xffff_ffff, 1920, size.width as int)
                    && says(state.config, "imageHeight"@, 0xffff_ffff, 1080, size.height as int)
                    && size.width > 0 && size.height > 0,
            }
        },
        state.camera is Some && state.camera->Some_0.image_size is Some && request_of(
            state,
            configured,
        ) is Ok && request_of(SolverState { config, ..state }, configured) is Ok ==> request_of(
            SolverState { config, ..state },
            configured,
        )->Ok_0.image_size == request_of(state, configured)->Ok_0.image_size,
{
}

/// The board of a request is that of the parameters that came in, and that of the configuration
/// where none did.
pub proof fn law_board_parameters_go_before_configuration(
    state: SolverState,
    configured: Seq<Seq<CalibrationPoint>>,
)
    requires
        request_of(state, configured) is Ok,
    ensures
        ({
            let board = request_of(state, configured)->Ok_0.board;
            &&& board.inner_cols >= 2 && board.inner_rows >= 2
            &&& match state.board {
                Some(params) => board.inner_cols == params.cols && board.inner_rows == params.rows
                    && board.square_size == params.square_size_mm,
                None => says(state.config, "boardCols"@, 0xffff, 8, board.inner_cols as int)
                    && says(state.config, "boardRows"@, 0xffff, 11, board.inner_rows as int) && (
                state.config.member("squareSizeMm"@) is None ==> board.square_size.bits
                    == 0x403e_0000_0000_0000) && (state.config.member("squareSizeMm"@) matches Some(
                    JsonTree::Real(x),
                ) ==> board.square_size == x),
            }
        }),
{
}

/// The camera matrix of a request has the focal lengths and the centre of the camera that came in on
/// their places, and those of the configuration where none did. No distortion is assumed.
pub proof fn law_camera_matrix_is_that_of_the_camera(
    state: SolverState,
    configured: Seq<Seq<CalibrationPoint>>,
)
    requires
        request_of(state, configured) is Ok,
    ensures
        ({
            let request = request_of(state, configured)->Ok_0;
            let m = request.camera_matrix;
            let zero = Real64 { bits: 0 };
            &&& m.len() == 9
            &&& m[1] == zero && m[3] == zero && m[6] == zero && m[7] == zero
            &&& m[8].bits == 0x3ff0_0000_0000_0000
            &&& zero.below(m[0]) && zero.below(m[4])
            &&& forall|i: int| 0 <= i < 9 ==> (#[trigger] m[i]).finite()
            &&& forall|i: int|
                0 <= i < request.distortion_coefficients.len() ==> (
                #[trigger] request.distortion_coefficients[i]).bits == 0
            &&& match state.camera {
                Some(camera) => m[0] == camera.fx && m[4] == camera.fy && m[2] == camera.cx && m[5]
                    == camera.cy && request.distortion_coefficients.len() == 5,
                None => {
                    &&& request.distortion_coefficients.len() == 12
                    &&& state.config.member("fx"@) matches Some(JsonTree::Real(x)) ==> m[0] == x
                    &&& state.config.member("fy"@) matches Some(JsonTree::Real(x)) ==> m[4] == x
                    &&& state.config.member("cx"@) matches Some(JsonTree::Real(x)) ==> m[2] == x
                    &&& state.config.member("cy"@) matches Some(JsonTree::Real(x)) ==> m[5] == x
                    &&& state.config.member("cx"@) is None ==> m[2].bits == 0x408e_0000_0000_0000
                    &&& state.config.member("cy"@) is None ==> m[5].bits == 0x4080_e000_0000_0000
                    &&& state.config.member("fx"@) is None ==> m[0].bits == 0x4093_4a3d_70a3_d70a
                    &&& state.config.member("fy"@) is None ==> m[4].bits == 0x4093_4a3d_70a3_d70a
                },
            }
        }),
{
}

/// Whether a list of positions names, in order, exactly the samples that are accepted and enabled.
pub open spec fn picks_counted(samples: Seq<SampleView>, picks: Seq<int>) -> bool {
    &&& forall|k: int|
        0 <= k < picks.len() ==> {
            &&& 0 <= #[trigger] picks[k] < samples.len()
            &&& samples[picks[k]].acceptance.accepted
            &&& samples[picks[k]].acceptance.enabled
        }
    &&& forall|k: int, l: int|
        0 <= k < l < picks.len() ==> #[trigger] picks[k] < #[trigger] picks[l]
    &&& forall|i: int|
        0 <= i < samples.len() && (#[trigger] samples[i]).acceptance.accepted
            && samples[i].acceptance.enabled ==> picks.contains(i)
}

/// The positions of the samples that are accepted and enabled.
pub proof fn lemma_counted(samples: Seq<SampleView>) -> (picks: Seq<int>)
    ensures
        picks_counted(samples, picks),
        picks.len() == counted(samples).len(),
        forall|k: int|
            0 <= k < picks.len() ==> #[trigger] counted(samples)[k] == samples[picks[k]],
    decreases samples.len(),
{
    if samples.len() == 0 {
        Seq::empty()
    } else {
        let init = samples.drop_last();
        let earlier = lemma_counted(init);
        let n = samples.len() - 1;
        let picks = if samples.last().acceptance.accepted && samples.last().acceptance.enabled {
            earlier.push(n)
        } else {
            earlier
        };
        assert forall|k: int| 0 <= k < earlier.len() implies {
            &&& 0 <= #[trigger] earlier[k] < n
            &&& samples[earlier[k]] == init[earlier[k]]
        } by {}
        assert forall|i: int|
            0 <= i < samples.len() && (#[trigger] samples[i]).acceptance.accepted
                && samples[i].acceptance.enabled implies picks.contains(i) by {
            if i < n {
                assert(init[i] == samples[i]);
                assert(earlier.contains(i));
                let k = choose|k: int| 0 <= k < earlier.len() && earlier[k] == i;
                assert(picks[k] == i);
            } else {
                assert(picks[picks.len() - 1] == i);
            }
        }
        assert forall|k: int| 0 <= k < picks.len() implies {
            &&& 0 <= #[trigger] picks[k] < samples.len()
            &&& samples[picks[k]].acceptance.accepted
            &&& samples[picks[k]].acceptance.enabled
            &&& counted(samples)[k] == samples[picks[k]]
        } by {
            if k < earlier.len() {
                assert(picks[k] == earlier[k]);
                assert(counted(samples)[k] == counted(init)[k]);
            }
        }
        assert forall|k: int, l: int| 0 <= k < l < picks.len() implies #[trigger] picks[k]
            < #[trigger] picks[l] by {
            assert(picks[k] == earlier[k]);
            if l < earlier.len() {
                assert(picks[l] == earlier[l]);
            }
        }
        picks
    }
}

proof fn lemma_no_misfit(
    samples: Seq<SampleView>,
    size: CalibrationImageSize,
    board: crate::model::BoardSpec,
)
    ensures
        misfits(samples, size, board) is None ==> forall|i: int|
            0 <= i < samples.len() && (#[trigger] samples[i]).acceptance.accepted
                && samples[i].acceptance.enabled ==> samples[i].detection.image_size == size
                && samples[i].detection.corners@.len() == board.inner_cols * board.inner_rows,
    decreases samples.len(),
{
    if samples.len() > 0 {
        let init = samples.drop_last();
        lemma_no_misfit(init, size, board);
        if misfits(samples, size, board) is None {
            assert forall|i: int|
                0 <= i < samples.len() && (#[trigger] samples[i]).acceptance.accepted
                    && samples[i].acceptance.enabled implies samples[i].detection.image_size == size
                && samples[i].detection.corners@.len() == board.inner_cols * board.inner_rows by {
                if i < init.len() {
                    assert(init[i] == samples[i]);
                }
            }
        }
    }
}

/// The views of a request are the corners of the samples that are accepted and enabled, of all of
/// them and of no other, each from an image of the request's size and with one corner for every
/// inner corner of its board. Only without a dataset do the configured points take their place.
pub proof fn law_request_takes_the_accepted_samples(
    state: SolverState,
    configured: Seq<Seq<CalibrationPoint>>,
)
    requires
        request_of(state, configured) is Ok,
    ensures
        ({
            let request = request_of(state, configured)->Ok_0;
            match state.dataset {
                None => request.image_points == configured,
                Some(dataset) => {
                    &&& request.image_points.len() > 0
                    &&& exists|picks: Seq<int>| #[trigger]
                        picks_counted(dataset.samples, picks) && picks.len()
                            == request.image_points.len() && (forall|k: int|
                            0 <= k < picks.len() ==> request.image_points[k]
                                == dataset.samples[#[trigger] picks[k]].detection.corners@)
                    &&& forall|i: int|
                        0 <= i < dataset.samples.len() && (
                        #[trigger] dataset.samples[i]).acceptance.accepted
                            && dataset.samples[i].acceptance.enabled
                            ==> dataset.samples[i].detection.image_size == request.image_size
                            && dataset.samples[i].detection.corners@.len()
                            == request.board.inner_cols * request.board.inner_rows
                },
            }
        }),
{
    match state.dataset {
        None => {},
        Some(dataset) => {
            let request = request_of(state, configured)->Ok_0;
            lemma_no_misfit(dataset.samples, request.image_size, request.board);
            let picks = lemma_counted(dataset.samples);
            assert(request.image_points == counted_points(dataset.samples));
            assert forall|k: int| 0 <= k < picks.len() implies request.image_points[k]
                == dataset.samples[#[trigger] picks[k]].detection.corners@ by {
                assert(counted(dataset.samples)[k] == dataset.samples[picks[k]]);
            }
            assert(picks_counted(dataset.samples, picks));
        },
    }
}

/// Each packet is kept in the place of its port and nowhere else; the one that came last is in force.
/// A packet of another kind is refused and changes nothing.
pub proof fn law_each_packet_has_its_place(state: SolverState, port: Seq<char>, packet: PacketView)
    ensures
        ({
            let (after, error) = solver_input(state, port, packet);
            &&& after.config == state.config
            &&& error is Some ==> after == state
            &&& port != "dataset"@ ==> after.dataset == state.dataset
            &&& port != "board"@ ==> after.board == state.board
            &&& port != "cameraModel"@ ==> after.camera == state.camera
            &&& port != "distortionModel"@ ==> after.distortion == state.distortion
            &&& port == "board"@ ==> (error is None <==> packet is CalibrationBoardParams)
            &&& port == "cameraModel"@ ==> (error is None <==> packet is CameraModelParams)
            &&& port == "distortionModel"@ ==> (error is None
                <==> packet is DistortionModelParams)
            &&& port == "dataset"@ && error is None ==> packet is Dataset && after.dataset == Some(
                packet->Dataset_0,
            )
            &&& port == "board"@ && error is None ==> after.board == Some(
                packet->CalibrationBoardParams_0,
            )
            &&& port == "cameraModel"@ && error is None ==> after.camera == Some(
                packet->CameraModelParams_0,
            )
            &&& port == "distortionModel"@ && error is None ==> after.distortion == Some(
                packet->DistortionModelParams_0,
            )
        }),
{
    reveal_strlit("dataset");
    reveal_strlit("board");
    reveal_strlit("cameraModel");
    reveal_strlit("distortionModel");
    assert("dataset"@.len() == 7 && "board"@.len() == 5 && "cameraModel"@.len() == 11
        && "distortionModel"@.len() == 15);
}

/// A configuration is usable exactly where its image has pixels, its board has two inner corners in
/// both directions and a positive spacing, and its camera is finite with positive focal lengths.
pub proof fn law_unusable_configurations_are_refused(config: JsonTree)
    ensures
        config.member("imageWidth"@) == Some(JsonTree::Uint(0)) ==> solver_config_fault(
            config,
        ) is Some,
        config.member("imageHeight"@) == Some(JsonTree::Uint(0)) ==> solver_config_fault(
            config,
        ) is Some,
        (config.member("boardCols"@) matches Some(JsonTree::Uint(n)) && n < 2)
            ==> solver_config_fault(config) is Some,
        (config.member("boardRows"@) matches Some(JsonTree::Uint(n)) && n < 2)
            ==> solver_config_fault(config) is Some,
        (config.member("fx"@) matches Some(JsonTree::Real(x)) && x.at_most(Real64 { bits: 0 }))
            ==> solver_config_fault(config) is Some,
        (config.member("fy"@) matches Some(JsonTree::Real(x)) && x.at_most(Real64 { bits: 0 }))
            ==> solver_config_fault(config) is Some,
        (config.member("squareSizeMm"@) matches Some(JsonTree::Real(x)) && x.at_most(
            Real64 { bits: 0 },
        )) ==> solver_config_fault(config) is Some,
{
}

proof fn lemma_misfits(samples: Seq<SampleView>, size: CalibrationImageSize, board: BoardSpec)
    ensures
        misfits(samples, size, board) is None <==> forall|i: int|
            0 <= i < samples.len() && (#[trigger] samples[i]).acceptance.accepted
                && samples[i].acceptance.enabled ==> samples[i].detection.image_size == size
                && view_fault(samples[i].detection.corners@, board) is None,
    decreases samples.len(),
{
    if samples.len() > 0 {
        let init = samples.drop_last();
        lemma_misfits(init, size, board);
        assert(forall|i: int| 0 <= i < init.len() ==> init[i] == samples[i]);
        assert(samples.last() == samples[samples.len() - 1]);
        if misfits(samples, size, board) is None {
            assert forall|i: int|
                0 <= i < samples.len() && (#[trigger] samples[i]).acceptance.accepted
                    && samples[i].acceptance.enabled implies samples[i].detection.image_size == size
                && view_fault(samples[i].detection.corners@, board) is None by {
                if i < init.len() {
                    assert(init[i].acceptance.accepted);
                }
            }
        }
        if forall|i: int|
            0 <= i < samples.len() && (#[trigger] samples[i]).acceptance.accepted
                && samples[i].acceptance.enabled ==> samples[i].detection.image_size == size
                && view_fault(samples[i].detection.corners@, board) is None {
            assert forall|i: int|
                0 <= i < init.len() && (#[trigger] init[i]).acceptance.accepted
                    && init[i].acceptance.enabled implies init[i].detection.image_size == size
                && view_fault(init[i].detection.corners@, board) is None by {
                assert(samples[i].acceptance.accepted);
            }
            assert(samples[samples.len() - 1].acceptance.accepted
                == samples.last().acceptance.accepted);
        }
    }
}

/// A request is made exactly where the settings name a size, the board in force is one, the accepted
/// samples of a dataset are there and fit both, and camera, lens and matrix are usable.
pub proof fn law_requests_are_made_of_fitting_parts(
    state: SolverState,
    configured: Seq<Seq<CalibrationPoint>>,
    board: BoardSpec,
    size: CalibrationImageSize,
)
    requires
        state.board matches Some(params) && board.inner_cols == params.cols && board.inner_rows
            == params.rows && board.square_size == params.square_size_mm,
        state.camera matches Some(camera) && camera.image_size == Some(size),
    ensures
        request_of(state, configured) is Ok <==> {
            let camera = state.camera->Some_0;
            &&& state.config.member("imageWidth"@) != Some(JsonTree::Uint(0))
            &&& state.config.member("imageHeight"@) != Some(JsonTree::Uint(0))
            &&& board.fault() is None
            &&& state.dataset matches Some(dataset) ==> {
                &&& exists|i: int|
                    0 <= i < dataset.samples.len() && (
                    #[trigger] dataset.samples[i]).acceptance.accepted
                        && dataset.samples[i].acceptance.enabled
                &&& forall|i: int|
                    0 <= i < dataset.samples.len() && (
                    #[trigger] dataset.samples[i]).acceptance.accepted
                        && dataset.samples[i].acceptance.enabled
                        ==> dataset.samples[i].detection.image_size == size && view_fault(
                        dataset.samples[i].detection.corners@,
                        board,
                    ) is None
            }
            &&& camera.fault() is None
            &&& state.distortion matches Some(lens) ==> lens.coefficients.len() == 0
        },
{
    let camera = state.camera->Some_0;
    law_matrix_holds_the_camera(camera);
    law_usable_parameters(
        state.board->Some_0,
        camera,
        crate::engine::packet::DistortionView::none(),
    );
    if state.dataset is Some {
        let samples = state.dataset->Some_0.samples;
        lemma_misfits(samples, size, board);
        lemma_any_counted(samples);
    }
}

proof fn lemma_any_counted(samples: Seq<SampleView>)
    ensures
        counted(samples).len() > 0 <==> exists|i: int|
            0 <= i < samples.len() && (#[trigger] samples[i]).acceptance.accepted
                && samples[i].acceptance.enabled,
    decreases samples.len(),
{
    if samples.len() > 0 {
        let init = samples.drop_last();
        let n = samples.len() - 1;
        lemma_any_counted(init);
        assert(forall|i: int| 0 <= i < init.len() ==> init[i] == samples[i]);
        assert(samples.last() == samples[n]);
        if counted(init).len() > 0 {
            let i = choose|i: int|
                0 <= i < init.len() && (#[trigger] init[i]).acceptance.accepted
                    && init[i].acceptance.enabled;
            assert(samples[i].acceptance.accepted && samples[i].acceptance.enabled);
        }
        if exists|i: int|
            0 <= i < samples.len() && (#[trigger] samples[i]).acceptance.accepted
                && samples[i].acceptance.enabled {
            let i = choose|i: int|
                0 <= i < samples.len() && (#[trigger] samples[i]).acceptance.accepted
                    && samples[i].acceptance.enabled;
            if i < n {
                assert(init[i].acceptance.accepted && init[i].acceptance.enabled);
            }
        }
    }
}

/// Settings without any of these members are usable, and a dataset is taken exactly where it is one.
pub proof fn law_default_settings_are_usable(
    config: JsonTree,
    state: SolverState,
    dataset: DatasetView,
)
    ensures
        config.member("imageWidth"@) is None && config.member("imageHeight"@) is None
            && config.member("boardCols"@) is None && config.member("boardRows"@) is None
            && config.member("squareSizeMm"@) is None && config.member("fx"@) is None
            && config.member("fy"@) is None && config.member("cx"@) is None && config.member("cy"@)
            is None ==> solver_config_fault(config) is None,
        solver_input(state, "dataset"@, PacketView::Dataset(dataset)).1 is None <==> dataset_fault(
            dataset,
        ) is None,
{
    let m = crate::engine::nodes::calibration_solver::configured_matrix(config);
    assert(forall|i: int| 0 <= i < 9 ==> (m[0].finite() && m[2].finite() && m[4].finite()
        && m[5].finite() ==> (#[trigger] m[i]).finite()));
}

/// Without board and camera parameters a request is made exactly where the settings are usable and the
/// accepted samples of a dataset are there and fit them.
pub proof fn law_settings_alone_make_a_request(
    state: SolverState,
    configured: Seq<Seq<CalibrationPoint>>,
    board: BoardSpec,
    size: CalibrationImageSize,
)
    requires
        state.board is None,
        state.camera is None,
        says(state.config, "boardCols"@, 0xffff, 8, board.inner_cols as int),
        says(state.config, "boardRows"@, 0xffff, 11, board.inner_rows as int),
        match state.config.member("squareSizeMm"@) {
            None => board.square_size.bits == 0x403e_0000_0000_0000,
            Some(JsonTree::Real(x)) => board.square_size == x,
            _ => false,
        },
        says(state.config, "imageWidth"@, 0xffff_ffff, 1920, size.width as int),
        says(state.config, "imageHeight"@, 0xffff_ffff, 1080, size.height as int),
    ensures
        request_of(state, configured) is Ok <==> {
            &&& solver_config_fault(state.config) is None
            &&& state.dataset matches Some(dataset) ==> {
                &&& exists|i: int|
                    0 <= i < dataset.samples.len() && (
                    #[trigger] dataset.samples[i]).acceptance.accepted
                        && dataset.samples[i].acceptance.enabled
                &&& forall|i: int|
                    0 <= i < dataset.samples.len() && (
                    #[trigger] dataset.samples[i]).acceptance.accepted
                        && dataset.samples[i].acceptance.enabled
                        ==> dataset.samples[i].detection.image_size == size && view_fault(
                        dataset.samples[i].detection.corners@,
                        board,
                    ) is None
            }
        },
{
    assert(crate::engine::nodes::calibration_solver::configured_size(state.config) == size);
    assert(crate::engine::nodes::calibration_solver::configured_board(state.config) == board);
    if state.dataset is Some {
        let samples = state.dataset->Some_0.samples;
        lemma_misfits(samples, size, board);
        lemma_any_counted(samples);
    }
}

} // verus!
