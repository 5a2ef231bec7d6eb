//! Laws of images and of the nodes that look at them: which frames are one, how their rows are
//! read, what a detector and an estimator are given, and where parameters come from.
use crate::engine::node::NodeErrorView;
use crate::engine::nodes::calibration_params::{
    board_params, camera_params, camera_sent, CalibrationBoardConfig, CameraInitialConfig,
};
use crate::engine::nodes::detection::{
    byte_limit, detection_begun, detector_frame, found_overlay, found_sent, job_of, outline,
    rgba_of, rows_of, spread, upper_bytes, ChessboardDetectorNode, DetectionJob,
};
use crate::engine::nodes::intrinsics::{camera_matrix, matrix_usable};
use crate::engine::nodes::local_source::{
    load_emitted, local_frame, path_extended, path_pushed, selected_path,
};
use crate::engine::nodes::pose_estimator::{
    estimate_fault, estimator_input, metric_board, vector, EstimatorState, PoseRequest,
};
use crate::engine::nodes::raster::{
    after_last, compacted, extension_of, file_name, format_of, packed_rows, RasterFormat, RgbaImage,
};
use crate::engine::packet::{
    frame_fault, pose_fault, CalibrationBoardParams, CalibrationVector3,
    CameraModelParams, DecodedVideoFrame, DistortionView, ImageFrame, ImageFrameError,
    ImageFrameFormat, ImageFrameView, IdentityView, PacketView, PlaneView,
};
use crate::engine::runtime::{EffectView, RuntimeView};
use crate::engine::spec::has_port;
use crate::ieee::Real64;
use crate::json::JsonTree;
use crate::model::{
    view_fault, BoardSpec, CalibrationImageSize, CalibrationPoint, ChessboardDetection,
};
use crate::text::{ascii_lowered, blank, trimmed};
use vstd::prelude::*;

verus! {

/// A frame is one exactly where it has an extent, as many planes as its format, and in each plane all
/// of its rows, half as many in the second.
pub proof fn law_frames_hold_their_rows(
    width: u32,
    height: u32,
    format: ImageFrameFormat,
    planes: Seq<PlaneView>,
)
    ensures
        frame_fault(width, height, format, planes) is None <==> {
            &&& width > 0 && height > 0
            &&& planes.len() == (if format == ImageFrameFormat::Nv12 {
                2nat
            } else {
                1nat
            })
            &&& planes[0].stride_bytes * height <= planes[0].bytes.len()
            &&& format == ImageFrameFormat::Nv12 ==> planes[1].stride_bytes * (height / 2)
                <= planes[1].bytes.len()
        },
        width == 0 ==> frame_fault(width, height, format, planes) == Some(
            ImageFrameError::EmptyDimensions,
        ),
{
}

/// An image of a decoded video frame has its extent, its pixels in one plane, and its identity.
pub proof fn law_video_frames_stay_what_they_are(frame: DecodedVideoFrame)
    ensures
        ({
            let image = ImageFrame::of_video(frame);
            &&& image.width == frame.width && image.height == frame.height
            &&& image.format == ImageFrameFormat::Rgba8 && image.raw is None
            &&& image.planes.len() == 1 && image.planes[0].bytes == frame.rgba@
            &&& 4 * frame.width <= u32::MAX ==> image.planes[0].stride_bytes == 4 * frame.width
            &&& 4 * frame.width > u32::MAX ==> image.planes[0].stride_bytes == u32::MAX
            &&& image.identity.frame_sequence == frame.identity.frame_sequence
            &&& image.identity.host_monotonic_time_ns == frame.identity.host_monotonic_time_ns
            &&& image.identity.device_timestamp_ns == frame.identity.device_timestamp_ns
            &&& image.identity.provenance is Stream
            &&& image.identity.provenance->Stream_channel == frame.identity.channel
            &&& image.identity.provenance->stream == frame.identity.stream_id.value@
        }),
{
}

/// A pose is one exactly where its figures are finite and its error, if it has one, is not negative.
pub proof fn law_poses_are_finite(
    translation: CalibrationVector3,
    rotation: CalibrationVector3,
    error: Option<Real64>,
)
    ensures
        pose_fault(translation, rotation, error) is None <==> {
            &&& translation.x.finite() && translation.y.finite() && translation.z.finite()
            &&& rotation.x.finite() && rotation.y.finite() && rotation.z.finite()
            &&& error matches Some(x) ==> x.finite() && (Real64 { bits: 0 }).at_most(x)
        },
{
}

/// Parameters are usable exactly where a board has two corners each way and a spacing above zero, a
/// camera has focal lengths above zero, a finite centre and no empty image, and a lens has no
/// coefficients.
pub proof fn law_usable_parameters(
    board: CalibrationBoardParams,
    camera: CameraModelParams,
    lens: DistortionView,
)
    ensures
        board.fault() is None <==> board.cols >= 2 && board.rows >= 2 && board.square_size_mm.finite()
            && (Real64 { bits: 0 }).below(board.square_size_mm),
        camera.fault() is None <==> {
            &&& camera.fx.finite() && (Real64 { bits: 0 }).below(camera.fx)
            &&& camera.fy.finite() && (Real64 { bits: 0 }).below(camera.fy)
            &&& camera.cx.finite() && camera.cy.finite()
            &&& camera.image_size matches Some(size) ==> size.width > 0 && size.height > 0
        },
        lens.fault() is None <==> lens.coefficients.len() == 0,
{
}

/// The matrix of a camera has the focal lengths on its diagonal, the centre in its last column, and a
/// one in its corner.
pub proof fn law_matrix_holds_the_camera(camera: CameraModelParams)
    ensures
        ({
            let m = camera_matrix(camera);
            &&& m.len() == 9
            &&& m[0] == camera.fx && m[4] == camera.fy && m[2] == camera.cx && m[5] == camera.cy
            &&& m[1].bits == 0 && m[3].bits == 0 && m[6].bits == 0 && m[7].bits == 0
            &&& m[8].bits == 0x3ff0_0000_0000_0000
        }),
        matrix_usable(camera_matrix(camera)) <==> {
            &&& camera.fx.finite() && (Real64 { bits: 0 }).below(camera.fx)
            &&& camera.fy.finite() && (Real64 { bits: 0 }).below(camera.fy)
            &&& camera.cx.finite() && camera.cy.finite()
        },
{
    let m = camera_matrix(camera);
    assert(m[0].finite() && m[4].finite() && m[2].finite() && m[5].finite() ==> forall|i: int|
        0 <= i < 9 ==> (#[trigger] m[i]).finite());
    if matrix_usable(m) {
        assert(m[0].finite() && m[4].finite() && m[2].finite() && m[5].finite());
    }
}

/// Rows are read from where each begins: byte `c` of row `r` is the byte so far behind the start of
/// the row in the plane, whatever stands behind the end of a row.
pub proof fn law_rows_are_read_where_they_begin(
    bytes: Seq<u8>,
    stride: nat,
    rows: nat,
    row_bytes: nat,
    r: int,
    c: int,
)
    requires
        packed_rows(bytes, stride, rows, row_bytes) is Ok,
        0 <= r < rows,
        0 <= c < row_bytes,
    ensures
        packed_rows(bytes, stride, rows, row_bytes)->Ok_0.len() == rows * row_bytes,
        0 <= r * row_bytes + c < rows * row_bytes,
        packed_rows(bytes, stride, rows, row_bytes)->Ok_0[r * row_bytes + c] == bytes[r * stride
            + c],
    decreases rows,
{
    crate::engine::nodes::raster::law_packed_length(bytes, stride, rows, row_bytes);
    crate::engine::nodes::raster::law_packed_length(bytes, stride, (rows - 1) as nat, row_bytes);
    assert(0 <= r * row_bytes && r * row_bytes + row_bytes <= rows * row_bytes) by (nonlinear_arith)
        requires
            0 <= r < rows,
            row_bytes >= 0,
    ;
    assert((rows - 1) * stride >= 0) by (nonlinear_arith)
        requires
            rows >= 1,
            stride >= 0,
    ;
    if r < rows - 1 {
        law_rows_are_read_where_they_begin(bytes, stride, (rows - 1) as nat, row_bytes, r, c);
    }
}

/// Rows are readable exactly where each of them ends within the plane.
pub proof fn law_rows_end_within_the_plane(bytes: Seq<u8>, stride: nat, rows: nat, row_bytes: nat)
    requires
        bytes.len() <= usize::MAX,
        rows > 0,
    ensures
        packed_rows(bytes, stride, rows, row_bytes) is Ok <==> (rows - 1) * stride + row_bytes
            <= bytes.len(),
    decreases rows,
{
    if rows > 1 {
        law_rows_end_within_the_plane(bytes, stride, (rows - 1) as nat, row_bytes);
        assert((rows - 2) * stride + stride == (rows - 1) * stride) by (nonlinear_arith);
    } else {
        assert(packed_rows(bytes, stride, 0, row_bytes) is Ok);
        assert(0 * stride == 0);
    }
}

/// A grey value becomes a pixel of three equal colours, opaque; of a grey value of two bytes the
/// upper byte does.
pub proof fn law_grey_values_become_opaque_pixels(values: Seq<u8>, i: int)
    ensures
        spread(values).len() == 4 * values.len(),
        0 <= i < values.len() ==> spread(values)[4 * i] == values[i] && spread(values)[4 * i + 1]
            == values[i] && spread(values)[4 * i + 2] == values[i] && spread(values)[4 * i + 3] == 255,
        upper_bytes(values).len() == values.len() / 2,
        0 <= i < values.len() / 2 ==> upper_bytes(values)[i] == values[2 * i + 1],
{
}

/// A detector reads the pixels of a frame by its format, and reads none of a format whose values are
/// no pixels.
pub proof fn law_detector_reads_pixels(frame: ImageFrameView)
    ensures
        frame.format == ImageFrameFormat::Nv12 || frame.format == ImageFrameFormat::BayerRaw
            ==> rgba_of(frame) is Err,
        frame.planes.len() == 0 ==> rgba_of(frame) is Err,
        frame.format == ImageFrameFormat::Rgba8 && frame.planes.len() > 0
            && frame.planes[0].stride_bytes == frame.width * 4 && frame.width * 4 <= usize::MAX
            ==> rgba_of(frame) == Ok::<Seq<u8>, NodeErrorView>(frame.planes[0].bytes),
        frame.format == ImageFrameFormat::Rgba8 && frame.planes.len() > 0
            && frame.planes[0].stride_bytes != frame.width * 4 && rgba_of(frame) is Ok ==> packed_rows(
            frame.planes[0].bytes,
            frame.planes[0].stride_bytes as nat,
            frame.height as nat,
            (frame.width * 4) as nat,
        ) == Ok::<Seq<u8>, crate::engine::nodes::raster::RowFault>(rgba_of(frame)->Ok_0),
        frame.format == ImageFrameFormat::Gray8 && rgba_of(frame) is Ok ==> rows_of(
            frame.planes[0],
            frame.height,
            frame.width as int,
        ) is Ok && rgba_of(frame)->Ok_0.len() == 4 * rows_of(
            frame.planes[0],
            frame.height,
            frame.width as int,
        )->Ok_0.len(),
{
}

/// A frame is looked at exactly where it has pixels, as many as its extent, and the services that
/// look at it are there; they are then given those pixels. An empty frame is passed over.
pub proof fn law_detector_is_given_the_pixels(frame: ImageFrameView, rt: RuntimeView)
    ensures
        frame.width == 0 || frame.height == 0 ==> detection_begun(frame, rt) == Ok::<
            Option<(Seq<u8>, usize)>,
            NodeErrorView,
        >(None),
        detection_begun(frame, rt) matches Ok(Some(job)) ==> {
            &&& rgba_of(frame) == Ok::<Seq<u8>, NodeErrorView>(job.0)
            &&& job.0.len() == frame.width * frame.height * 4
            &&& job.1 == frame.width * frame.height * 4
            &&& rt.services.image_codec && rt.services.calibration
        },
        frame.width > 0 && frame.height > 0 && rgba_of(frame) is Ok && rgba_of(frame)->Ok_0.len() > 0
            && rt.services.image_codec && rt.services.calibration && frame.width * frame.height * 4
            <= u64::MAX && frame.width * frame.height * 4 <= usize::MAX && rgba_of(frame)->Ok_0.len()
            == frame.width * frame.height * 4 ==> detection_begun(frame, rt) is Ok && detection_begun(
            frame,
            rt,
        )->Ok_0 is Some,
{
}

/// The frames of a detector come in on two ports, video on one of them only.
pub proof fn law_detector_takes_frames(port: Seq<char>, packet: PacketView)
    ensures
        packet is ImageFrame ==> (detector_frame(port, packet) is Some <==> port == "image"@ || port
            == "frames"@),
        packet matches PacketView::ImageFrame(frame) ==> (detector_frame(port, packet) matches Some(
            got,
        ) ==> got == frame),
        packet is VideoFrame ==> (detector_frame(port, packet) is Some <==> port == "frames"@),
        packet matches PacketView::VideoFrame(frame) ==> (detector_frame(port, packet) matches Some(
            got,
        ) ==> got == ImageFrame::of_video(frame)),
        !(packet is ImageFrame) && !(packet is VideoFrame) ==> detector_frame(port, packet) is None,
{
}

/// The outline of a board runs through its four outer corners in turn: the first and last of the
/// first row, then the last and first of the last row.
pub proof fn law_outline_runs_through_the_outer_corners(
    corners: Seq<CalibrationPoint>,
    board: BoardSpec,
)
    ensures
        outline(corners, board) is Some <==> board.inner_cols > 0 && board.inner_rows > 0
            && corners.len() >= board.inner_cols * board.inner_rows,
        outline(corners, board) matches Some(points) ==> {
            let cols = board.inner_cols as int;
            let rows = board.inner_rows as int;
            &&& points.len() == 4
            &&& points[0] == corners[0]
            &&& points[1] == corners[cols - 1]
            &&& points[2] == corners[rows * cols - 1]
            &&& points[3] == corners[rows * cols - cols]
        },
{
    let cols = board.inner_cols as int;
    let rows = board.inner_rows as int;
    assert((rows - 1) * cols == rows * cols - cols) by (nonlinear_arith);
}

/// A found board goes out as a detection with the identity of its frame; its overlay follows where
/// the node has a port for it.
pub proof fn law_found_board_goes_out_with_its_frame(
    node: ChessboardDetectorNode,
    identity: IdentityView,
    detection: ChessboardDetection,
    board: BoardSpec,
    rt: RuntimeView,
)
    ensures
        ({
            let (after, sent) = found_sent(node, identity, detection, board, rt);
            let n = rt.log.len() as int;
            &&& !rt.accepts("detection"@) ==> after == rt && !sent
            &&& rt.accepts("detection"@) ==> after.log.len() > n && after.log[n] == (
            EffectView::Emit {
                port: "detection"@,
                packet: PacketView::Detection { detection, identity },
            })
            &&& rt.accepts("detection"@) && has_port(node.spec@.outputs, "overlay"@) && rt.accepts(
                "overlay"@,
            ) ==> sent && after.log.len() == n + 3 && after.log[n + 1] is Emit && after.log[n
                + 1]->Emit_port == "overlay"@
            &&& rt.accepts("detection"@) && !has_port(node.spec@.outputs, "overlay"@) ==> sent
                && after.log.len() == n + 2
        }),
{
}

/// The byte budget of an image is four bytes for each of its pixels.
pub proof fn law_byte_budget_is_four_a_pixel(size: CalibrationImageSize)
    ensures
        byte_limit(size) matches Ok(n) ==> n == size.width * size.height * 4,
        byte_limit(size) is Ok <==> size.width * size.height * 4 <= u64::MAX && size.width
            * size.height * 4 <= usize::MAX,
{
}

/// A packet of an estimator has its own place, by its port and its sort, and leaves the other places;
/// a packet of another sort is refused and changes nothing.
pub proof fn law_estimator_keeps_each_packet_in_its_place(
    state: EstimatorState,
    port: Seq<char>,
    packet: PacketView,
)
    ensures
        ({
            let (after, due) = estimator_input(state, port, packet);
            &&& due is Err ==> after == state
            &&& port == "detection"@ && packet is Detection ==> due == Ok::<bool, NodeErrorView>(true)
                && after.detection == Some((packet->detection, packet->Detection_identity))
                && after.board == state.board && after.camera == state.camera && after.distortion
                == state.distortion
            &&& port == "board"@ && packet is CalibrationBoardParams ==> due == Ok::<
                bool,
                NodeErrorView,
            >(true) && after.board == Some(packet->CalibrationBoardParams_0) && after.detection
                == state.detection && after.camera == state.camera && after.distortion
                == state.distortion
            &&& port == "cameraModel"@ && packet is CameraModelParams ==> due == Ok::<
                bool,
                NodeErrorView,
            >(true) && after.camera == Some(packet->CameraModelParams_0) && after.detection
                == state.detection && after.board == state.board && after.distortion
                == state.distortion
            &&& port == "distortionModel"@ && packet is DistortionModelParams ==> due == Ok::<
                bool,
                NodeErrorView,
            >(true) && after.distortion == Some(packet->DistortionModelParams_0) && after.detection
                == state.detection && after.board == state.board && after.camera == state.camera
            &&& port == "detection"@ && !(packet is Detection) ==> due is Err
            &&& port == "board"@ && !(packet is CalibrationBoardParams) ==> due is Err
            &&& port == "cameraModel"@ && !(packet is CameraModelParams) ==> due is Err
            &&& port == "distortionModel"@ && !(packet is DistortionModelParams) ==> due is Err
            &&& port != "detection"@ && port != "board"@ && port != "cameraModel"@ && port
                != "distortionModel"@ ==> after == state && due == Ok::<bool, NodeErrorView>(false)
        }),
{
    reveal_strlit("detection");
    reveal_strlit("board");
    reveal_strlit("cameraModel");
    reveal_strlit("distortionModel");
    assert("detection"@[1] == 'e' && "board"@[1] == 'o' && "cameraModel"@[1] == 'a'
        && "distortionModel"@[1] == 'i');
}

/// A pose is estimated exactly where board, camera and lens are usable, the camera is for the size of
/// the detection where it is for any, and the detection holds every corner of the board.
pub proof fn law_pose_needs_agreeing_inputs(
    detection: ChessboardDetection,
    params: CalibrationBoardParams,
    camera: CameraModelParams,
    lens: DistortionView,
    metres: Real64,
)
    ensures
        estimate_fault(detection, params, camera, lens, metric_board(params, metres)) is None <==> {
            &&& params.fault() is None && camera.fault() is None && lens.coefficients.len() == 0
            &&& camera.image_size matches Some(size) ==> size == detection.image_size
            &&& view_fault(detection.corners@, metric_board(params, metres)) is None
        },
        metric_board(params, metres).inner_cols == params.cols,
        metric_board(params, metres).inner_rows == params.rows,
        metric_board(params, metres).square_size == metres,
{
    law_matrix_holds_the_camera(camera);
}

/// A vector has its figures in order.
pub proof fn law_vectors_keep_their_order(values: Seq<Real64>)
    requires
        values.len() == 3,
    ensures
        vector(values).x == values[0] && vector(values).y == values[1] && vector(values).z
            == values[2],
{
}

/// A path goes on with a slash between its parts, unless one is there; a part from the root stands
/// alone, and a blank part changes nothing.
pub proof fn law_paths_go_on_with_one_slash(path: Seq<char>, part: Seq<char>)
    ensures
        blank(part) ==> path_extended(path, part) == path,
        !blank(part) ==> path_extended(path, part) == path_pushed(path, trimmed(part)),
        path.len() == 0 ==> path_pushed(path, part) == part,
        path.len() > 0 && path.last() != '/' && part.len() > 0 && part[0] != '/' ==> path_pushed(
            path,
            part,
        ) == path + seq!['/'] + part,
        path.len() > 0 && path.last() == '/' && part.len() > 0 && part[0] != '/' ==> path_pushed(
            path,
            part,
        ) == path + part,
        part.len() > 0 && part[0] == '/' ==> path_pushed(path, part) == part,
{
    reveal_strlit("/");
    assert("/"@ =~= seq!['/']);
    if part.len() > 0 {
        assert(part.take(1) =~= seq![part[0]]);
        assert(part.take(1)[0] == part[0]);
        assert("/"@[0] == '/');
    }
}

/// A selected path is made of the root, the directory and the selection, in that order.
pub proof fn law_selected_path_is_in_order(
    config: JsonTree,
    root: Seq<char>,
    directory: Seq<char>,
    selection: Seq<char>,
)
    requires
        config.member("root"@) == Some(JsonTree::Text(root)),
        config.member("directory"@) == Some(JsonTree::Text(directory)),
        config.member("selection"@) == Some(JsonTree::Text(selection)),
    ensures
        selected_path(config) == path_extended(
            path_extended(path_extended(Seq::empty(), root), directory),
            selection,
        ),
{
}

/// A loaded image has the extent and the pixels that were read; it goes out on the image port, then on
/// the preview port and as a file where those are there.
pub proof fn law_loaded_image_goes_out(
    rt: RuntimeView,
    node: Seq<char>,
    width: u32,
    height: u32,
    pixels: Seq<u8>,
    path: Seq<char>,
)
    ensures
        ({
            let frame = local_frame(node, width, height, pixels);
            let image = EffectView::Emit { port: "image"@, packet: PacketView::ImageFrame(frame) };
            let shown = EffectView::Emit { port: "preview"@, packet: PacketView::ImageFrame(frame) };
            &&& frame.width == width && frame.height == height && frame.planes.len() == 1
            &&& frame.planes[0].bytes == pixels && frame.format == ImageFrameFormat::Rgba8
            &&& !rt.accepts("image"@) ==> load_emitted(rt, frame, path, true, true) == (rt, false)
            &&& rt.accepts("image"@) ==> load_emitted(rt, frame, path, false, false).0.log
                == rt.log.push(image) && load_emitted(rt, frame, path, false, false).1
            &&& rt.accepts("image"@) && rt.accepts("preview"@) ==> load_emitted(
                rt,
                frame,
                path,
                true,
                false,
            ).0.log == rt.log.push(image).push(shown)
            &&& rt.accepts("image"@) && rt.accepts("fileRef"@) ==> ({
                let log = load_emitted(rt, frame, path, false, true).0.log;
                log.len() == rt.log.len() + 2 && log.last() is Emit && log.last()->Emit_port
                    == "fileRef"@
            })
        }),
{
}

/// Parameters are what the settings say, part by part, or an error.
pub proof fn law_parameters_are_what_is_set(
    board: CalibrationBoardConfig,
    camera: CameraInitialConfig,
)
    ensures
        board_params(Ok(board)) matches Ok(params) ==> params.cols == board.board_cols && params.rows
            == board.board_rows && params.square_size_mm == board.square_size_mm
            && params.board_kind == board.board_kind && params.fault() is None,
        board_params(Ok(board)) is Ok <==> board.board_cols >= 2 && board.board_rows >= 2
            && board.square_size_mm.finite() && (Real64 { bits: 0 }).below(board.square_size_mm),
        camera_params(Ok(camera)) matches Ok(params) ==> params.fx == camera.fx && params.fy
            == camera.fy && params.cx == camera.cx && params.cy == camera.cy && params.image_size
            == Some(
            CalibrationImageSize { width: camera.image_width, height: camera.image_height },
        ) && params.model == camera.camera_model_kind,
        camera_params(Ok(camera)) is Ok <==> camera.image_width > 0 && camera.image_height > 0
            && camera.fx.finite() && (Real64 { bits: 0 }).below(camera.fx) && camera.fy.finite() && (
        Real64 { bits: 0 }).below(camera.fy) && camera.cx.finite() && camera.cy.finite(),
{
}

/// The parameters of a camera go out before those of its lens, each on its own port.
pub proof fn law_camera_goes_out_before_its_lens(rt: RuntimeView, camera: CameraModelParams)
    ensures
        !rt.accepts("cameraModel"@) ==> camera_sent(rt, camera) == (rt, false),
        rt.accepts("cameraModel"@) && rt.accepts("distortionModel"@) ==> ({
            let (after, sent) = camera_sent(rt, camera);
            let n = rt.log.len() as int;
            &&& sent && after.log.len() == n + 3
            &&& after.log[n] == (EffectView::Emit {
                port: "cameraModel"@,
                packet: PacketView::CameraModelParams(camera),
            })
            &&& after.log[n + 1] is Emit && after.log[n + 1]->Emit_port == "distortionModel"@
            &&& after.log[n + 1]->Emit_packet is DistortionModelParams
        }),
{
}

proof fn lemma_after_last(s: Seq<char>, c: char)
    ensures
        0 <= after_last(s, c) <= s.len(),
        after_last(s, c) > 0 ==> s[after_last(s, c) - 1] == c,
        forall|i: int| after_last(s, c) <= i < s.len() ==> #[trigger] s[i] != c,
    decreases s.len(),
{
    if s.len() > 0 && s.last() != c {
        let init = s.drop_last();
        lemma_after_last(init, c);
        assert(forall|i: int| 0 <= i < init.len() ==> init[i] == s[i]);
        assert forall|i: int| after_last(s, c) <= i < s.len() implies #[trigger] s[i] != c by {
            if i < init.len() {
                assert(init[i] != c);
            }
        }
    }
}

/// What stands behind the last of a character holds none of it and follows one; without one it is the
/// whole.
pub proof fn law_parts_end_behind_the_last_separator(s: Seq<char>, c: char)
    ensures
        0 <= after_last(s, c) <= s.len(),
        after_last(s, c) > 0 ==> s[after_last(s, c) - 1] == c,
        !s.skip(after_last(s, c)).contains(c),
        !s.contains(c) ==> after_last(s, c) == 0,
{
    lemma_after_last(s, c);
    let rest = s.skip(after_last(s, c));
    if rest.contains(c) {
        let i = choose|i: int| 0 <= i < rest.len() && rest[i] == c;
        assert(s[after_last(s, c) + i] == c);
    }
    if after_last(s, c) > 0 {
        assert(s[after_last(s, c) - 1] == c);
    }
}

/// A format is told by its extension.
pub proof fn law_formats_have_their_extensions(extension: Seq<char>)
    ensures
        format_of(extension) == Some(RasterFormat::Png) <==> extension == "png"@,
        format_of(extension) == Some(RasterFormat::Jpeg) <==> extension == "jpg"@ || extension
            == "jpeg"@,
        format_of(extension) is None <==> extension != "png"@ && extension != "jpg"@ && extension
            != "jpeg"@,
{
    reveal_strlit("png");
    reveal_strlit("jpg");
    reveal_strlit("jpeg");
    assert("png"@[0] != "jpg"@[0] && "png"@[0] != "jpeg"@[0]);
}

/// The name of a file holds no slash; its extension stands behind its last dot, which does not begin
/// the name, and holds no dot.
pub proof fn law_extension_stands_behind_the_last_dot(path: Seq<char>)
    ensures
        file_name(path) matches Some(name) ==> name.len() > 0 && !name.contains('/'),
        extension_of(path) matches Some(extension) ==> (file_name(path) matches Some(name) && exists|
            at: int,
        |
            1 <= at < name.len() && #[trigger] name[at] == '.' && extension.len() == name.len() - at
                - 1),
        file_name(path) is None ==> extension_of(path) is None,
    decreases path.len(),
{
    lemma_name(path);
    if file_name(path) is Some {
        let name = file_name(path)->Some_0;
        lemma_after_last(name, '.');
        if extension_of(path) is Some {
            let at = after_last(name, '.') - 1;
            assert(name[at] == '.');
        }
    }
}

proof fn lemma_name(s: Seq<char>)
    ensures
        file_name(s) matches Some(name) ==> name.len() > 0 && !name.contains('/'),
    decreases s.len(),
{
    if s.len() > 0 {
        if s.last() == '/' {
            lemma_name(s.drop_last());
        } else {
            law_parts_end_behind_the_last_separator(s, '/');
            let start = after_last(s, '/');
            if 0 < start < s.len() {
                lemma_name(s.take(start));
            }
            if start == s.len() {
                assert(s[start - 1] == s.last());
            }
        }
    }
}

/// A detection job holds the pixels, the extent and the identity of its frame.
pub proof fn law_detection_job_holds_its_frame(
    job: DetectionJob,
    frame: ImageFrameView,
    pixels: Seq<u8>,
    limit: usize,
)
    requires
        job_of(job, frame, pixels, limit),
    ensures
        job.pixels@ == pixels,
        job.image_size.width == frame.width && job.image_size.height == frame.height,
        job.frame_identity@ == frame.identity,
        job.decoded_byte_limit == limit,
{
}

/// A pose request holds its detection, the identity of its frame, its camera and its board, and no
/// distortion.
pub proof fn law_pose_request_holds_its_inputs(
    request: PoseRequest,
    detection: ChessboardDetection,
    identity: IdentityView,
    camera: CameraModelParams,
    board: BoardSpec,
    i: int,
)
    requires
        request.is_for(detection, identity, camera, board),
    ensures
        *request.detection == detection,
        request.frame_identity@ == identity,
        request.board == board,
        request.intrinsics.camera_matrix@[0] == camera.fx && request.intrinsics.camera_matrix@[4]
            == camera.fy,
        request.intrinsics.camera_matrix@[2] == camera.cx && request.intrinsics.camera_matrix@[5]
            == camera.cy,
        request.intrinsics.distortion_coefficients@.len() == 5,
        0 <= i < 5 ==> request.intrinsics.distortion_coefficients@[i].bits == 0,
{
}

/// A compacted image has the rows of the image without what stands behind them.
pub proof fn law_compacted_image_has_its_rows(image: RgbaImage, r: int, c: int)
    requires
        compacted(image) is Ok,
        0 <= r < image.height,
        0 <= c < image.width * 4,
    ensures
        compacted(image)->Ok_0.len() == image.width * 4 * image.height,
        compacted(image)->Ok_0[r * (image.width * 4) + c] == image.pixels@[r * image.stride + c],
{
    law_rows_are_read_where_they_begin(
        image.pixels@,
        image.stride as nat,
        image.height as nat,
        (image.width * 4) as nat,
        r,
        c,
    );
    let w = image.width as int;
    let h = image.height as int;
    assert(h * (w * 4) == w * 4 * h) by (nonlinear_arith);
}

/// What is drawn over a frame says which frame, how large it is, which board, and where its corners
/// lie, each under its own name.
pub proof fn law_overlay_says_its_frame(
    identity: IdentityView,
    detection: ChessboardDetection,
    board: BoardSpec,
    i: int,
)
    ensures
        ({
            let tree = found_overlay(identity, detection, board)->Object_0;
            &&& tree.len() == 11
            &&& tree[2] == ("found"@, JsonTree::Bool(true))
            &&& tree[5] == ("frameSequence"@, JsonTree::Uint(identity.frame_sequence))
            &&& tree[7].0 == "imageSize"@ && tree[7].1->Object_0[0] == (
                "width"@,
                JsonTree::Uint(detection.image_size.width as u64),
            ) && tree[7].1->Object_0[1] == (
                "height"@,
                JsonTree::Uint(detection.image_size.height as u64),
            )
            &&& tree[8].0 == "board"@ && tree[8].1->Object_0[0] == (
                "cols"@,
                JsonTree::Uint(board.inner_cols as u64),
            ) && tree[8].1->Object_0[1] == ("rows"@, JsonTree::Uint(board.inner_rows as u64))
                && tree[8].1->Object_0[2] == ("squareSizeMm"@, JsonTree::Real(board.square_size))
            &&& tree[9].0 == "corners"@ && tree[9].1->Array_0.len() == detection.corners@.len()
            &&& 0 <= i < detection.corners@.len() && detection.corners@[i].x.finite() ==> tree[9].1->Array_0[i]->Object_0[0]
                == ("x"@, JsonTree::Real(crate::ieee::widened(detection.corners@[i].x)))
            &&& 0 <= i < detection.corners@.len() && detection.corners@[i].y.finite() ==> tree[9].1->Array_0[i]->Object_0[1]
                == ("y"@, JsonTree::Real(crate::ieee::widened(detection.corners@[i].y)))
            &&& tree[10].0 == "outline"@
        }),
{
}

/// A path that ends in a name has that name: whatever stands before its last slash, and not where the
/// name is a dot or two.
pub proof fn law_names_end_their_path(directory: Seq<char>, name: Seq<char>)
    requires
        name.len() > 0,
        !name.contains('/'),
        name != "."@,
        name != ".."@,
    ensures
        file_name(directory + seq!['/'] + name) == Some(name),
        file_name(name) == Some(name),
{
    let path = directory + seq!['/'] + name;
    law_parts_end_behind_the_last_separator(path, '/');
    law_parts_end_behind_the_last_separator(name, '/');
    lemma_after_last(path, '/');
    let at = after_last(path, '/');
    let n = directory.len() as int;
    assert(path.last() == name.last());
    assert(name[name.len() - 1] == name.last());
    assert(path[n] == '/');
    if at > n + 1 {
        assert(path[at - 1] == name[at - 1 - n - 1]);
        assert(name.contains('/'));
    }
    assert(at == n + 1) by {
        if at <= n {
            assert(path[n] != '/');
        }
    }
    assert(path.skip(at) =~= name);
    assert(name.skip(0) =~= name);
}

/// A name with a dot that does not begin it has an extension: what stands behind its last dot, in
/// lower case.
pub proof fn law_dotted_names_have_an_extension(path: Seq<char>, stem: Seq<char>, extension: Seq<char>)
    requires
        file_name(path) == Some(stem + seq!['.'] + extension),
        stem.len() > 0,
        !extension.contains('.'),
    ensures
        extension_of(path) == Some(ascii_lowered(extension)),
{
    let name = stem + seq!['.'] + extension;
    lemma_after_last(name, '.');
    let at = after_last(name, '.');
    let n = stem.len() as int;
    assert(name[n] == '.');
    assert(at == n + 1) by {
        if at <= n {
            assert(name[n] != '.');
        }
        if at > n + 1 {
            assert(name[at - 1] == extension[at - 1 - n - 1]);
            assert(extension.contains('.'));
        }
    }
    assert(name.skip(at) =~= extension);
}

/// Pixels can be read exactly where there is a plane of them and each row ends within it, by the bytes
/// that a pixel of the format has; packed pixels are taken as they are.
pub proof fn law_readable_pixels(frame: ImageFrameView)
    requires
        frame.height > 0,
        frame.planes.len() > 0 && frame.planes[0].bytes.len() <= usize::MAX,
        frame.width * frame.height * 4 <= usize::MAX,
    ensures
        frame.format == ImageFrameFormat::Gray8 ==> (rgba_of(frame) is Ok <==> (frame.height - 1)
            * frame.planes[0].stride_bytes + frame.width <= frame.planes[0].bytes.len()),
        frame.format == ImageFrameFormat::Gray16Le ==> (rgba_of(frame) is Ok <==> (frame.height - 1)
            * frame.planes[0].stride_bytes + frame.width * 2 <= frame.planes[0].bytes.len()),
        frame.format == ImageFrameFormat::Rgba8 ==> (rgba_of(frame) is Ok <==> frame.width * 4
            == frame.planes[0].stride_bytes || (frame.height - 1) * frame.planes[0].stride_bytes
            + frame.width * 4 <= frame.planes[0].bytes.len()),
{
    let bytes = frame.planes[0].bytes;
    let stride = frame.planes[0].stride_bytes as nat;
    let h = frame.height as nat;
    let w = frame.width as int;
    law_rows_end_within_the_plane(bytes, stride, h, w as nat);
    law_rows_end_within_the_plane(bytes, stride, h, (w * 2) as nat);
    law_rows_end_within_the_plane(bytes, stride, h, (w * 4) as nat);
    assert(w * h <= w * h * 4 && w * 2 * h <= w * h * 4 && w * 4 * h == w * h * 4 && w * 4 <= w * h
        * 4 && w * 2 <= w * h * 4) by (nonlinear_arith)
        requires
            w >= 0,
            h >= 1,
    ;
    if packed_rows(bytes, stride, h, w as nat) is Ok {
        crate::engine::nodes::raster::law_packed_length(bytes, stride, h, w as nat);
        assert(h * w == w * h) by (nonlinear_arith);
    }
    if packed_rows(bytes, stride, h, (w * 2) as nat) is Ok {
        crate::engine::nodes::raster::law_packed_length(bytes, stride, h, (w * 2) as nat);
        assert(h * (w * 2) == w * 2 * h) by (nonlinear_arith);
        assert(upper_bytes(packed_rows(bytes, stride, h, (w * 2) as nat)->Ok_0).len() * 2 <= w * 2
            * h);
        assert(w * 2 * h * 2 == w * h * 4) by (nonlinear_arith);
    }
}

/// What is drawn over a frame tells its identity: its number and its times, each under its own name.
pub proof fn law_overlay_tells_the_times_of_its_frame(
    identity: IdentityView,
    detection: ChessboardDetection,
    board: BoardSpec,
)
    ensures
        ({
            let tree = found_overlay(identity, detection, board)->Object_0;
            let frame = tree[6].1->Object_0;
            &&& tree[6].0 == "frameIdentity"@
            &&& frame.len() == 3
            &&& frame[0] == ("frameSequence"@, JsonTree::Uint(identity.frame_sequence))
            &&& frame[1] == ("hostMonotonicTimeNs"@, JsonTree::Uint(identity.host_monotonic_time_ns))
            &&& frame[2].0 == "deviceTimestampNs"@
            &&& identity.device_timestamp_ns matches Some(t) ==> frame[2].1 == JsonTree::Uint(t)
            &&& identity.device_timestamp_ns is None ==> frame[2].1 == JsonTree::Null
        }),
{
}

} // verus!
