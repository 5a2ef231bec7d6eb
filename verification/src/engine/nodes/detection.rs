//! The chessboard detector: a frame becomes packed RGBA pixels, which are encoded and searched
//! outside; what was found goes on as a detection and an overlay.
use crate::asset::share;
use crate::engine::node::{channel_full, NodeAction, NodeError, NodeErrorView};
use crate::engine::nodes::calibration_solver::{configured_board, read_board};
use crate::engine::nodes::config::failed;
use crate::engine::nodes::frame_text::json_object;
use crate::engine::nodes::raster::{pack_rows, packed_rows, RowFault};
use crate::engine::packet::{
    copy_bytes, DataPacket, DetectionPacket, IdentityView, ImageFrame, ImageFrameFormat,
    ImageFrameIdentity, ImageFrameView, ImagePlane, PacketView, PlaneView,
};
use crate::engine::runtime::{require_service, service_missing, NodeRuntime, RuntimeView};
use crate::engine::spec::{has_output_port, has_port, NodeRuntimeState, NodeSpec};
use crate::ieee::{widened, Real32};
use crate::json::{lemma_array_tree, member_trees, trees, JsonMember, JsonTree, JsonValue};
use crate::model::{
    BoardSpec, CalibrationImageSize, CalibrationPoint, ChessboardDetection,
    ChessboardDetectionOutcome,
};
use crate::text::{concat3, same_text};
use std::sync::Arc;
use vstd::prelude::*;

verus! {

/// Bytes that one decoded pixel takes at most: three of colour and one of grey at the same time.
pub const DECODED_BYTES_PER_PIXEL: u64 = 4;

/// The error of dimensions that no memory can hold.
pub open spec fn too_large() -> NodeErrorView {
    NodeErrorView::Execution("frame dimensions overflow"@)
}

/// Rows without their padding.
pub open spec fn rows_of(plane: PlaneView, height: u32, row_bytes: int) -> Result<
    Seq<u8>,
    NodeErrorView,
> {
    if row_bytes * height > usize::MAX {
        Err(too_large())
    } else {
        match packed_rows(plane.bytes, plane.stride_bytes as nat, height as nat, row_bytes as nat) {
            Ok(bytes) => Ok(bytes),
            Err(RowFault::Overflow) => Err(NodeErrorView::Execution("frame stride overflow"@)),
            Err(RowFault::Layout) => Err(
                NodeErrorView::Execution("frame plane layout is inconsistent"@),
            ),
        }
    }
}

/// Grey values as opaque RGBA pixels.
pub open spec fn spread(values: Seq<u8>) -> Seq<u8> {
    Seq::new(
        4 * values.len(),
        |i: int|
            if i % 4 == 3 {
                255
            } else {
                values[i / 4]
            },
    )
}

/// The upper bytes of little-endian pairs.
pub open spec fn upper_bytes(values: Seq<u8>) -> Seq<u8> {
    Seq::new(values.len() / 2, |i: int| values[2 * i + 1])
}

/// The pixels of a frame as packed RGBA, or why there are none.
pub open spec fn rgba_of(frame: ImageFrameView) -> Result<Seq<u8>, NodeErrorView> {
    match frame.format {
        ImageFrameFormat::Rgba8 => if frame.planes.len() == 0 {
            Err(NodeErrorView::Precondition("RGBA8 image is missing its pixel plane"@))
        } else if frame.width * 4 > usize::MAX {
            Err(too_large())
        } else if frame.planes[0].stride_bytes == frame.width * 4 {
            Ok(frame.planes[0].bytes)
        } else {
            rows_of(frame.planes[0], frame.height, frame.width * 4)
        },
        ImageFrameFormat::Gray8 => if frame.planes.len() == 0 {
            Err(NodeErrorView::Precondition("Gray8 image is missing its pixel plane"@))
        } else {
            match rows_of(frame.planes[0], frame.height, frame.width as int) {
                Err(error) => Err(error),
                Ok(values) => if values.len() * 4 > usize::MAX {
                    Err(too_large())
                } else {
                    Ok(spread(values))
                },
            }
        },
        ImageFrameFormat::Gray16Le => if frame.planes.len() == 0 {
            Err(NodeErrorView::Precondition("Gray16Le image is missing its pixel plane"@))
        } else if frame.width * 2 > usize::MAX {
            Err(too_large())
        } else {
            match rows_of(frame.planes[0], frame.height, frame.width * 2) {
                Err(error) => Err(error),
                Ok(values) => if values.len() * 2 > usize::MAX {
                    Err(too_large())
                } else {
                    Ok(spread(upper_bytes(values)))
                },
            }
        },
        ImageFrameFormat::Nv12 => Err(
            NodeErrorView::Precondition(
                "chessboardDetector does not accept NV12; use Image Convert/luma first"@,
            ),
        ),
        ImageFrameFormat::BayerRaw => Err(
            NodeErrorView::Precondition(
                "chessboardDetector does not accept BayerRaw; use Demosaic explicitly"@,
            ),
        ),
    }
}

fn compact_rows(plane: &ImagePlane, height: u32, row_bytes: usize) -> (r: Result<
    Vec<u8>,
    NodeError,
>)
    ensures
        match rows_of(plane@, height, row_bytes as int) {
            Ok(bytes) => r is Ok && r->Ok_0@ == bytes,
            Err(error) => failed(r, error),
        },
{
    match row_bytes.checked_mul(height as usize) {
        Some(_) => {},
        None => {
            return Err(NodeError::execution("frame dimensions overflow"));
        },
    }
    match pack_rows(&plane.bytes, plane.stride_bytes as usize, height, row_bytes) {
        Ok(bytes) => Ok(bytes),
        Err(RowFault::Overflow) => Err(NodeError::execution("frame stride overflow")),
        Err(RowFault::Layout) => Err(NodeError::execution("frame plane layout is inconsistent")),
    }
}

fn spread_grey(values: &Vec<u8>) -> (r: Vec<u8>)
    ensures
        r@ == spread(values@),
{
    let mut r: Vec<u8> = Vec::new();
    let mut i: usize = 0;
    while i < values.len()
        invariant
            i <= values@.len(),
            r@.len() == 4 * i,
            forall|k: int|
                0 <= k < 4 * i ==> #[trigger] r@[k] == (if k % 4 == 3 {
                    255u8
                } else {
                    values@[k / 4]
                }),
        decreases values@.len() - i,
    {
        let value: u8 = values[i];
        r.push(value);
        r.push(value);
        r.push(value);
        r.push(255);
        i = i + 1;
    }
    proof {
        assert(r@ =~= spread(values@));
    }
    r
}

fn take_upper_bytes(values: &Vec<u8>) -> (r: Vec<u8>)
    ensures
        r@ == upper_bytes(values@),
{
    let mut r: Vec<u8> = Vec::new();
    let count: usize = values.len() / 2;
    let mut i: usize = 0;
    while i < count
        invariant
            i <= count,
            count == values@.len() / 2,
            values@.len() <= usize::MAX,
            r@.len() == i,
            forall|k: int| 0 <= k < i ==> #[trigger] r@[k] == values@[2 * k + 1],
        decreases count - i,
    {
        r.push(values[2 * i + 1]);
        i = i + 1;
    }
    proof {
        assert(r@ =~= upper_bytes(values@));
    }
    r
}

fn compact_plane_rgba(frame: &ImageFrame) -> (r: Result<Vec<u8>, NodeError>)
    requires
        frame.format is Rgba8,
    ensures
        match rgba_of(frame@) {
            Ok(bytes) => r is Ok && r->Ok_0@ == bytes,
            Err(error) => failed(r, error),
        },
{
    if frame.planes.len() == 0 {
        return Err(NodeError::precondition("RGBA8 image is missing its pixel plane"));
    }
    proof {
        assert(frame@.planes[0] == frame.planes@[0]@);
    }
    let row_bytes: usize = match (frame.width as usize).checked_mul(4) {
        Some(row_bytes) => row_bytes,
        None => {
            return Err(NodeError::execution("frame dimensions overflow"));
        },
    };
    let plane: &ImagePlane = &frame.planes[0];
    if plane.stride_bytes as usize == row_bytes {
        proof {
            assert(plane.bytes@.subrange(0, plane.bytes@.len() as int) =~= plane.bytes@);
        }
        return Ok(copy_bytes(&plane.bytes, 0, plane.bytes.len()));
    }
    compact_rows(plane, frame.height, row_bytes)
}

fn gray8_to_rgba(frame: &ImageFrame) -> (r: Result<Vec<u8>, NodeError>)
    requires
        frame.format is Gray8,
    ensures
        match rgba_of(frame@) {
            Ok(bytes) => r is Ok && r->Ok_0@ == bytes,
            Err(error) => failed(r, error),
        },
{
    if frame.planes.len() == 0 {
        return Err(NodeError::precondition("Gray8 image is missing its pixel plane"));
    }
    proof {
        assert(frame@.planes[0] == frame.planes@[0]@);
    }
    let values: Vec<u8> = match compact_rows(&frame.planes[0], frame.height, frame.width as usize) {
        Ok(values) => values,
        Err(error) => {
            return Err(error);
        },
    };
    match values.len().checked_mul(4) {
        Some(_) => Ok(spread_grey(&values)),
        None => Err(NodeError::execution("frame dimensions overflow")),
    }
}

fn gray16_to_rgba(frame: &ImageFrame) -> (r: Result<Vec<u8>, NodeError>)
    requires
        frame.format is Gray16Le,
    ensures
        match rgba_of(frame@) {
            Ok(bytes) => r is Ok && r->Ok_0@ == bytes,
            Err(error) => failed(r, error),
        },
{
    if frame.planes.len() == 0 {
        return Err(NodeError::precondition("Gray16Le image is missing its pixel plane"));
    }
    proof {
        assert(frame@.planes[0] == frame.planes@[0]@);
    }
    let row_bytes: usize = match (frame.width as usize).checked_mul(2) {
        Some(row_bytes) => row_bytes,
        None => {
            return Err(NodeError::execution("frame dimensions overflow"));
        },
    };
    let values: Vec<u8> = match compact_rows(&frame.planes[0], frame.height, row_bytes) {
        Ok(values) => values,
        Err(error) => {
            return Err(error);
        },
    };
    match values.len().checked_mul(2) {
        Some(_) => Ok(spread_grey(&take_upper_bytes(&values))),
        None => Err(NodeError::execution("frame dimensions overflow")),
    }
}

/// Converts a frame to packed RGBA pixels.
pub fn frame_to_rgba(frame: &ImageFrame) -> (r: Result<Vec<u8>, NodeError>)
    ensures
        match rgba_of(frame@) {
            Ok(bytes) => r is Ok && r->Ok_0@ == bytes,
            Err(error) => failed(r, error),
        },
{
    match frame.format {
        ImageFrameFormat::Rgba8 => compact_plane_rgba(frame),
        ImageFrameFormat::Gray8 => gray8_to_rgba(frame),
        ImageFrameFormat::Gray16Le => gray16_to_rgba(frame),
        ImageFrameFormat::Nv12 => Err(
            NodeError::precondition(
                "chessboardDetector does not accept NV12; use Image Convert/luma first",
            ),
        ),
        ImageFrameFormat::BayerRaw => Err(
            NodeError::precondition(
                "chessboardDetector does not accept BayerRaw; use Demosaic explicitly",
            ),
        ),
    }
}

/// The bytes that a decoded image of a size may take, or why there is no such number.
pub open spec fn byte_limit(size: CalibrationImageSize) -> Result<usize, NodeErrorView> {
    let bytes = size.width * size.height * DECODED_BYTES_PER_PIXEL;
    if bytes > u64::MAX {
        Err(NodeErrorView::Execution("image dimensions overflow byte budget"@))
    } else if bytes > usize::MAX {
        Err(NodeErrorView::Execution("image byte budget exceeds usize"@))
    } else {
        Ok(bytes as usize)
    }
}

/// The number of bytes that a decoded image of a size may take.
pub fn decoded_byte_limit(size: CalibrationImageSize) -> (r: Result<usize, NodeError>)
    ensures
        match byte_limit(size) {
            Ok(limit) => r == Ok::<usize, NodeError>(limit),
            Err(error) => failed(r, error),
        },
{
    proof {
        assert(size.width * size.height <= 0xffff_ffff * 0xffff_ffff) by (nonlinear_arith)
            requires
                size.width <= 0xffff_ffff,
                size.height <= 0xffff_ffff,
        ;
    }
    let pixels: u64 = size.width as u64 * size.height as u64;
    let bytes: u64 = match pixels.checked_mul(DECODED_BYTES_PER_PIXEL) {
        Some(bytes) => bytes,
        None => {
            return Err(NodeError::execution("image dimensions overflow byte budget"));
        },
    };
    if bytes > usize::MAX as u64 {
        return Err(NodeError::execution("image byte budget exceeds usize"));
    }
    Ok(bytes as usize)
}

/// Pixels that are to be encoded and searched.
#[derive(Debug)]
pub struct DetectionJob {
    pub pixels: Vec<u8>,
    pub image_size: CalibrationImageSize,
    pub decoded_byte_limit: usize,
    pub frame_identity: ImageFrameIdentity,
}

/// A number as a document; one that is not finite is null.
pub open spec fn number_tree(x: Real32) -> JsonTree {
    if x.finite() {
        JsonTree::Real(widened(x))
    } else {
        JsonTree::Null
    }
}

fn number_json(x: Real32) -> (r: JsonValue)
    ensures
        r@ == number_tree(x),
{
    if x.is_finite() {
        JsonValue::Real(x.widen())
    } else {
        JsonValue::Null
    }
}

/// A corner as a document.
pub open spec fn corner_tree(corner: CalibrationPoint) -> JsonTree {
    JsonTree::Object(seq![("x"@, number_tree(corner.x)), ("y"@, number_tree(corner.y))])
}

fn corner_json(corner: CalibrationPoint) -> (r: JsonValue)
    ensures
        r@ == corner_tree(corner),
{
    let mut members: Vec<JsonMember> = Vec::new();
    members.push(JsonMember::new("x", number_json(corner.x)));
    members.push(JsonMember::new("y", number_json(corner.y)));
    proof {
        assert(member_trees(members@) =~= corner_tree(corner)->Object_0);
    }
    json_object(members)
}

/// Corners as a document.
pub open spec fn corners_tree(corners: Seq<CalibrationPoint>) -> JsonTree {
    JsonTree::Array(corners.map_values(|corner: CalibrationPoint| corner_tree(corner)))
}

fn corners_json(corners: &Vec<CalibrationPoint>) -> (r: JsonValue)
    ensures
        r@ == corners_tree(corners@),
{
    let mut items: Vec<JsonValue> = Vec::new();
    let mut i: usize = 0;
    while i < corners.len()
        invariant
            i <= corners@.len(),
            items@.len() == i,
            forall|j: int| 0 <= j < i ==> (#[trigger] items@[j])@ == corner_tree(corners@[j]),
        decreases corners@.len() - i,
    {
        items.push(corner_json(corners[i]));
        i = i + 1;
    }
    proof {
        lemma_array_tree(items);
        assert(trees(items@) =~= corners@.map_values(
            |corner: CalibrationPoint| corner_tree(corner),
        ));
    }
    JsonValue::Array(items)
}

/// The four outer corners of a board in the order of its outline; nothing where corners are missing.
pub open spec fn outline(corners: Seq<CalibrationPoint>, board: BoardSpec) -> Option<
    Seq<CalibrationPoint>,
> {
    let cols = board.inner_cols as int;
    let rows = board.inner_rows as int;
    if cols == 0 || rows == 0 || corners.len() < cols * rows {
        None
    } else {
        Some(
            seq![
                corners[0],
                corners[cols - 1],
                corners[(rows - 1) * cols + cols - 1],
                corners[(rows - 1) * cols],
            ],
        )
    }
}

fn chessboard_outline(corners: &Vec<CalibrationPoint>, board: BoardSpec) -> (r: JsonValue)
    ensures
        r@ == (match outline(corners@, board) {
            Some(points) => corners_tree(points),
            None => JsonTree::Null,
        }),
{
    let cols: usize = board.inner_cols as usize;
    let rows: usize = board.inner_rows as usize;
    if cols == 0 || rows == 0 {
        return JsonValue::Null;
    }
    proof {
        assert(cols * rows <= 0xffff * 0xffff && (rows - 1) * cols + cols == cols * rows && 0 <= (
        rows - 1) * cols) by (nonlinear_arith)
            requires
                1 <= cols <= 0xffff,
                1 <= rows <= 0xffff,
        ;
        assert(cols <= cols * rows) by (nonlinear_arith)
            requires
                1 <= cols,
                1 <= rows,
        ;
    }
    if corners.len() < cols * rows {
        return JsonValue::Null;
    }
    let last: usize = (rows - 1) * cols;
    let mut points: Vec<CalibrationPoint> = Vec::new();
    points.push(corners[0]);
    points.push(corners[cols - 1]);
    points.push(corners[last + cols - 1]);
    points.push(corners[last]);
    proof {
        assert(points@ =~= outline(corners@, board)->Some_0);
    }
    corners_json(&points)
}

/// What an overlay says of its frame.
pub open spec fn frame_tree(identity: IdentityView) -> JsonTree {
    JsonTree::Object(
        seq![
            ("frameSequence"@, JsonTree::Uint(identity.frame_sequence)),
            ("hostMonotonicTimeNs"@, JsonTree::Uint(identity.host_monotonic_time_ns)),
            (
                "deviceTimestampNs"@,
                match identity.device_timestamp_ns {
                    Some(n) => JsonTree::Uint(n),
                    None => JsonTree::Null,
                },
            ),
        ],
    )
}

fn frame_identity_overlay(identity: &ImageFrameIdentity) -> (r: JsonValue)
    ensures
        r@ == frame_tree(identity@),
{
    let mut members: Vec<JsonMember> = Vec::new();
    members.push(JsonMember::new("frameSequence", JsonValue::Uint(identity.frame_sequence)));
    members.push(
        JsonMember::new("hostMonotonicTimeNs", JsonValue::Uint(identity.host_monotonic_time_ns)),
    );
    members.push(
        JsonMember::new(
            "deviceTimestampNs",
            JsonValue::optional_uint(identity.device_timestamp_ns),
        ),
    );
    proof {
        assert(member_trees(members@) =~= frame_tree(identity@)->Object_0);
    }
    json_object(members)
}

/// The size of an image as a document.
pub open spec fn size_tree(size: CalibrationImageSize) -> JsonTree {
    JsonTree::Object(
        seq![
            ("width"@, JsonTree::Uint(size.width as u64)),
            ("height"@, JsonTree::Uint(size.height as u64)),
        ],
    )
}

fn size_json(size: CalibrationImageSize) -> (r: JsonValue)
    ensures
        r@ == size_tree(size),
{
    let mut members: Vec<JsonMember> = Vec::new();
    members.push(JsonMember::new("width", JsonValue::Uint(size.width as u64)));
    members.push(JsonMember::new("height", JsonValue::Uint(size.height as u64)));
    proof {
        assert(member_trees(members@) =~= size_tree(size)->Object_0);
    }
    json_object(members)
}

/// A board as a document.
pub open spec fn board_tree(board: BoardSpec) -> JsonTree {
    JsonTree::Object(
        seq![
            ("cols"@, JsonTree::Uint(board.inner_cols as u64)),
            ("rows"@, JsonTree::Uint(board.inner_rows as u64)),
            ("squareSizeMm"@, JsonTree::Real(board.square_size)),
        ],
    )
}

fn board_json(board: BoardSpec) -> (r: JsonValue)
    ensures
        r@ == board_tree(board),
{
    let mut members: Vec<JsonMember> = Vec::new();
    members.push(JsonMember::new("cols", JsonValue::Uint(board.inner_cols as u64)));
    members.push(JsonMember::new("rows", JsonValue::Uint(board.inner_rows as u64)));
    members.push(JsonMember::new("squareSizeMm", JsonValue::Real(board.square_size)));
    proof {
        assert(member_trees(members@) =~= board_tree(board)->Object_0);
    }
    json_object(members)
}

/// The overlay of a board that was found, in pixels of the original image.
pub open spec fn found_overlay(
    identity: IdentityView,
    detection: ChessboardDetection,
    board: BoardSpec,
) -> JsonTree {
    JsonTree::Object(
        seq![
            ("kind"@, JsonTree::Text("calib.chessboard.overlay.v1"@)),
            ("schema"@, JsonTree::Text("viewer.layer.overlay.v1"@)),
            ("found"@, JsonTree::Bool(true)),
            ("status"@, JsonTree::Text("found"@)),
            ("coordinateSpace"@, JsonTree::Text("image_pixel"@)),
            ("frameSequence"@, JsonTree::Uint(identity.frame_sequence)),
            ("frameIdentity"@, frame_tree(identity)),
            ("imageSize"@, size_tree(detection.image_size)),
            ("board"@, board_tree(board)),
            ("corners"@, corners_tree(detection.corners@)),
            (
                "outline"@,
                match outline(detection.corners@, board) {
                    Some(points) => corners_tree(points),
                    None => JsonTree::Null,
                },
            ),
        ],
    )
}

fn found_overlay_json(
    identity: &ImageFrameIdentity,
    detection: &ChessboardDetection,
    board: BoardSpec,
) -> (r: JsonValue)
    ensures
        r@ == found_overlay(identity@, *detection, board),
{
    let mut members: Vec<JsonMember> = Vec::new();
    members.push(JsonMember::new("kind", JsonValue::string("calib.chessboard.overlay.v1")));
    members.push(JsonMember::new("schema", JsonValue::string("viewer.layer.overlay.v1")));
    members.push(JsonMember::new("found", JsonValue::Bool(true)));
    members.push(JsonMember::new("status", JsonValue::string("found")));
    members.push(JsonMember::new("coordinateSpace", JsonValue::string("image_pixel")));
    members.push(JsonMember::new("frameSequence", JsonValue::Uint(identity.frame_sequence)));
    members.push(JsonMember::new("frameIdentity", frame_identity_overlay(identity)));
    members.push(JsonMember::new("imageSize", size_json(detection.image_size)));
    members.push(JsonMember::new("board", board_json(board)));
    members.push(JsonMember::new("corners", corners_json(&detection.corners)));
    members.push(JsonMember::new("outline", chessboard_outline(&detection.corners, board)));
    proof {
        assert(member_trees(members@) =~= found_overlay(
            identity@,
            *detection,
            board,
        )->Object_0);
    }
    json_object(members)
}

pub struct ChessboardDetectorFactory;

impl ChessboardDetectorFactory {
    pub fn kind(&self) -> (r: &'static str)
        ensures
            r@ == "chessboardDetector"@,
    {
        "chessboardDetector"
    }

    pub fn instantiate(&self, spec: NodeSpec) -> (r: ChessboardDetectorNode)
        ensures
            r.spec == spec,
    {
        ChessboardDetectorNode { spec }
    }
}

/// Searches frames for a chessboard.
pub struct ChessboardDetectorNode {
    pub spec: NodeSpec,
}

/// What comes of a frame before it is searched: a job, nothing for an empty frame, or an error.
pub open spec fn detection_begun(frame: ImageFrameView, rt: RuntimeView) -> Result<
    Option<(Seq<u8>, usize)>,
    NodeErrorView,
> {
    if frame.width == 0 || frame.height == 0 {
        Ok(None)
    } else {
        let size = CalibrationImageSize { width: frame.width, height: frame.height };
        match rgba_of(frame) {
            Err(error) => Err(error),
            Ok(pixels) => if pixels.len() == 0 {
                Ok(None)
            } else if !rt.services.image_codec {
                Err(service_missing("image_codec"@))
            } else if !rt.services.calibration {
                Err(service_missing("calibration"@))
            } else {
                match byte_limit(size) {
                    Err(error) => Err(error),
                    Ok(limit) => if pixels.len() != limit {
                        Err(
                            NodeErrorView::Execution(
                                "RGBA8 pixels do not match the frame dimensions"@,
                            ),
                        )
                    } else {
                        Ok(Some((pixels, limit)))
                    },
                }
            },
        }
    }
}

/// The frame that a detector takes from a packet on a port.
pub open spec fn detector_frame(port: Seq<char>, packet: PacketView) -> Option<ImageFrameView> {
    match packet {
        PacketView::ImageFrame(frame) => if port == "image"@ || port == "frames"@ {
            Some(frame)
        } else {
            None
        },
        PacketView::VideoFrame(frame) => if port == "frames"@ {
            Some(ImageFrame::of_video(frame))
        } else {
            None
        },
        _ => None,
    }
}

/// Whether a job is the one of a frame.
pub open spec fn job_of(job: DetectionJob, frame: ImageFrameView, pixels: Seq<u8>, limit: usize) -> bool {
    &&& job.pixels@ == pixels
    &&& job.image_size == (CalibrationImageSize { width: frame.width, height: frame.height })
    &&& job.decoded_byte_limit == limit
    &&& job.frame_identity@ == frame.identity
}

/// What a board that was found sends out; the flag tells whether all found room.
pub open spec fn found_sent(
    node: ChessboardDetectorNode,
    identity: IdentityView,
    detection: ChessboardDetection,
    board: BoardSpec,
    rt: RuntimeView,
) -> (RuntimeView, bool) {
    if !rt.accepts("detection"@) {
        (rt, false)
    } else {
        let first = rt.emitted("detection"@, PacketView::Detection { detection, identity });
        if !has_port(node.spec@.outputs, "overlay"@) {
            (first.reported(NodeRuntimeState::Idle, "detected"@), true)
        } else if !rt.accepts("overlay"@) {
            (first, false)
        } else {
            (
                first.emitted(
                    "overlay"@,
                    PacketView::Json(found_overlay(identity, detection, board)),
                ).reported(NodeRuntimeState::Idle, "detected"@),
                true,
            )
        }
    }
}

impl ChessboardDetectorNode {
    pub fn on_start(&mut self, rt: &mut NodeRuntime) -> (r: Result<(), NodeError>)
        ensures
            r is Ok,
            *final(self) == *old(self),
            final(rt)@ == old(rt)@.reported(NodeRuntimeState::Ready, "waiting for frames"@),
    {
        rt.report_state(NodeRuntimeState::Ready, "waiting for frames");
        Ok(())
    }

    /// Begins to search a frame; an empty frame only leaves a note, before any service is asked for.
    pub fn on_input(&mut self, port: &str, packet: DataPacket, rt: &mut NodeRuntime) -> (r: Result<
        Option<DetectionJob>,
        NodeError,
    >)
        ensures
            *final(self) == *old(self),
            match detector_frame(port@, packet@) {
                None => r == Ok::<Option<DetectionJob>, NodeError>(None) && final(rt)@ == old(rt)@,
                Some(frame) => match detection_begun(frame, old(rt)@) {
                    Err(error) => failed(r, error) && final(rt)@ == old(rt)@,
                    Ok(None) => r == Ok::<Option<DetectionJob>, NodeError>(None) && final(rt)@
                        == old(rt)@.noted("skipped empty or malformed frame"@),
                    Ok(Some((pixels, limit))) => r is Ok && r->Ok_0 is Some && job_of(
                        r->Ok_0->Some_0,
                        frame,
                        pixels,
                        limit,
                    ) && final(rt)@ == old(rt)@,
                },
            },
    {
        match packet {
            DataPacket::ImageFrame(frame) => {
                if same_text(port, "image") || same_text(port, "frames") {
                    self.detect(&frame, rt)
                } else {
                    Ok(None)
                }
            },
            DataPacket::VideoFrame(frame) => {
                if same_text(port, "frames") {
                    self.detect(&ImageFrame::from_video(&frame), rt)
                } else {
                    Ok(None)
                }
            },
            _ => Ok(None),
        }
    }

    fn detect(&self, frame: &ImageFrame, rt: &mut NodeRuntime) -> (r: Result<
        Option<DetectionJob>,
        NodeError,
    >)
        ensures
            match detection_begun(frame@, old(rt)@) {
                Err(error) => failed(r, error) && final(rt)@ == old(rt)@,
                Ok(None) => r == Ok::<Option<DetectionJob>, NodeError>(None) && final(rt)@ == old(rt)@.noted("skipped empty or malformed frame"@),
                Ok(Some((pixels, limit))) => r is Ok && r->Ok_0 is Some && job_of(
                    r->Ok_0->Some_0,
                    frame@,
                    pixels,
                    limit,
                ) && final(rt)@ == old(rt)@,
            },
    {
        if frame.width == 0 || frame.height == 0 {
            rt.report_event("skipped empty or malformed frame");
            return Ok(None);
        }
        let pixels: Vec<u8> = match frame_to_rgba(frame) {
            Ok(pixels) => pixels,
            Err(error) => {
                return Err(error);
            },
        };
        if pixels.len() == 0 {
            rt.report_event("skipped empty or malformed frame");
            return Ok(None);
        }
        match require_service(rt.services.image_codec, "image_codec") {
            Ok(()) => {},
            Err(error) => {
                return Err(error);
            },
        }
        match require_service(rt.services.calibration, "calibration") {
            Ok(()) => {},
            Err(error) => {
                return Err(error);
            },
        }
        let image_size: CalibrationImageSize = match CalibrationImageSize::new(
            frame.width,
            frame.height,
        ) {
            Ok(size) => size,
            Err(error) => {
                return Err(NodeError::Config(error.describe()));
            },
        };
        let decoded_byte_limit: usize = match decoded_byte_limit(image_size) {
            Ok(limit) => limit,
            Err(error) => {
                return Err(error);
            },
        };
        if pixels.len() != decoded_byte_limit {
            return Err(NodeError::execution("RGBA8 pixels do not match the frame dimensions"));
        }
        Ok(
            Some(
                DetectionJob {
                    pixels,
                    image_size,
                    decoded_byte_limit,
                    frame_identity: frame.identity.clone(),
                },
            ),
        )
    }

    /// The pixels were encoded, or the words of what went wrong: the search begins, for the board
    /// that comes back.
    pub fn encoded(&self, reply: Result<(), String>, rt: &mut NodeRuntime) -> (r: Result<
        BoardSpec,
        NodeError,
    >)
        ensures
            match reply {
                Err(text) => failed(r, NodeErrorView::Execution(text@)) && final(rt)@ == old(rt)@,
                Ok(()) => {
                    let board = configured_board(self.spec.config@);
                    match board.fault() {
                        Some(fault) => failed(r, NodeErrorView::Config(fault.text())) && final(rt)@ == old(rt)@,
                        None => r == Ok::<BoardSpec, NodeError>(board) && final(rt)@ == old(rt)@.reported(NodeRuntimeState::Running, "detecting chessboard"@),
                    }
                },
            },
    {
        match reply {
            Ok(()) => {},
            Err(text) => {
                return Err(NodeError::Execution(text));
            },
        }
        let board: BoardSpec = match read_board(&self.spec.config) {
            Ok(board) => board,
            Err(error) => {
                return Err(error);
            },
        };
        rt.report_state(NodeRuntimeState::Running, "detecting chessboard");
        Ok(board)
    }

    /// The search ended. A board that was found goes out with the identity of its frame; one that was
    /// not only leaves a note.
    pub fn detected(
        &self,
        frame_identity: &ImageFrameIdentity,
        board: BoardSpec,
        reply: Result<ChessboardDetectionOutcome, String>,
        rt: &mut NodeRuntime,
    ) -> (r: Result<(), NodeError>)
        ensures
            match reply {
                Err(text) => failed(r, NodeErrorView::Execution(text@)) && final(rt)@ == old(rt)@,
                Ok(ChessboardDetectionOutcome::Found(detection)) => {
                    let (after, all) = found_sent(
                        *self,
                        frame_identity@,
                        detection,
                        board,
                        old(rt)@,
                    );
                    final(rt)@ == after && if all {
                        r is Ok
                    } else {
                        failed(r, channel_full())
                    }
                },
                Ok(ChessboardDetectionOutcome::NotFound { image_size }) => r is Ok && final(rt)@
                    == old(rt)@.noted(
                    "chessboard not found in "@ + image_size.text() + " frame"@,
                ).reported(NodeRuntimeState::Idle, "not found"@),
            },
    {
        let outcome: ChessboardDetectionOutcome = match reply {
            Ok(outcome) => outcome,
            Err(text) => {
                return Err(NodeError::Execution(text));
            },
        };
        match outcome {
            ChessboardDetectionOutcome::Found(detection) => {
                let detection: Arc<ChessboardDetection> = Arc::new(detection);
                let packet = DetectionPacket {
                    detection: share(&detection),
                    frame_identity: frame_identity.clone(),
                };
                match rt.emit("detection", DataPacket::Detection(Arc::new(packet))) {
                    Ok(()) => {},
                    Err(error) => {
                        return Err(error);
                    },
                }
                match self.emit_found_overlay(rt, frame_identity, &detection, board) {
                    Ok(()) => {},
                    Err(error) => {
                        return Err(error);
                    },
                }
                rt.report_state(NodeRuntimeState::Idle, "detected");
                Ok(())
            },
            ChessboardDetectionOutcome::NotFound { image_size } => {
                rt.report_event(
                    concat3(
                        "chessboard not found in ",
                        image_size.describe().as_str(),
                        " frame",
                    ).as_str(),
                );
                rt.report_state(NodeRuntimeState::Idle, "not found");
                Ok(())
            },
        }
    }

    /// Sends the overlay of a board that was found, where the node has a port for it.
    pub fn emit_found_overlay(
        &self,
        rt: &mut NodeRuntime,
        frame_identity: &ImageFrameIdentity,
        detection: &ChessboardDetection,
        board: BoardSpec,
    ) -> (r: Result<(), NodeError>)
        ensures
            if !has_port(self.spec@.outputs, "overlay"@) {
                r is Ok && final(rt)@ == old(rt)@
            } else if old(rt)@.accepts("overlay"@) {
                r is Ok && final(rt)@ == old(rt)@.emitted(
                    "overlay"@,
                    PacketView::Json(found_overlay(frame_identity@, *detection, board)),
                )
            } else {
                failed(r, channel_full()) && final(rt)@ == old(rt)@
            },
    {
        if !has_output_port(&self.spec, "overlay") {
            return Ok(());
        }
        let overlay: JsonValue = found_overlay_json(frame_identity, detection, board);
        rt.emit("overlay", DataPacket::Json(Arc::new(overlay)))
    }

    pub fn on_action(&mut self, action: NodeAction, _rt: &mut NodeRuntime) -> (r: Result<
        (),
        NodeError,
    >)
        ensures
            failed(r, NodeErrorView::UnsupportedAction(action.label())),
            *final(self) == *old(self),
            final(_rt)@ == old(_rt)@,
    {
        Err(NodeError::unsupported(&action))
    }

    pub fn on_stop(&mut self, rt: &mut NodeRuntime) -> (r: Result<(), NodeError>)
        ensures
            r is Ok,
            *final(self) == *old(self),
            final(rt)@ == old(rt)@.reported(NodeRuntimeState::Idle, "stopped"@),
    {
        rt.report_state(NodeRuntimeState::Idle, "stopped");
        Ok(())
    }
}

/// Every grey value becomes a grey, opaque pixel.
pub proof fn law_grey_pixels_are_grey_and_opaque(values: Seq<u8>, i: int)
    requires
        0 <= i < values.len(),
    ensures
        spread(values)[4 * i] == values[i],
        spread(values)[4 * i + 1] == values[i],
        spread(values)[4 * i + 2] == values[i],
        spread(values)[4 * i + 3] == 255,
{
}

/// The outline of a usable board that was found in full has its four outer corners.
pub proof fn law_full_detection_has_an_outline(detection: ChessboardDetection, board: BoardSpec)
    requires
        crate::model::view_fault(detection.corners@, board) is None,
    ensures
        outline(detection.corners@, board) is Some,
        outline(detection.corners@, board)->Some_0.len() == 4,
        outline(detection.corners@, board)->Some_0[0] == detection.corners@[0],
        outline(detection.corners@, board)->Some_0[2] == detection.corners@.last(),
{
    let cols = board.inner_cols as int;
    let rows = board.inner_rows as int;
    assert((rows - 1) * cols + cols == cols * rows) by (nonlinear_arith);
}

} // verus!
