//! Packets that flow between nodes.
use crate::asset::share;
use crate::engine::dataset::{CalibrationDataset, DatasetView};
use crate::ieee::Real64;
use crate::json::{JsonTree, JsonValue};
use crate::model::{CalibrationImageSize, CalibrationSolution, ChessboardDetection};
use crate::source::{SourcePts, SourcePtsView, StreamFrameIdentity, StreamSessionId};
use crate::text::same_text;
use std::sync::Arc;
use vstd::prelude::*;

verus! {

/// Where a frame came from.
#[derive(Debug)]
pub enum FrameProvenance {
    Stream { stream_id: StreamSessionId, channel: u16 },
    Device { driver: String, channel: u16, camera: Option<u16>, timestamp_ns: u64 },
    File { source: String },
    Unknown { reason: String },
}

/// A provenance by its values.
pub enum ProvenanceView {
    Stream { stream: Seq<char>, channel: u16 },
    Device { driver: Seq<char>, channel: u16, camera: Option<u16>, timestamp_ns: u64 },
    File { source: Seq<char> },
    Unknown { reason: Seq<char> },
}

impl View for FrameProvenance {
    type V = ProvenanceView;

    open spec fn view(&self) -> ProvenanceView {
        match *self {
            FrameProvenance::Stream { stream_id, channel } => ProvenanceView::Stream {
                stream: stream_id.value@,
                channel,
            },
            FrameProvenance::Device { driver, channel, camera, timestamp_ns } =>
                ProvenanceView::Device { driver: driver@, channel, camera, timestamp_ns },
            FrameProvenance::File { source } => ProvenanceView::File { source: source@ },
            FrameProvenance::Unknown { reason } => ProvenanceView::Unknown { reason: reason@ },
        }
    }
}

impl Clone for FrameProvenance {
    fn clone(&self) -> (r: Self)
        ensures
            r == *self,
    {
        match self {
            FrameProvenance::Stream { stream_id, channel } => FrameProvenance::Stream {
                stream_id: stream_id.clone(),
                channel: *channel,
            },
            FrameProvenance::Device { driver, channel, camera, timestamp_ns } =>
                FrameProvenance::Device {
                driver: driver.clone(),
                channel: *channel,
                camera: *camera,
                timestamp_ns: *timestamp_ns,
            },
            FrameProvenance::File { source } => FrameProvenance::File { source: source.clone() },
            FrameProvenance::Unknown { reason } => FrameProvenance::Unknown {
                reason: reason.clone(),
            },
        }
    }
}

/// Whether two optional numbers are equal.
pub fn same_u16(a: Option<u16>, b: Option<u16>) -> (r: bool)
    ensures
        r == (a == b),
{
    match (a, b) {
        (Some(x), Some(y)) => x == y,
        (None, None) => true,
        _ => false,
    }
}

/// Whether two optional numbers are equal.
pub fn same_u64(a: Option<u64>, b: Option<u64>) -> (r: bool)
    ensures
        r == (a == b),
{
    match (a, b) {
        (Some(x), Some(y)) => x == y,
        (None, None) => true,
        _ => false,
    }
}

impl FrameProvenance {
    pub fn eq_value(&self, other: &FrameProvenance) -> (r: bool)
        ensures
            r == (self@ == other@),
    {
        match (self, other) {
            (
                FrameProvenance::Stream { stream_id, channel },
                FrameProvenance::Stream { stream_id: other_id, channel: other_channel },
            ) => same_text(stream_id.value.as_str(), other_id.value.as_str()) && *channel
                == *other_channel,
            (
                FrameProvenance::Device { driver, channel, camera, timestamp_ns },
                FrameProvenance::Device {
                    driver: other_driver,
                    channel: other_channel,
                    camera: other_camera,
                    timestamp_ns: other_timestamp,
                },
            ) => same_text(driver.as_str(), other_driver.as_str()) && *channel == *other_channel
                && same_u16(*camera, *other_camera) && *timestamp_ns == *other_timestamp,
            (
                FrameProvenance::File { source },
                FrameProvenance::File { source: other_source },
            ) => same_text(source.as_str(), other_source.as_str()),
            (
                FrameProvenance::Unknown { reason },
                FrameProvenance::Unknown { reason: other_reason },
            ) => same_text(reason.as_str(), other_reason.as_str()),
            _ => false,
        }
    }
}

/// The identity of a frame, which travels with everything that is derived from the frame.
#[derive(Debug)]
pub struct ImageFrameIdentity {
    pub provenance: FrameProvenance,
    pub frame_sequence: u64,
    pub source_pts: SourcePts,
    pub host_monotonic_time_ns: u64,
    pub device_timestamp_ns: Option<u64>,
}

/// A frame identity by its values.
pub struct IdentityView {
    pub provenance: ProvenanceView,
    pub frame_sequence: u64,
    pub source_pts: SourcePtsView,
    pub host_monotonic_time_ns: u64,
    pub device_timestamp_ns: Option<u64>,
}

impl View for ImageFrameIdentity {
    type V = IdentityView;

    open spec fn view(&self) -> IdentityView {
        IdentityView {
            provenance: self.provenance@,
            frame_sequence: self.frame_sequence,
            source_pts: self.source_pts@,
            host_monotonic_time_ns: self.host_monotonic_time_ns,
            device_timestamp_ns: self.device_timestamp_ns,
        }
    }
}

impl Clone for ImageFrameIdentity {
    fn clone(&self) -> (r: Self)
        ensures
            r == *self,
    {
        ImageFrameIdentity {
            provenance: self.provenance.clone(),
            frame_sequence: self.frame_sequence,
            source_pts: self.source_pts.clone(),
            host_monotonic_time_ns: self.host_monotonic_time_ns,
            device_timestamp_ns: self.device_timestamp_ns,
        }
    }
}

impl ImageFrameIdentity {
    /// The identity of a stream frame.
    pub open spec fn of_stream(frame: StreamFrameIdentity) -> ImageFrameIdentity {
        ImageFrameIdentity {
            provenance: FrameProvenance::Stream {
                stream_id: frame.stream_id,
                channel: frame.channel,
            },
            frame_sequence: frame.frame_sequence,
            source_pts: frame.source_pts,
            host_monotonic_time_ns: frame.host_monotonic_time_ns,
            device_timestamp_ns: frame.device_timestamp_ns,
        }
    }

    pub fn from_stream(frame: &StreamFrameIdentity) -> (r: ImageFrameIdentity)
        ensures
            r == ImageFrameIdentity::of_stream(*frame),
    {
        ImageFrameIdentity {
            provenance: FrameProvenance::Stream {
                stream_id: frame.stream_id.clone(),
                channel: frame.channel,
            },
            frame_sequence: frame.frame_sequence,
            source_pts: frame.source_pts.clone(),
            host_monotonic_time_ns: frame.host_monotonic_time_ns,
            device_timestamp_ns: frame.device_timestamp_ns,
        }
    }

    /// The channel of a stream frame; nothing for a frame that is no stream's.
    pub open spec fn stream(self) -> Option<u16> {
        match self.provenance {
            FrameProvenance::Stream { channel, .. } => Some(channel),
            _ => None,
        }
    }

    /// The channel of a stream frame; nothing for a frame that is no stream's.
    pub fn stream_channel(&self) -> (r: Option<u16>)
        ensures
            r == self.stream(),
    {
        match &self.provenance {
            FrameProvenance::Stream { channel, .. } => Some(*channel),
            _ => None,
        }
    }

    pub fn device_timestamp_ns(&self) -> (r: Option<u64>)
        ensures
            r == self.device_timestamp_ns,
    {
        self.device_timestamp_ns
    }

    /// Whether two identities are the same in every part.
    pub fn eq_value(&self, other: &ImageFrameIdentity) -> (r: bool)
        ensures
            r == (self@ == other@),
    {
        self.provenance.eq_value(&other.provenance) && self.frame_sequence == other.frame_sequence
            && self.source_pts.eq_value(&other.source_pts) && self.host_monotonic_time_ns
            == other.host_monotonic_time_ns && same_u64(
            self.device_timestamp_ns,
            other.device_timestamp_ns,
        )
    }
}

/// Pixel formats of a frame.
#[derive(Clone, Copy, Debug, PartialEq, Eq, Structural)]
pub enum ImageFrameFormat {
    Rgba8,
    Gray8,
    Gray16Le,
    Nv12,
    BayerRaw,
}

impl ImageFrameFormat {
    /// The name of the format.
    pub open spec fn label(self) -> Seq<char> {
        match self {
            ImageFrameFormat::Rgba8 => "RGBA8"@,
            ImageFrameFormat::Gray8 => "GRAY8"@,
            ImageFrameFormat::Gray16Le => "GRAY16LE"@,
            ImageFrameFormat::Nv12 => "NV12"@,
            ImageFrameFormat::BayerRaw => "BAYER_RAW"@,
        }
    }

    pub fn name(self) -> (r: &'static str)
        ensures
            r@ == self.label(),
    {
        match self {
            ImageFrameFormat::Rgba8 => "RGBA8",
            ImageFrameFormat::Gray8 => "GRAY8",
            ImageFrameFormat::Gray16Le => "GRAY16LE",
            ImageFrameFormat::Nv12 => "NV12",
            ImageFrameFormat::BayerRaw => "BAYER_RAW",
        }
    }
}

/// One plane of pixels.
#[derive(Debug)]
pub struct ImagePlane {
    pub bytes: Vec<u8>,
    pub stride_bytes: u32,
}

/// A plane by its values.
#[verifier::ext_equal]
pub struct PlaneView {
    pub bytes: Seq<u8>,
    pub stride_bytes: u32,
}

impl View for ImagePlane {
    type V = PlaneView;

    open spec fn view(&self) -> PlaneView {
        PlaneView { bytes: self.bytes@, stride_bytes: self.stride_bytes }
    }
}

/// Planes by their values.
pub open spec fn plane_views(planes: Seq<ImagePlane>) -> Seq<PlaneView> {
    planes.map_values(|plane: ImagePlane| plane@)
}

impl ImagePlane {
    pub fn new(bytes: Vec<u8>, stride_bytes: u32) -> (r: ImagePlane)
        ensures
            r == (ImagePlane { bytes, stride_bytes }),
    {
        ImagePlane { bytes, stride_bytes }
    }
}

/// The colour filter over a raw sensor.
#[derive(Clone, Copy, Debug, PartialEq, Eq, Structural)]
pub enum BayerPattern {
    Rggb,
    Bggr,
    Grbg,
    Gbrg,
}

/// Metadata of a raw sensor image.
#[derive(Clone, Copy, Debug, PartialEq, Eq, Structural)]
pub struct RawMetadata {
    pub bayer_pattern: BayerPattern,
    pub bits_per_sample: u8,
    pub black_level: Option<u32>,
    pub white_level: Option<u32>,
}

/// Why planes do not make an image.
#[derive(Clone, Copy, Debug, PartialEq, Eq, Structural)]
pub enum ImageFrameError {
    EmptyDimensions,
    PlaneCount,
    PlaneLayout,
}

impl ImageFrameError {
    /// The text that the error is reported by.
    pub open spec fn text(self) -> Seq<char> {
        match self {
            ImageFrameError::EmptyDimensions => "image dimensions must be positive"@,
            ImageFrameError::PlaneCount => "image plane count does not match its format"@,
            ImageFrameError::PlaneLayout => "image plane layout does not match its dimensions"@,
        }
    }

    pub fn describe(&self) -> (r: &'static str)
        ensures
            r@ == self.text(),
    {
        match self {
            ImageFrameError::EmptyDimensions => "image dimensions must be positive",
            ImageFrameError::PlaneCount => "image plane count does not match its format",
            ImageFrameError::PlaneLayout => "image plane layout does not match its dimensions",
        }
    }
}

/// An image with its identity.
#[derive(Debug)]
pub struct ImageFrame {
    pub width: u32,
    pub height: u32,
    pub format: ImageFrameFormat,
    pub planes: Vec<ImagePlane>,
    pub identity: ImageFrameIdentity,
    pub raw: Option<RawMetadata>,
}

/// An image by its values.
pub struct ImageFrameView {
    pub width: u32,
    pub height: u32,
    pub format: ImageFrameFormat,
    pub planes: Seq<PlaneView>,
    pub identity: IdentityView,
    pub raw: Option<RawMetadata>,
}

impl View for ImageFrame {
    type V = ImageFrameView;

    open spec fn view(&self) -> ImageFrameView {
        ImageFrameView {
            width: self.width,
            height: self.height,
            format: self.format,
            planes: plane_views(self.planes@),
            identity: self.identity@,
            raw: self.raw,
        }
    }
}

/// The number of planes of a format.
pub open spec fn plane_count(format: ImageFrameFormat) -> nat {
    if format == ImageFrameFormat::Nv12 {
        2
    } else {
        1
    }
}

/// Whether a plane holds all its rows.
pub open spec fn holds_rows(plane: PlaneView, rows: int) -> bool {
    plane.stride_bytes * rows <= plane.bytes.len()
}

/// Why planes do not make an image of the given size; nothing where they do.
pub open spec fn frame_fault(
    width: u32,
    height: u32,
    format: ImageFrameFormat,
    planes: Seq<PlaneView>,
) -> Option<ImageFrameError> {
    if width == 0 || height == 0 {
        Some(ImageFrameError::EmptyDimensions)
    } else if planes.len() != plane_count(format) {
        Some(ImageFrameError::PlaneCount)
    } else if !holds_rows(planes[0], height as int) || (format == ImageFrameFormat::Nv12
        && !holds_rows(planes[1], (height / 2) as int)) {
        Some(ImageFrameError::PlaneLayout)
    } else {
        None
    }
}

fn plane_holds_rows(plane: &ImagePlane, rows: u32) -> (r: bool)
    ensures
        r == holds_rows(plane@, rows as int),
{
    proof {
        assert(plane.stride_bytes * rows <= 0xffff_ffff * 0xffff_ffff) by (nonlinear_arith)
            requires
                plane.stride_bytes <= 0xffff_ffff,
                rows <= 0xffff_ffff,
        ;
    }
    plane.stride_bytes as u64 * rows as u64 <= plane.bytes.len() as u64
}

impl ImageFrame {
    /// Makes an image of planes that fit its size.
    pub fn new(
        width: u32,
        height: u32,
        format: ImageFrameFormat,
        planes: Vec<ImagePlane>,
        identity: ImageFrameIdentity,
        raw: Option<RawMetadata>,
    ) -> (r: Result<ImageFrame, ImageFrameError>)
        ensures
            match frame_fault(width, height, format, plane_views(planes@)) {
                Some(fault) => r == Err::<ImageFrame, ImageFrameError>(fault),
                None => r == Ok::<ImageFrame, ImageFrameError>(
                    ImageFrame { width, height, format, planes, identity, raw },
                ),
            },
    {
        if width == 0 || height == 0 {
            return Err(ImageFrameError::EmptyDimensions);
        }
        let expected: usize = if format == ImageFrameFormat::Nv12 {
            2
        } else {
            1
        };
        if planes.len() != expected {
            return Err(ImageFrameError::PlaneCount);
        }
        if !plane_holds_rows(&planes[0], height) || (format == ImageFrameFormat::Nv12
            && !plane_holds_rows(&planes[1], height / 2)) {
            return Err(ImageFrameError::PlaneLayout);
        }
        Ok(ImageFrame { width, height, format, planes, identity, raw })
    }

    /// Makes a tightly packed RGBA image.
    pub fn rgba8(width: u32, height: u32, pixels: Vec<u8>, identity: ImageFrameIdentity) -> (r:
        Result<ImageFrame, ImageFrameError>)
        ensures
            ({
                let planes = seq![
                    PlaneView { bytes: pixels@, stride_bytes: packed_stride(width) },
                ];
                match frame_fault(width, height, ImageFrameFormat::Rgba8, planes) {
                    Some(fault) => r == Err::<ImageFrame, ImageFrameError>(fault),
                    None => r is Ok && r->Ok_0@ == (ImageFrameView {
                        width,
                        height,
                        format: ImageFrameFormat::Rgba8,
                        planes,
                        identity: identity@,
                        raw: None,
                    }),
                }
            }),
    {
        let mut planes: Vec<ImagePlane> = Vec::new();
        planes.push(ImagePlane::new(pixels, rgba_stride(width)));
        proof {
            assert(plane_views(planes@) =~= seq![
                PlaneView { bytes: pixels@, stride_bytes: packed_stride(width) },
            ]);
        }
        ImageFrame::new(width, height, ImageFrameFormat::Rgba8, planes, identity, None)
    }

    /// The image of a decoded stream frame.
    pub open spec fn of_video(frame: DecodedVideoFrame) -> ImageFrameView {
        ImageFrameView {
            width: frame.width,
            height: frame.height,
            format: ImageFrameFormat::Rgba8,
            planes: seq![
                PlaneView { bytes: frame.rgba@, stride_bytes: packed_stride(frame.width) },
            ],
            identity: ImageFrameIdentity::of_stream(frame.identity)@,
            raw: None,
        }
    }

    /// The image of a decoded stream frame.
    pub fn from_video(frame: &DecodedVideoFrame) -> (r: ImageFrame)
        ensures
            r@ == ImageFrame::of_video(*frame),
            r.identity == ImageFrameIdentity::of_stream(frame.identity),
    {
        let mut planes: Vec<ImagePlane> = Vec::new();
        planes.push(
            ImagePlane::new(
                copy_bytes(&frame.rgba, 0, frame.rgba.len()),
                rgba_stride(frame.width),
            ),
        );
        proof {
            assert(frame.rgba@.subrange(0, frame.rgba@.len() as int) =~= frame.rgba@);
            assert(plane_views(planes@) =~= ImageFrame::of_video(*frame).planes);
        }
        ImageFrame {
            width: frame.width,
            height: frame.height,
            format: ImageFrameFormat::Rgba8,
            planes,
            identity: ImageFrameIdentity::from_stream(&frame.identity),
            raw: None,
        }
    }
}

/// The stride of tightly packed RGBA rows, as far as it fits.
pub open spec fn packed_stride(width: u32) -> u32 {
    if width > 0x3fff_ffff {
        0xffff_ffff
    } else {
        (width * 4) as u32
    }
}

fn rgba_stride(width: u32) -> (r: u32)
    ensures
        r == packed_stride(width),
{
    if width > 0x3fff_ffff {
        0xffff_ffff
    } else {
        width * 4
    }
}

/// Copies a part of some bytes.
pub fn copy_bytes(bytes: &Vec<u8>, from: usize, to: usize) -> (r: Vec<u8>)
    requires
        from <= to <= bytes@.len(),
    ensures
        r@ == bytes@.subrange(from as int, to as int),
{
    let mut r: Vec<u8> = Vec::new();
    let mut i: usize = from;
    while i < to
        invariant
            from <= i <= to <= bytes@.len(),
            r@ == bytes@.subrange(from as int, i as int),
        decreases to - i,
    {
        r.push(bytes[i]);
        proof {
            assert(r@ =~= bytes@.subrange(from as int, i + 1));
        }
        i = i + 1;
    }
    r
}

/// A decoded stream frame: tightly packed RGBA rows.
#[derive(Debug)]
pub struct DecodedVideoFrame {
    pub width: u32,
    pub height: u32,
    pub rgba: Vec<u8>,
    pub identity: StreamFrameIdentity,
}

/// Which image a capture asks for.
#[derive(Clone, Copy, Debug, PartialEq, Eq, Structural)]
pub enum CaptureTarget {
    Yuv { channel: u16 },
    Raw { camera: u16 },
}

/// Which moment a capture asks for.
#[derive(Clone, Copy, Debug, PartialEq, Eq, Structural)]
pub enum CaptureMode {
    Latest,
    FrameId(u64),
    TimestampNs(u64),
}

/// An identity by its values, where there is one.
pub open spec fn optional_identity(identity: Option<ImageFrameIdentity>) -> Option<IdentityView> {
    match identity {
        Some(identity) => Some(identity@),
        None => None,
    }
}

/// A request to capture an image.
#[derive(Debug)]
pub struct CaptureRequest {
    pub target: CaptureTarget,
    pub mode: CaptureMode,
    pub source_identity: Option<ImageFrameIdentity>,
}

/// A request by its values.
pub struct CaptureRequestView {
    pub target: CaptureTarget,
    pub mode: CaptureMode,
    pub source_identity: Option<IdentityView>,
}

impl View for CaptureRequest {
    type V = CaptureRequestView;

    open spec fn view(&self) -> CaptureRequestView {
        CaptureRequestView {
            target: self.target,
            mode: self.mode,
            source_identity: optional_identity(self.source_identity),
        }
    }
}

/// Whether a frame passed a gate.
#[derive(Debug)]
pub struct CaptureSignal {
    pub accepted: bool,
    pub frame_identity: ImageFrameIdentity,
}

/// A frame that is to be captured.
#[derive(Debug)]
pub struct CaptureTrigger {
    pub frame_identity: ImageFrameIdentity,
}

/// The score of a frame.
#[derive(Debug)]
pub struct CalibrationFrameScore {
    pub score: Real64,
    pub frame_identity: ImageFrameIdentity,
}

/// A chessboard found in a frame.
#[derive(Debug)]
pub struct DetectionPacket {
    pub detection: Arc<ChessboardDetection>,
    pub frame_identity: ImageFrameIdentity,
}

/// A vector of three numbers.
#[derive(Clone, Copy, Debug, PartialEq, Eq, Structural)]
pub struct CalibrationVector3 {
    pub x: Real64,
    pub y: Real64,
    pub z: Real64,
}

impl CalibrationVector3 {
    /// Whether all three numbers are finite.
    pub open spec fn finite(self) -> bool {
        self.x.finite() && self.y.finite() && self.z.finite()
    }

    pub fn new(x: Real64, y: Real64, z: Real64) -> (r: CalibrationVector3)
        ensures
            r == (CalibrationVector3 { x, y, z }),
    {
        CalibrationVector3 { x, y, z }
    }

    pub fn is_finite(&self) -> (r: bool)
        ensures
            r == self.finite(),
    {
        self.x.is_finite() && self.y.is_finite() && self.z.is_finite()
    }
}

/// Which way a pose maps: from the board's coordinates to the camera's.
#[derive(Clone, Copy, Debug, PartialEq, Eq, Structural)]
pub enum DetectionPoseConvention {
    TCameraBoard,
}

/// The pose of a board in a frame: a rotation vector and a translation in metres.
#[derive(Debug)]
pub struct DetectionPose {
    pub frame_identity: ImageFrameIdentity,
    pub convention: DetectionPoseConvention,
    pub translation_m: CalibrationVector3,
    pub rotation_rodrigues: CalibrationVector3,
    pub reprojection_error_px: Option<Real64>,
}

/// Why the figures of a pose cannot be used; nothing where they can.
pub open spec fn pose_fault(
    translation_m: CalibrationVector3,
    rotation_rodrigues: CalibrationVector3,
    reprojection_error_px: Option<Real64>,
) -> Option<Seq<char>> {
    if !translation_m.finite() || !rotation_rodrigues.finite() {
        Some("pose must be finite"@)
    } else if reprojection_error_px is Some && (!reprojection_error_px->Some_0.finite()
        || reprojection_error_px->Some_0.key() < 0) {
        Some("reprojection error must be finite and not negative"@)
    } else {
        None
    }
}

impl DetectionPose {
    /// A pose of finite figures.
    pub fn new(
        frame_identity: ImageFrameIdentity,
        translation_m: CalibrationVector3,
        rotation_rodrigues: CalibrationVector3,
        reprojection_error_px: Option<Real64>,
    ) -> (r: Result<DetectionPose, &'static str>)
        ensures
            match pose_fault(translation_m, rotation_rodrigues, reprojection_error_px) {
                Some(text) => r is Err && r->Err_0@ == text,
                None => r == Ok::<DetectionPose, &'static str>(
                    DetectionPose {
                        frame_identity,
                        convention: DetectionPoseConvention::TCameraBoard,
                        translation_m,
                        rotation_rodrigues,
                        reprojection_error_px,
                    },
                ),
            },
    {
        if !translation_m.is_finite() || !rotation_rodrigues.is_finite() {
            return Err("pose must be finite");
        }
        match reprojection_error_px {
            Some(error) => {
                if !error.is_finite() || error.lt(Real64::zero()) {
                    return Err("reprojection error must be finite and not negative");
                }
            },
            None => {},
        }
        Ok(
            DetectionPose {
                frame_identity,
                convention: DetectionPoseConvention::TCameraBoard,
                translation_m,
                rotation_rodrigues,
                reprojection_error_px,
            },
        )
    }
}

/// The pattern of a calibration board.
#[derive(Clone, Copy, Debug, PartialEq, Eq, Structural)]
pub enum CalibrationBoardKind {
    Chessboard,
}

/// Parameters of a calibration board.
#[derive(Clone, Copy, Debug, PartialEq, Eq, Structural)]
pub struct CalibrationBoardParams {
    pub board_kind: CalibrationBoardKind,
    pub cols: u16,
    pub rows: u16,
    pub square_size_mm: Real64,
}

/// Why calibration parameters cannot be used.
#[derive(Clone, Copy, Debug, PartialEq, Eq, Structural)]
pub enum CalibrationParamsFault {
    /// A board has fewer than two inner corners in some direction.
    BoardLayout,
    /// The spacing of a board is not a positive finite number.
    BoardSpacing,
    /// A focal length is not a positive finite number.
    FocalLength,
    /// A coordinate of the principal point is not finite.
    PrincipalPoint,
    /// An image has no width or no height.
    EmptyImage,
    /// A lens without distortion has coefficients.
    Coefficients,
}

impl CalibrationParamsFault {
    /// The text that the fault is reported by.
    pub open spec fn text(self) -> Seq<char> {
        match self {
            CalibrationParamsFault::BoardLayout =>
                "board needs at least two inner corners in both directions"@,
            CalibrationParamsFault::BoardSpacing =>
                "board square size must be finite and positive"@,
            CalibrationParamsFault::FocalLength => "focal lengths must be finite and positive"@,
            CalibrationParamsFault::PrincipalPoint => "principal point must be finite"@,
            CalibrationParamsFault::EmptyImage => "image size must not be empty"@,
            CalibrationParamsFault::Coefficients =>
                "a model without distortion takes no coefficients"@,
        }
    }

    pub fn describe(&self) -> (r: &'static str)
        ensures
            r@ == self.text(),
    {
        match self {
            CalibrationParamsFault::BoardLayout =>
                "board needs at least two inner corners in both directions",
            CalibrationParamsFault::BoardSpacing =>
                "board square size must be finite and positive",
            CalibrationParamsFault::FocalLength => "focal lengths must be finite and positive",
            CalibrationParamsFault::PrincipalPoint => "principal point must be finite",
            CalibrationParamsFault::EmptyImage => "image size must not be empty",
            CalibrationParamsFault::Coefficients =>
                "a model without distortion takes no coefficients",
        }
    }
}

impl CalibrationBoardParams {
    /// What makes the parameters unusable, if anything does.
    pub open spec fn fault(self) -> Option<CalibrationParamsFault> {
        if self.cols < 2 || self.rows < 2 {
            Some(CalibrationParamsFault::BoardLayout)
        } else if !self.square_size_mm.finite() || self.square_size_mm.key() <= 0 {
            Some(CalibrationParamsFault::BoardSpacing)
        } else {
            None
        }
    }

    pub fn validate(&self) -> (r: Result<(), CalibrationParamsFault>)
        ensures
            r == (match self.fault() {
                None => Ok::<(), CalibrationParamsFault>(()),
                Some(fault) => Err(fault),
            }),
    {
        if self.cols < 2 || self.rows < 2 {
            return Err(CalibrationParamsFault::BoardLayout);
        }
        if !self.square_size_mm.is_finite() || self.square_size_mm.le(Real64::zero()) {
            return Err(CalibrationParamsFault::BoardSpacing);
        }
        Ok(())
    }
}

impl Default for CalibrationBoardParams {
    /// A board of 11 by 8 inner corners, 40 mm apart.
    fn default() -> (r: Self)
        ensures
            r == (CalibrationBoardParams {
                board_kind: CalibrationBoardKind::Chessboard,
                cols: 11,
                rows: 8,
                square_size_mm: Real64 { bits: 0x4044_0000_0000_0000 },
            }),
    {
        CalibrationBoardParams {
            board_kind: CalibrationBoardKind::Chessboard,
            cols: 11,
            rows: 8,
            square_size_mm: Real64::from_bits(0x4044_0000_0000_0000),
        }
    }
}

/// The projection model of a camera.
#[derive(Clone, Copy, Debug, PartialEq, Eq, Structural)]
pub enum CameraModelKind {
    Pinhole,
}

/// Parameters of a camera.
#[derive(Clone, Copy, Debug, PartialEq, Eq, Structural)]
pub struct CameraModelParams {
    pub model: CameraModelKind,
    pub fx: Real64,
    pub fy: Real64,
    pub cx: Real64,
    pub cy: Real64,
    pub image_size: Option<CalibrationImageSize>,
}

impl CameraModelParams {
    /// What makes the parameters unusable, if anything does.
    pub open spec fn fault(self) -> Option<CalibrationParamsFault> {
        if !self.fx.finite() || self.fx.key() <= 0 || !self.fy.finite() || self.fy.key() <= 0 {
            Some(CalibrationParamsFault::FocalLength)
        } else if !self.cx.finite() || !self.cy.finite() {
            Some(CalibrationParamsFault::PrincipalPoint)
        } else if self.image_size is Some && (self.image_size->Some_0.width == 0
            || self.image_size->Some_0.height == 0) {
            Some(CalibrationParamsFault::EmptyImage)
        } else {
            None
        }
    }

    pub fn validate(&self) -> (r: Result<(), CalibrationParamsFault>)
        ensures
            r == (match self.fault() {
                None => Ok::<(), CalibrationParamsFault>(()),
                Some(fault) => Err(fault),
            }),
    {
        if !self.fx.is_finite() || self.fx.le(Real64::zero()) || !self.fy.is_finite()
            || self.fy.le(Real64::zero()) {
            return Err(CalibrationParamsFault::FocalLength);
        }
        if !self.cx.is_finite() || !self.cy.is_finite() {
            return Err(CalibrationParamsFault::PrincipalPoint);
        }
        match self.image_size {
            Some(size) => {
                if size.width == 0 || size.height == 0 {
                    return Err(CalibrationParamsFault::EmptyImage);
                }
            },
            None => {},
        }
        Ok(())
    }
}

impl Default for CameraModelParams {
    /// A pinhole camera of 1920 by 1080 pixels with focal lengths of 900 pixels and the principal
    /// point in the middle.
    fn default() -> (r: Self)
        ensures
            r == (CameraModelParams {
                model: CameraModelKind::Pinhole,
                fx: Real64 { bits: 0x408c_2000_0000_0000 },
                fy: Real64 { bits: 0x408c_2000_0000_0000 },
                cx: Real64 { bits: 0x408e_0000_0000_0000 },
                cy: Real64 { bits: 0x4080_e000_0000_0000 },
                image_size: Some(CalibrationImageSize { width: 1920, height: 1080 }),
            }),
    {
        CameraModelParams {
            model: CameraModelKind::Pinhole,
            fx: Real64::from_bits(0x408c_2000_0000_0000),
            fy: Real64::from_bits(0x408c_2000_0000_0000),
            cx: Real64::from_bits(0x408e_0000_0000_0000),
            cy: Real64::from_bits(0x4080_e000_0000_0000),
            image_size: Some(CalibrationImageSize { width: 1920, height: 1080 }),
        }
    }
}

/// The distortion model of a lens.
#[derive(Clone, Copy, Debug, PartialEq, Eq, Structural)]
pub enum DistortionModelKind {
    Undistorted,
}

/// Parameters of a lens.
#[derive(Debug)]
pub struct DistortionModelParams {
    pub model: DistortionModelKind,
    pub coefficients: Vec<Real64>,
}

/// Parameters of a lens by their values.
pub struct DistortionView {
    pub model: DistortionModelKind,
    pub coefficients: Seq<Real64>,
}

impl View for DistortionModelParams {
    type V = DistortionView;

    open spec fn view(&self) -> DistortionView {
        DistortionView { model: self.model, coefficients: self.coefficients@ }
    }
}

impl DistortionView {
    /// A lens without distortion.
    pub open spec fn none() -> DistortionView {
        DistortionView { model: DistortionModelKind::Undistorted, coefficients: Seq::empty() }
    }

    /// What makes the parameters unusable, if anything does.
    pub open spec fn fault(self) -> Option<CalibrationParamsFault> {
        if self.coefficients.len() > 0 {
            Some(CalibrationParamsFault::Coefficients)
        } else {
            None
        }
    }
}

impl DistortionModelParams {
    pub fn validate(&self) -> (r: Result<(), CalibrationParamsFault>)
        ensures
            r == (match self@.fault() {
                None => Ok::<(), CalibrationParamsFault>(()),
                Some(fault) => Err(fault),
            }),
    {
        if self.coefficients.len() > 0 {
            return Err(CalibrationParamsFault::Coefficients);
        }
        Ok(())
    }
}

impl Default for DistortionModelParams {
    /// A lens without distortion.
    fn default() -> (r: Self)
        ensures
            r@ == DistortionView::none(),
    {
        let r = DistortionModelParams {
            model: DistortionModelKind::Undistorted,
            coefficients: Vec::new(),
        };
        proof {
            assert(r@.coefficients =~= Seq::<Real64>::empty());
        }
        r
    }
}

/// A handle on an established SSH session; it holds no key material.
#[derive(Debug)]
pub struct SshConnection {
    pub id: String,
}

/// The value of a datum.
#[derive(Debug)]
pub enum TypedValue {
    Bool(bool),
    U64(u64),
    I64(i64),
    F64(Real64),
    Str(String),
    Bytes(Vec<u8>),
}

/// A named value.
#[derive(Debug)]
pub struct Datum {
    pub name: String,
    pub value: TypedValue,
    pub unit: Option<String>,
    pub semantic_type: Option<String>,
}

/// Named values of one schema, with where they came from.
#[derive(Debug)]
pub struct StructuredPacket {
    pub schema: String,
    pub provenance: Arc<JsonValue>,
    pub fields: Vec<Datum>,
}

/// What a field was extracted from.
#[derive(Debug)]
pub struct TypedFieldSource {
    pub schema: String,
    pub provenance: Arc<JsonValue>,
    pub model_id: Option<String>,
}

/// What a field was extracted from, by its values.
pub struct FieldSourceView {
    pub schema: Seq<char>,
    pub provenance: JsonTree,
    pub model_id: Option<Seq<char>>,
}

impl View for TypedFieldSource {
    type V = FieldSourceView;

    open spec fn view(&self) -> FieldSourceView {
        FieldSourceView {
            schema: self.schema@,
            provenance: (*self.provenance)@,
            model_id: match self.model_id {
                Some(id) => Some(id@),
                None => None,
            },
        }
    }
}

/// The report of an I2C read.
#[derive(Debug)]
pub struct I2cReadReport {
    pub valid: bool,
    pub detail: JsonValue,
}

/// The report of an I2C write.
#[derive(Debug)]
pub struct I2cExecutionReport {
    pub final_verified: bool,
    pub detail: JsonValue,
}

/// What flows along an edge.
#[derive(Debug)]
pub enum DataPacket {
    VideoFrame(Arc<DecodedVideoFrame>),
    ImageFrame(Arc<ImageFrame>),
    Json(Arc<JsonValue>),
    Dataset(Arc<CalibrationDataset>),
    Coverage(Arc<JsonValue>),
    Target(Arc<JsonValue>),
    Detection(Arc<DetectionPacket>),
    Score(Arc<CalibrationFrameScore>),
    CaptureSignal(Arc<CaptureSignal>),
    CaptureTrigger(Arc<CaptureTrigger>),
    CaptureRequest(Arc<CaptureRequest>),
    CalibrationBoardParams(Arc<CalibrationBoardParams>),
    CameraModelParams(Arc<CameraModelParams>),
    DistortionModelParams(Arc<DistortionModelParams>),
    DetectionPose(Arc<DetectionPose>),
    Solution(Arc<CalibrationSolution>),
    PacketData(Arc<JsonValue>),
    StructuredPacket(Arc<StructuredPacket>),
    TypedField { datum: Arc<Datum>, generation: u64, source: Arc<TypedFieldSource> },
    SshConnection(Arc<SshConnection>),
    I2cReadReport(Arc<I2cReadReport>),
    I2cExecutionReport(Arc<I2cExecutionReport>),
}

/// A packet by what it holds.
pub enum PacketView {
    VideoFrame(DecodedVideoFrame),
    ImageFrame(ImageFrameView),
    Json(JsonTree),
    Dataset(DatasetView),
    Coverage(JsonTree),
    Target(JsonTree),
    Detection { detection: ChessboardDetection, identity: IdentityView },
    Score { score: Real64, identity: IdentityView },
    CaptureSignal { accepted: bool, identity: IdentityView },
    CaptureTrigger { identity: IdentityView },
    CaptureRequest(CaptureRequestView),
    CalibrationBoardParams(CalibrationBoardParams),
    CameraModelParams(CameraModelParams),
    DistortionModelParams(DistortionView),
    DetectionPose {
        identity: IdentityView,
        convention: DetectionPoseConvention,
        translation_m: CalibrationVector3,
        rotation_rodrigues: CalibrationVector3,
        reprojection_error_px: Option<Real64>,
    },
    Solution(CalibrationSolution),
    PacketData(JsonTree),
    StructuredPacket(StructuredPacket),
    TypedField { datum: Datum, generation: u64, source: FieldSourceView },
    SshConnection(Seq<char>),
    I2cReadReport(I2cReadReport),
    I2cExecutionReport(I2cExecutionReport),
}

impl View for DataPacket {
    type V = PacketView;

    open spec fn view(&self) -> PacketView {
        match *self {
            DataPacket::VideoFrame(p) => PacketView::VideoFrame(*p),
            DataPacket::ImageFrame(p) => PacketView::ImageFrame((*p)@),
            DataPacket::Json(p) => PacketView::Json((*p)@),
            DataPacket::Dataset(p) => PacketView::Dataset((*p)@),
            DataPacket::Coverage(p) => PacketView::Coverage((*p)@),
            DataPacket::Target(p) => PacketView::Target((*p)@),
            DataPacket::Detection(p) => PacketView::Detection {
                detection: *p.detection,
                identity: p.frame_identity@,
            },
            DataPacket::Score(p) => PacketView::Score {
                score: p.score,
                identity: p.frame_identity@,
            },
            DataPacket::CaptureSignal(p) => PacketView::CaptureSignal {
                accepted: p.accepted,
                identity: p.frame_identity@,
            },
            DataPacket::CaptureTrigger(p) => PacketView::CaptureTrigger {
                identity: p.frame_identity@,
            },
            DataPacket::CaptureRequest(p) => PacketView::CaptureRequest((*p)@),
            DataPacket::CalibrationBoardParams(p) => PacketView::CalibrationBoardParams(*p),
            DataPacket::CameraModelParams(p) => PacketView::CameraModelParams(*p),
            DataPacket::DistortionModelParams(p) => PacketView::DistortionModelParams((*p)@),
            DataPacket::DetectionPose(p) => PacketView::DetectionPose {
                convention: p.convention,
                identity: p.frame_identity@,
                translation_m: p.translation_m,
                rotation_rodrigues: p.rotation_rodrigues,
                reprojection_error_px: p.reprojection_error_px,
            },
            DataPacket::Solution(p) => PacketView::Solution(*p),
            DataPacket::PacketData(p) => PacketView::PacketData((*p)@),
            DataPacket::StructuredPacket(p) => PacketView::StructuredPacket(*p),
            DataPacket::TypedField { datum, generation, source } => PacketView::TypedField {
                datum: *datum,
                generation,
                source: (*source)@,
            },
            DataPacket::SshConnection(p) => PacketView::SshConnection(p.id@),
            DataPacket::I2cReadReport(p) => PacketView::I2cReadReport(*p),
            DataPacket::I2cExecutionReport(p) => PacketView::I2cExecutionReport(*p),
        }
    }
}

impl DataPacket {
    /// The kind of the ports that carry the payload, where the payload alone tells it.
    pub open spec fn port_label(self) -> Option<Seq<char>> {
        match self {
            DataPacket::VideoFrame(_) => Some("stream.video-frame"@),
            DataPacket::ImageFrame(_) => Some("image.frame"@),
            DataPacket::Json(_) => Some("status.metrics"@),
            DataPacket::CaptureTrigger(_) => Some("capture.trigger"@),
            DataPacket::Solution(_) => Some("calib.solution"@),
            DataPacket::TypedField { .. } => Some("data.field.v1"@),
            _ => None,
        }
    }

    pub fn port_kind(&self) -> (r: Option<&'static str>)
        ensures
            match r {
                Some(kind) => self.port_label() == Some(kind@),
                None => self.port_label() is None,
            },
    {
        match self {
            DataPacket::VideoFrame(_) => Some("stream.video-frame"),
            DataPacket::ImageFrame(_) => Some("image.frame"),
            DataPacket::Json(_) => Some("status.metrics"),
            DataPacket::CaptureTrigger(_) => Some("capture.trigger"),
            DataPacket::Solution(_) => Some("calib.solution"),
            DataPacket::TypedField { .. } => Some("data.field.v1"),
            _ => None,
        }
    }
}

impl Clone for DataPacket {
    /// Another handle on the same payload.
    fn clone(&self) -> (r: Self)
        ensures
            r == *self,
    {
        match self {
            DataPacket::VideoFrame(p) => DataPacket::VideoFrame(share(p)),
            DataPacket::ImageFrame(p) => DataPacket::ImageFrame(share(p)),
            DataPacket::Json(p) => DataPacket::Json(share(p)),
            DataPacket::Dataset(p) => DataPacket::Dataset(share(p)),
            DataPacket::Coverage(p) => DataPacket::Coverage(share(p)),
            DataPacket::Target(p) => DataPacket::Target(share(p)),
            DataPacket::Detection(p) => DataPacket::Detection(share(p)),
            DataPacket::Score(p) => DataPacket::Score(share(p)),
            DataPacket::CaptureSignal(p) => DataPacket::CaptureSignal(share(p)),
            DataPacket::CaptureTrigger(p) => DataPacket::CaptureTrigger(share(p)),
            DataPacket::CaptureRequest(p) => DataPacket::CaptureRequest(share(p)),
            DataPacket::CalibrationBoardParams(p) => DataPacket::CalibrationBoardParams(share(p)),
            DataPacket::CameraModelParams(p) => DataPacket::CameraModelParams(share(p)),
            DataPacket::DistortionModelParams(p) => DataPacket::DistortionModelParams(share(p)),
            DataPacket::DetectionPose(p) => DataPacket::DetectionPose(share(p)),
            DataPacket::Solution(p) => DataPacket::Solution(share(p)),
            DataPacket::PacketData(p) => DataPacket::PacketData(share(p)),
            DataPacket::StructuredPacket(p) => DataPacket::StructuredPacket(share(p)),
            DataPacket::SshConnection(p) => DataPacket::SshConnection(share(p)),
            DataPacket::I2cReadReport(p) => DataPacket::I2cReadReport(share(p)),
            DataPacket::I2cExecutionReport(p) => DataPacket::I2cExecutionReport(share(p)),
            DataPacket::TypedField { datum, generation, source } => DataPacket::TypedField {
                datum: share(datum),
                generation: *generation,
                source: share(source),
            },
        }
    }
}

} // verus!
