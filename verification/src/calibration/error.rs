//! Errors of the calibration session, each with the text it is reported by.
use crate::calibration::admission::AutoCaptureAcquisitionKey;
use crate::calibration::input::CalibrationItemId;
use crate::ieee::{Real32, Real64};
use crate::model::{CalibrationDataError, CalibrationImageSize};
use crate::source::FileVersion;
use crate::text::{concat, concat3, decimal, decimal_text};
use vstd::prelude::*;

verus! {

/// Why an admission binding does not fit what it is used with.
#[derive(Debug, PartialEq, Eq)]
pub enum BindingMismatch {
    EmptySourceFingerprint,
    EmptyGeometryKey,
    Board,
    ReferenceImageSize,
    AcquisitionSource,
    Unpaired,
    FrameChannel { candidate: u16, frame: u16 },
    NoAcquisitionKey,
    CandidateSource { candidate: AutoCaptureAcquisitionKey, baseline: AutoCaptureAcquisitionKey },
    ObservationDigest,
}

impl Clone for BindingMismatch {
    fn clone(&self) -> (r: Self)
        ensures
            r == *self,
    {
        match self {
            BindingMismatch::EmptySourceFingerprint => BindingMismatch::EmptySourceFingerprint,
            BindingMismatch::EmptyGeometryKey => BindingMismatch::EmptyGeometryKey,
            BindingMismatch::Board => BindingMismatch::Board,
            BindingMismatch::ReferenceImageSize => BindingMismatch::ReferenceImageSize,
            BindingMismatch::AcquisitionSource => BindingMismatch::AcquisitionSource,
            BindingMismatch::Unpaired => BindingMismatch::Unpaired,
            BindingMismatch::FrameChannel { candidate, frame } => BindingMismatch::FrameChannel {
                candidate: *candidate,
                frame: *frame,
            },
            BindingMismatch::NoAcquisitionKey => BindingMismatch::NoAcquisitionKey,
            BindingMismatch::CandidateSource { candidate, baseline } => BindingMismatch::CandidateSource {
                candidate: candidate.clone(),
                baseline: baseline.clone(),
            },
            BindingMismatch::ObservationDigest => BindingMismatch::ObservationDigest,
        }
    }
}

/// Why acceptance criteria, or the baseline around them, are unusable.
#[derive(Debug, PartialEq, Eq)]
pub enum BaselineFault {
    Acquisition(BindingMismatch),
    FieldGrid,
    FieldQuotaOverflow,
    AdjacentSpacing,
    DepthRange,
    DepthQuotaOverflow,
    PoseCapacityOverflow,
    PoseBins,
    PoseQuotaOverflow,
    ReprojectionGates,
    MinimumGain,
    Digest,
}

impl Clone for BaselineFault {
    fn clone(&self) -> (r: Self)
        ensures
            r == *self,
    {
        match self {
            BaselineFault::Acquisition(value) => BaselineFault::Acquisition(value.clone()),
            BaselineFault::FieldGrid => BaselineFault::FieldGrid,
            BaselineFault::FieldQuotaOverflow => BaselineFault::FieldQuotaOverflow,
            BaselineFault::AdjacentSpacing => BaselineFault::AdjacentSpacing,
            BaselineFault::DepthRange => BaselineFault::DepthRange,
            BaselineFault::DepthQuotaOverflow => BaselineFault::DepthQuotaOverflow,
            BaselineFault::PoseCapacityOverflow => BaselineFault::PoseCapacityOverflow,
            BaselineFault::PoseBins => BaselineFault::PoseBins,
            BaselineFault::PoseQuotaOverflow => BaselineFault::PoseQuotaOverflow,
            BaselineFault::ReprojectionGates => BaselineFault::ReprojectionGates,
            BaselineFault::MinimumGain => BaselineFault::MinimumGain,
            BaselineFault::Digest => BaselineFault::Digest,
        }
    }
}

/// Why an intrinsics binding is unusable.
#[derive(Debug, PartialEq, Eq)]
pub enum IntrinsicsBindingFault {
    Acquisition(BindingMismatch),
    Digest,
}

impl Clone for IntrinsicsBindingFault {
    fn clone(&self) -> (r: Self)
        ensures
            r == *self,
    {
        match self {
            IntrinsicsBindingFault::Acquisition(value) => IntrinsicsBindingFault::Acquisition(value.clone()),
            IntrinsicsBindingFault::Digest => IntrinsicsBindingFault::Digest,
        }
    }
}

/// Why the corners of a detection are unusable.
#[derive(Clone, Copy, Debug, PartialEq, Eq, Structural)]
pub enum GeometryFault {
    OutsideImage,
    /// The smallest distance between neighbouring corners, and the one that is asked for.
    AdjacentSpacing { minimum: Real32, required: Real32 },
}

/// Why a pose estimate is no evidence.
#[derive(Clone, Copy, Debug, PartialEq, Eq, Structural)]
pub enum PnpFault {
    /// Reprojection metrics must be finite and non-negative.
    Metrics,
    /// The stored derived values are not all finite.
    DerivedValues,
    /// The pose vectors are not finite.
    PoseVectors,
    /// The magnitude of the rotation is not finite.
    RotationMagnitude,
    /// Some board point is not in front of the camera; the smallest depth over the board's corners.
    BoardBehindCamera { minimum: Real64 },
    /// Some inner corner is not in front of the camera; its depth.
    CornerBehindCamera { depth: Real64 },
    /// The angles of the board normal are not finite.
    NormalAngles,
    /// The tilt of the board is outside the accepted range.
    Tilt { tilt: Real64, maximum: Real64 },
    /// The root mean square reprojection error is above its gate.
    Rmse { rmse: Real64, maximum: Real64 },
    /// The maximum reprojection error is above its gate.
    MaxError { error: Real64, maximum: Real64 },
    /// Pose evidence came with a detection that found nothing.
    WithoutDetection,
}

/// Errors of [`crate::calibration::session::CalibrationSession`].
#[derive(Debug, PartialEq, Eq)]
#[allow(inconsistent_fields)]
pub enum CalibrationSessionError {
    UnknownItem(CalibrationItemId),
    ItemBusy(CalibrationItemId),
    SourceChanged(CalibrationItemId),
    StaleResult,
    AutoCandidateAlreadyPresent,
    StaleAutoCandidate,
    InvalidAutoCandidateRevision,
    InvalidAutoCandidateIdentity,
    RejectMissingBaseline,
    RejectMissingInitialIntrinsicsBinding,
    RejectAutoAdmissionBindingMismatch(BindingMismatch),
    RejectIncompatibleImageSize { expected: CalibrationImageSize, actual: CalibrationImageSize },
    RejectInsufficientConstraintGain { actual: Real64, minimum: Real64 },
    RejectInvalidCandidateGeometry(GeometryFault),
    RejectInvalidPnP(PnpFault),
    InvalidAutoCaptureBaseline(BaselineFault),
    InvalidInitialIntrinsicsBinding(IntrinsicsBindingFault),
    NotEnoughViews { found: usize, required: usize },
    MixedImageSizes { expected: CalibrationImageSize, actual: CalibrationImageSize },
    InvalidData(CalibrationDataError),
}

impl Clone for CalibrationSessionError {
    fn clone(&self) -> (r: Self)
        ensures
            r == *self,
    {
        match self {
            CalibrationSessionError::UnknownItem(value) => CalibrationSessionError::UnknownItem(*value),
            CalibrationSessionError::ItemBusy(value) => CalibrationSessionError::ItemBusy(*value),
            CalibrationSessionError::SourceChanged(value) => CalibrationSessionError::SourceChanged(*value),
            CalibrationSessionError::StaleResult => CalibrationSessionError::StaleResult,
            CalibrationSessionError::AutoCandidateAlreadyPresent => CalibrationSessionError::AutoCandidateAlreadyPresent,
            CalibrationSessionError::StaleAutoCandidate => CalibrationSessionError::StaleAutoCandidate,
            CalibrationSessionError::InvalidAutoCandidateRevision => CalibrationSessionError::InvalidAutoCandidateRevision,
            CalibrationSessionError::InvalidAutoCandidateIdentity => CalibrationSessionError::InvalidAutoCandidateIdentity,
            CalibrationSessionError::RejectMissingBaseline => CalibrationSessionError::RejectMissingBaseline,
            CalibrationSessionError::RejectMissingInitialIntrinsicsBinding => CalibrationSessionError::RejectMissingInitialIntrinsicsBinding,
            CalibrationSessionError::RejectAutoAdmissionBindingMismatch(value) => CalibrationSessionError::RejectAutoAdmissionBindingMismatch(value.clone()),
            CalibrationSessionError::RejectIncompatibleImageSize { expected, actual } => CalibrationSessionError::RejectIncompatibleImageSize {
                expected: *expected,
                actual: *actual,
            },
            CalibrationSessionError::RejectInsufficientConstraintGain { actual, minimum } => CalibrationSessionError::RejectInsufficientConstraintGain {
                actual: *actual,
                minimum: *minimum,
            },
            CalibrationSessionError::RejectInvalidCandidateGeometry(value) => CalibrationSessionError::RejectInvalidCandidateGeometry(*value),
            CalibrationSessionError::RejectInvalidPnP(value) => CalibrationSessionError::RejectInvalidPnP(*value),
            CalibrationSessionError::InvalidAutoCaptureBaseline(value) => CalibrationSessionError::InvalidAutoCaptureBaseline(value.clone()),
            CalibrationSessionError::InvalidInitialIntrinsicsBinding(value) => CalibrationSessionError::InvalidInitialIntrinsicsBinding(value.clone()),
            CalibrationSessionError::NotEnoughViews { found, required } => CalibrationSessionError::NotEnoughViews {
                found: *found,
                required: *required,
            },
            CalibrationSessionError::MixedImageSizes { expected, actual } => CalibrationSessionError::MixedImageSizes {
                expected: *expected,
                actual: *actual,
            },
            CalibrationSessionError::InvalidData(value) => CalibrationSessionError::InvalidData(*value),
        }
    }
}

/// Errors of reading an encoded calibration image.
#[derive(Clone, Copy, Debug, PartialEq, Eq, Structural)]
pub enum CalibrationInputError {
    SourceChanged { expected: FileVersion, actual: FileVersion },
    EncodedImageTooLarge { size: u64, limit: u64 },
    InvalidPngHeader,
    InvalidData(CalibrationDataError),
}

impl BindingMismatch {
    /// The text of the mismatch.
    pub open spec fn text(self) -> Seq<char> {
        match self {
            BindingMismatch::EmptySourceFingerprint => "acquisition source fingerprint is empty"@,
            BindingMismatch::EmptyGeometryKey => "acquisition geometry key is empty"@,
            BindingMismatch::Board => "baseline BoardSpec does not match active session board"@,
            BindingMismatch::ReferenceImageSize =>
                "baseline image size does not match intrinsics binding reference image size"@,
            BindingMismatch::AcquisitionSource =>
                "baseline acquisition source does not match intrinsics binding"@,
            BindingMismatch::Unpaired =>
                "baseline and InitialIntrinsicsBinding must be configured together"@,
            BindingMismatch::FrameChannel { candidate, frame } => "candidate source channel "@
                + decimal(candidate as nat) + " does not match frame channel "@ + decimal(
                frame as nat,
            ),
            BindingMismatch::NoAcquisitionKey =>
                "automatic candidate token has no acquisition source key"@,
            BindingMismatch::CandidateSource { candidate, baseline } => "candidate source "@
                + candidate@.text() + " does not match active baseline source "@
                + baseline@.text(),
            BindingMismatch::ObservationDigest =>
                "PnP evidence InitialIntrinsicsBinding digest does not match the active K/D binding"@,
        }
    }

    pub fn describe(&self) -> (r: String)
        ensures
            r@ == self.text(),
    {
        match self {
            BindingMismatch::EmptySourceFingerprint =>
                "acquisition source fingerprint is empty".to_owned(),
            BindingMismatch::EmptyGeometryKey => "acquisition geometry key is empty".to_owned(),
            BindingMismatch::Board =>
                "baseline BoardSpec does not match active session board".to_owned(),
            BindingMismatch::ReferenceImageSize =>
                "baseline image size does not match intrinsics binding reference image size".to_owned(),
            BindingMismatch::AcquisitionSource =>
                "baseline acquisition source does not match intrinsics binding".to_owned(),
            BindingMismatch::Unpaired =>
                "baseline and InitialIntrinsicsBinding must be configured together".to_owned(),
            BindingMismatch::FrameChannel { candidate, frame } => {
                let a: String = decimal_text(*candidate as u64);
                let b: String = decimal_text(*frame as u64);
                let head: String = concat3(
                    "candidate source channel ",
                    a.as_str(),
                    " does not match frame channel ",
                );
                concat(head.as_str(), b.as_str())
            },
            BindingMismatch::NoAcquisitionKey =>
                "automatic candidate token has no acquisition source key".to_owned(),
            BindingMismatch::CandidateSource { candidate, baseline } => {
                let head: String = concat3(
                    "candidate source ",
                    candidate.describe().as_str(),
                    " does not match active baseline source ",
                );
                concat(head.as_str(), baseline.describe().as_str())
            },
            BindingMismatch::ObservationDigest =>
                "PnP evidence InitialIntrinsicsBinding digest does not match the active K/D binding".to_owned(),
        }
    }
}

impl BaselineFault {
    /// The text of the fault.
    pub open spec fn text(self) -> Seq<char> {
        match self {
            BaselineFault::Acquisition(mismatch) => "automatic admission binding mismatch: "@
                + mismatch.text(),
            BaselineFault::FieldGrid => "field grid and per-cell target are invalid"@,
            BaselineFault::FieldQuotaOverflow => "field quota target overflows usize"@,
            BaselineFault::AdjacentSpacing =>
                "minimum adjacent spacing must be positive and finite"@,
            BaselineFault::DepthRange =>
                "PnP depth range, bin count, or per-bin target is invalid"@,
            BaselineFault::DepthQuotaOverflow => "depth quota target overflows usize"@,
            BaselineFault::PoseCapacityOverflow => "PnP pose-bin capacity overflows usize"@,
            BaselineFault::PoseBins =>
                "PnP tilt/azimuth bins or per-pose target are invalid"@,
            BaselineFault::PoseQuotaOverflow => "pose quota target overflows usize"@,
            BaselineFault::ReprojectionGates => "PnP reprojection gates are invalid"@,
            BaselineFault::MinimumGain => "minimum automatic Gain must be finite in (0, 1]"@,
            BaselineFault::Digest => "digest does not match baseline fields"@,
        }
    }

    pub fn describe(&self) -> (r: String)
        ensures
            r@ == self.text(),
    {
        match self {
            BaselineFault::Acquisition(mismatch) => concat(
                "automatic admission binding mismatch: ",
                mismatch.describe().as_str(),
            ),
            BaselineFault::FieldGrid => "field grid and per-cell target are invalid".to_owned(),
            BaselineFault::FieldQuotaOverflow => "field quota target overflows usize".to_owned(),
            BaselineFault::AdjacentSpacing =>
                "minimum adjacent spacing must be positive and finite".to_owned(),
            BaselineFault::DepthRange =>
                "PnP depth range, bin count, or per-bin target is invalid".to_owned(),
            BaselineFault::DepthQuotaOverflow => "depth quota target overflows usize".to_owned(),
            BaselineFault::PoseCapacityOverflow =>
                "PnP pose-bin capacity overflows usize".to_owned(),
            BaselineFault::PoseBins =>
                "PnP tilt/azimuth bins or per-pose target are invalid".to_owned(),
            BaselineFault::PoseQuotaOverflow => "pose quota target overflows usize".to_owned(),
            BaselineFault::ReprojectionGates => "PnP reprojection gates are invalid".to_owned(),
            BaselineFault::MinimumGain =>
                "minimum automatic Gain must be finite in (0, 1]".to_owned(),
            BaselineFault::Digest => "digest does not match baseline fields".to_owned(),
        }
    }
}

impl IntrinsicsBindingFault {
    /// The text of the fault.
    pub open spec fn text(self) -> Seq<char> {
        match self {
            IntrinsicsBindingFault::Acquisition(mismatch) =>
                "automatic admission binding mismatch: "@ + mismatch.text(),
            IntrinsicsBindingFault::Digest => "digest does not match binding fields"@,
        }
    }

    pub fn describe(&self) -> (r: String)
        ensures
            r@ == self.text(),
    {
        match self {
            IntrinsicsBindingFault::Acquisition(mismatch) => concat(
                "automatic admission binding mismatch: ",
                mismatch.describe().as_str(),
            ),
            IntrinsicsBindingFault::Digest => "digest does not match binding fields".to_owned(),
        }
    }
}

} // verus!
