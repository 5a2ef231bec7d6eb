//! Dataset items and their detection status.
use crate::calibration::admission::AutoCaptureAcquisitionKey;
use crate::calibration::input::{CalibrationInputKey, CalibrationInputRevision, CalibrationItemId};
use crate::calibration::pnp::PnPObservation;
use crate::model::{CalibrationImageSize, ChessboardDetection};
use vstd::prelude::*;

verus! {

/// Where a dataset item stands in the detection pipeline.
#[derive(Debug)]
pub enum CalibrationItemStatus {
    Pending,
    ReadQueued,
    Reading,
    DetectQueued,
    Detecting,
    Found(ChessboardDetection),
    NotFound { image_size: CalibrationImageSize },
    Failed(String),
}

impl CalibrationItemStatus {
    /// Whether a detection job works on the item.
    pub open spec fn busy(self) -> bool {
        self is ReadQueued || self is Reading || self is DetectQueued || self is Detecting
    }

    pub fn is_busy(&self) -> (r: bool)
        ensures
            r == self.busy(),
    {
        match self {
            CalibrationItemStatus::ReadQueued => true,
            CalibrationItemStatus::Reading => true,
            CalibrationItemStatus::DetectQueued => true,
            CalibrationItemStatus::Detecting => true,
            _ => false,
        }
    }
}

/// One image of a dataset.
#[derive(Debug)]
pub struct CalibrationDatasetItem {
    pub id: CalibrationItemId,
    pub input: CalibrationInputKey,
    pub revision: CalibrationInputRevision,
    pub display_name: String,
    pub enabled: bool,
    pub status: CalibrationItemStatus,
    pub acquisition_key: Option<AutoCaptureAcquisitionKey>,
    /// Pose evidence under the dataset's own binding, for progress and preview.
    pub pnp_observation: Option<PnPObservation>,
    /// Pose evidence under the source binding of automatic admission.
    pub admission_pnp_observation: Option<PnPObservation>,
}

/// What became of an input offered to the dataset.
#[derive(Clone, Copy, Debug, PartialEq, Eq, Structural)]
pub enum AddCalibrationItemOutcome {
    Added(CalibrationItemId),
    AlreadyPresent(CalibrationItemId),
    SourceChanged(CalibrationItemId),
}

} // verus!
