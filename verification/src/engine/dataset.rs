//! Calibration datasets: samples of detected boards with references to their images.
use crate::ieee::Real64;
use crate::json::{JsonTree, JsonValue};
use crate::model::ChessboardDetection;
use std::sync::Arc;
use vstd::prelude::*;

verus! {

/// The one kind of dataset payload.
pub const CALIBRATION_DATASET_KIND: &'static str = "calib.dataset.v1";

/// A reference to an image; it holds no pixels.
#[derive(Debug)]
pub struct DatasetImageRef {
    pub reference: String,
    pub width: u32,
    pub height: u32,
    pub format: Option<String>,
}

/// An image reference by its values.
pub struct ImageRefView {
    pub reference: Seq<char>,
    pub width: u32,
    pub height: u32,
    pub format: Option<Seq<char>>,
}

impl View for DatasetImageRef {
    type V = ImageRefView;

    open spec fn view(&self) -> ImageRefView {
        ImageRefView {
            reference: self.reference@,
            width: self.width,
            height: self.height,
            format: match self.format {
                Some(format) => Some(format@),
                None => None,
            },
        }
    }
}

impl Clone for DatasetImageRef {
    fn clone(&self) -> (r: Self)
        ensures
            r@ == self@,
    {
        DatasetImageRef {
            reference: self.reference.clone(),
            width: self.width,
            height: self.height,
            format: match &self.format {
                Some(format) => Some(format.clone()),
                None => None,
            },
        }
    }
}

/// The score of a sample, with the sequence number of its frame.
#[derive(Clone, Copy, Debug, PartialEq, Eq, Structural)]
pub struct DatasetSampleScore {
    pub score: Real64,
    pub frame_sequence: u64,
}

/// Whether a sample was accepted by hand and whether it is enabled.
#[derive(Clone, Copy, Debug, PartialEq, Eq, Structural)]
pub struct DatasetSampleAcceptance {
    pub accepted: bool,
    pub enabled: bool,
}

impl DatasetSampleAcceptance {
    /// Whether a sample takes part in coverage and calibration.
    pub open spec fn counts(self) -> bool {
        self.accepted && self.enabled
    }
}

impl Default for DatasetSampleAcceptance {
    fn default() -> (r: Self)
        ensures
            r == (DatasetSampleAcceptance { accepted: true, enabled: true }),
    {
        DatasetSampleAcceptance { accepted: true, enabled: true }
    }
}

/// A sample of a dataset.
#[derive(Debug)]
pub struct CalibrationDatasetSample {
    pub id: String,
    pub image_ref: DatasetImageRef,
    pub detection: Arc<ChessboardDetection>,
    pub score: Option<DatasetSampleScore>,
    pub acceptance: DatasetSampleAcceptance,
    pub provenance: JsonValue,
}

/// A sample by its values.
pub struct SampleView {
    pub id: Seq<char>,
    pub image_ref: ImageRefView,
    pub detection: ChessboardDetection,
    pub score: Option<DatasetSampleScore>,
    pub acceptance: DatasetSampleAcceptance,
    pub provenance: JsonTree,
}

impl View for CalibrationDatasetSample {
    type V = SampleView;

    open spec fn view(&self) -> SampleView {
        SampleView {
            id: self.id@,
            image_ref: self.image_ref@,
            detection: *self.detection,
            score: self.score,
            acceptance: self.acceptance,
            provenance: self.provenance@,
        }
    }
}

/// Samples by their values.
pub open spec fn sample_views(samples: Seq<CalibrationDatasetSample>) -> Seq<SampleView> {
    samples.map_values(|sample: CalibrationDatasetSample| sample@)
}

/// A dataset.
#[derive(Debug)]
pub struct CalibrationDataset {
    pub kind: String,
    pub board: JsonValue,
    pub samples: Vec<CalibrationDatasetSample>,
    pub count: usize,
    pub selected_sample_id: Option<String>,
}

/// A dataset by its values.
pub struct DatasetView {
    pub kind: Seq<char>,
    pub board: JsonTree,
    pub samples: Seq<SampleView>,
    pub count: usize,
    pub selected_sample_id: Option<Seq<char>>,
}

impl View for CalibrationDataset {
    type V = DatasetView;

    open spec fn view(&self) -> DatasetView {
        DatasetView {
            kind: self.kind@,
            board: self.board@,
            samples: sample_views(self.samples@),
            count: self.count,
            selected_sample_id: match self.selected_sample_id {
                Some(id) => Some(id@),
                None => None,
            },
        }
    }
}

/// The samples that take part in coverage and calibration, in order.
pub open spec fn counted(samples: Seq<SampleView>) -> Seq<SampleView>
    decreases samples.len(),
{
    if samples.len() == 0 {
        Seq::empty()
    } else {
        let rest = counted(samples.drop_last());
        if samples.last().acceptance.counts() {
            rest.push(samples.last())
        } else {
            rest
        }
    }
}

} // verus!
