//! The dataset collector: samples of detected boards, joined with images and scores of the very same
//! frame.
use crate::asset::share;
use crate::engine::dataset::{
    counted, sample_views, CalibrationDataset, CalibrationDatasetSample, DatasetImageRef,
    DatasetSampleAcceptance, DatasetSampleScore, DatasetView, ImageRefView, SampleView,
    CALIBRATION_DATASET_KIND,
};
use crate::engine::node::{channel_full, NodeAction, NodeError, NodeErrorView};
use crate::engine::nodes::config::{
    config_filled, config_uint, failed, filled_text, in_unit_interval, uint_or, unit_interval,
};

use crate::engine::nodes::frame_cache::{
    entry_index, shrunk, stored, taken, value_of, EntryView, FrameCache,
};
use crate::engine::nodes::frame_text::{
    image_reference, provenance_tree, runtime_image_reference, sample_provenance,
};
use crate::engine::packet::{
    CalibrationFrameScore, DataPacket, DetectionPacket, IdentityView, ImageFrame,
    ImageFrameIdentity, ImageFrameView, PacketView,
};
use crate::engine::runtime::{NodeRuntime, RuntimeView};
use crate::engine::spec::{NodeRuntimeState, NodeSpec};
use crate::ieee::Real64;
use crate::json::{copy_json, JsonTree, JsonValue};
use crate::model::ChessboardDetection;
use crate::text::{concat, concat3, concat5, decimal, decimal_text, same_text};
use std::sync::Arc;
use vstd::prelude::*;

verus! {

impl View for DatasetSampleScore {
    type V = DatasetSampleScore;

    open spec fn view(&self) -> DatasetSampleScore {
        *self
    }
}

/// A sample with the exact identity of its frame.
pub struct CollectedDatasetSample {
    pub id: String,
    pub image_ref: DatasetImageRef,
    pub detection: Arc<ChessboardDetection>,
    pub score: Option<DatasetSampleScore>,
    pub acceptance: DatasetSampleAcceptance,
    pub provenance: JsonValue,
    pub identity: ImageFrameIdentity,
}

/// A collected sample by its values.
#[verifier::ext_equal]
pub struct CollectedView {
    pub sample: SampleView,
    pub identity: IdentityView,
}

impl View for CollectedDatasetSample {
    type V = CollectedView;

    open spec fn view(&self) -> CollectedView {
        CollectedView {
            sample: SampleView {
                id: self.id@,
                image_ref: self.image_ref@,
                detection: *self.detection,
                score: self.score,
                acceptance: self.acceptance,
                provenance: self.provenance@,
            },
            identity: self.identity@,
        }
    }
}

/// Collected samples by their values.
pub open spec fn collected_views(samples: Seq<CollectedDatasetSample>) -> Seq<CollectedView> {
    samples.map_values(|sample: CollectedDatasetSample| sample@)
}

impl CollectedDatasetSample {
    /// The sample as it goes into a dataset.
    pub fn wire(&self) -> (r: CalibrationDatasetSample)
        ensures
            r@ == self@.sample,
    {
        CalibrationDatasetSample {
            id: self.id.clone(),
            image_ref: self.image_ref.clone(),
            detection: share(&self.detection),
            score: self.score,
            acceptance: self.acceptance,
            provenance: copy_json(&self.provenance),
        }
    }
}

/// What a collector holds.
#[verifier::ext_equal]
pub struct CollectorState {
    pub config: JsonTree,
    pub samples: Seq<CollectedView>,
    pub pending_images: Seq<EntryView<ImageRefView>>,
    pub pending_scores: Seq<EntryView<DatasetSampleScore>>,
    pub cached_images: Seq<EntryView<ImageFrameView>>,
    pub selected: Option<Seq<char>>,
    pub next_id: u64,
}

/// The position of the sample of a frame.
pub open spec fn frame_index(samples: Seq<CollectedView>, identity: IdentityView) -> Option<int>
    decreases samples.len(),
{
    if samples.len() == 0 {
        None
    } else {
        match frame_index(samples.drop_last(), identity) {
            Some(i) => Some(i),
            None => if samples.last().identity == identity {
                Some(samples.len() - 1)
            } else {
                None
            },
        }
    }
}

/// The position of the sample with an id.
pub open spec fn id_index(samples: Seq<CollectedView>, id: Seq<char>) -> Option<int>
    decreases samples.len(),
{
    if samples.len() == 0 {
        None
    } else {
        match id_index(samples.drop_last(), id) {
            Some(i) => Some(i),
            None => if samples.last().sample.id == id {
                Some(samples.len() - 1)
            } else {
                None
            },
        }
    }
}

pub proof fn lemma_frame_index(samples: Seq<CollectedView>, identity: IdentityView)
    ensures
        match frame_index(samples, identity) {
            Some(i) => 0 <= i < samples.len() && samples[i].identity == identity && forall|j: int|
                0 <= j < i ==> (#[trigger] samples[j]).identity != identity,
            None => forall|j: int|
                0 <= j < samples.len() ==> (#[trigger] samples[j]).identity != identity,
        },
    decreases samples.len(),
{
    if samples.len() > 0 {
        let init = samples.drop_last();
        lemma_frame_index(init, identity);
        assert forall|j: int| 0 <= j < init.len() implies #[trigger] samples[j] == init[j] by {}
    }
}

pub proof fn lemma_id_index(samples: Seq<CollectedView>, id: Seq<char>)
    ensures
        match id_index(samples, id) {
            Some(i) => 0 <= i < samples.len() && samples[i].sample.id == id && forall|j: int|
                0 <= j < i ==> (#[trigger] samples[j]).sample.id != id,
            None => forall|j: int|
                0 <= j < samples.len() ==> (#[trigger] samples[j]).sample.id != id,
        },
    decreases samples.len(),
{
    if samples.len() > 0 {
        let init = samples.drop_last();
        lemma_id_index(init, id);
        assert forall|j: int| 0 <= j < init.len() implies #[trigger] samples[j] == init[j] by {}
    }
}

/// The most samples that a configuration lets in.
pub open spec fn most_samples(config: JsonTree) -> nat {
    uint_or(config, "maxSamples"@, usize::MAX as u64, 80) as nat
}

/// The error of a configuration that lets no sample in.
pub open spec fn no_samples() -> NodeErrorView {
    NodeErrorView::Config("datasetCollector.maxSamples must be positive"@)
}

/// A state, and the error that came with it.
pub type Step = (CollectorState, Option<NodeErrorView>);

/// Whether a result is the given error, or a success where there is none.
pub open spec fn came_out<T>(r: Result<T, NodeError>, error: Option<NodeErrorView>) -> bool {
    match error {
        Some(error) => failed(r, error),
        None => r is Ok,
    }
}

/// The reference to an image that came in.
pub open spec fn image_ref_of(image: ImageFrameView) -> ImageRefView {
    ImageRefView {
        reference: image_reference(image.identity),
        width: image.width,
        height: image.height,
        format: Some(image.format.label()),
    }
}

/// The reference to an image of which only a detection came in.
pub open spec fn image_ref_without_image(
    identity: IdentityView,
    detection: ChessboardDetection,
) -> ImageRefView {
    ImageRefView {
        reference: image_reference(identity),
        width: detection.image_size.width,
        height: detection.image_size.height,
        format: None,
    }
}

/// An entry of a cache, or the error of a cache that may hold nothing.
pub open spec fn cached<V>(config: JsonTree, entries: Seq<EntryView<V>>, entry: EntryView<V>) -> (
    Seq<EntryView<V>>,
    Option<NodeErrorView>,
) {
    if entry_index(entries, entry.identity) is None && most_samples(config) == 0 {
        (entries, Some(no_samples()))
    } else {
        (stored(entries, entry, most_samples(config)), None)
    }
}

/// The name of the sample with a number.
pub open spec fn sample_name(n: nat) -> Seq<char> {
    "sample-"@ + decimal(n)
}

impl CollectorState {
    /// An image came in: it is kept for previews, and its reference goes to the sample of its frame
    /// or waits for one.
    pub open spec fn image_recorded(self, image: ImageFrameView) -> Step {
        let identity = image.identity;
        let reference = image_ref_of(image);
        let (images, error) = cached(
            self.config,
            self.cached_images,
            EntryView { identity, value: image },
        );
        let kept = CollectorState { cached_images: images, ..self };
        if error is Some {
            (kept, error)
        } else {
            match frame_index(self.samples, identity) {
                Some(i) => (
                    CollectorState {
                        samples: self.samples.update(
                            i,
                            CollectedView {
                                sample: SampleView {
                                    image_ref: reference,
                                    ..self.samples[i].sample
                                },
                                ..self.samples[i]
                            },
                        ),
                        ..kept
                    },
                    None,
                ),
                None => {
                    let (pending, error) = cached(
                        self.config,
                        self.pending_images,
                        EntryView { identity, value: reference },
                    );
                    (CollectorState { pending_images: pending, ..kept }, error)
                },
            }
        }
    }

    /// A score came in: it goes to the sample of its frame or waits for one.
    pub open spec fn score_recorded(self, score: Real64, identity: IdentityView) -> Step {
        let entry = DatasetSampleScore { score, frame_sequence: identity.frame_sequence };
        if !unit_interval(score) {
            (
                self,
                Some(
                    NodeErrorView::Precondition(
                        "datasetCollector.score must be finite and within [0, 1]"@,
                    ),
                ),
            )
        } else {
            match frame_index(self.samples, identity) {
                Some(i) => (
                    CollectorState {
                        samples: self.samples.update(
                            i,
                            CollectedView {
                                sample: SampleView {
                                    score: Some(entry),
                                    ..self.samples[i].sample
                                },
                                ..self.samples[i]
                            },
                        ),
                        ..self
                    },
                    None,
                ),
                None => {
                    let (pending, error) = cached(
                        self.config,
                        self.pending_scores,
                        EntryView { identity, value: entry },
                    );
                    (CollectorState { pending_scores: pending, ..self }, error)
                },
            }
        }
    }

    /// A detection came in: it takes the image and the score that wait for it, and goes to the sample
    /// of its frame or into a new one, where there is room.
    pub open spec fn detection_recorded(
        self,
        detection: ChessboardDetection,
        identity: IdentityView,
    ) -> Step {
        let image = value_of(self.pending_images, identity);
        let score = value_of(self.pending_scores, identity);
        let rest = CollectorState {
            pending_images: taken(self.pending_images, identity),
            pending_scores: taken(self.pending_scores, identity),
            ..self
        };
        match frame_index(self.samples, identity) {
            Some(i) => {
                let earlier = self.samples[i];
                (
                    CollectorState {
                        samples: self.samples.update(
                            i,
                            CollectedView {
                                sample: SampleView {
                                    detection,
                                    image_ref: match image {
                                        Some(image) => image,
                                        None => earlier.sample.image_ref,
                                    },
                                    score: match score {
                                        Some(score) => Some(score),
                                        None => earlier.sample.score,
                                    },
                                    ..earlier.sample
                                },
                                ..earlier
                            },
                        ),
                        ..rest
                    },
                    None,
                )
            },
            None => if most_samples(self.config) == 0 {
                (rest, Some(no_samples()))
            } else if self.samples.len() >= most_samples(self.config) {
                (rest, None)
            } else if self.next_id == u64::MAX {
                (rest, Some(NodeErrorView::Execution("dataset sample id counter overflowed"@)))
            } else {
                (
                    CollectorState {
                        samples: self.samples.push(
                            CollectedView {
                                sample: SampleView {
                                    id: sample_name(self.next_id as nat),
                                    image_ref: match image {
                                        Some(image) => image,
                                        None => image_ref_without_image(identity, detection),
                                    },
                                    detection,
                                    score,
                                    acceptance: DatasetSampleAcceptance {
                                        accepted: true,
                                        enabled: true,
                                    },
                                    provenance: provenance_tree(identity),
                                },
                                identity,
                            },
                        ),
                        next_id: (self.next_id + 1) as u64,
                        ..rest
                    },
                    None,
                )
            },
        }
    }

    /// The dataset of the samples.
    pub open spec fn dataset(self) -> DatasetView {
        DatasetView {
            kind: CALIBRATION_DATASET_KIND@,
            board: match self.config.member("board"@) {
                Some(board) => board,
                None => JsonTree::Null,
            },
            samples: self.samples.map_values(|sample: CollectedView| sample.sample),
            count: self.samples.len() as usize,
            selected_sample_id: self.selected,
        }
    }

    /// A selection that names no sample is dropped.
    pub open spec fn selection_kept(self) -> CollectorState {
        match self.selected {
            Some(id) => if id_index(self.samples, id) is None {
                CollectorState { selected: None, ..self }
            } else {
                self
            },
            None => self,
        }
    }

    /// Nothing is left but the configuration and the counter.
    pub open spec fn cleared(self) -> CollectorState {
        CollectorState {
            samples: Seq::empty(),
            pending_images: Seq::empty(),
            pending_scores: Seq::empty(),
            cached_images: Seq::empty(),
            selected: None,
            ..self
        }
    }

    /// The acceptance of one sample is another.
    pub open spec fn judged(self, i: int, acceptance: DatasetSampleAcceptance) -> CollectorState {
        CollectorState {
            samples: self.samples.update(
                i,
                CollectedView {
                    sample: SampleView { acceptance, ..self.samples[i].sample },
                    ..self.samples[i]
                },
            ),
            ..self
        }
    }

    /// An action on one sample.
    pub open spec fn acted(self, action: Seq<char>, id: Seq<char>) -> Step {
        match id_index(self.samples, id) {
            None => (self, Some(unknown_sample(id))),
            Some(i) => {
                let acceptance = self.samples[i].sample.acceptance;
                if action == "delete"@ {
                    (
                        CollectorState {
                            samples: self.samples.remove(i),
                            ..self
                        }.selection_kept(),
                        None,
                    )
                } else if action == "accept"@ {
                    (
                        self.judged(i, DatasetSampleAcceptance { accepted: true, ..acceptance }),
                        None,
                    )
                } else if action == "reject"@ {
                    (
                        self.judged(i, DatasetSampleAcceptance { accepted: false, ..acceptance }),
                        None,
                    )
                } else if action == "enable"@ {
                    (
                        self.judged(i, DatasetSampleAcceptance { enabled: true, ..acceptance }),
                        None,
                    )
                } else if action == "disable"@ {
                    (
                        self.judged(i, DatasetSampleAcceptance { enabled: false, ..acceptance }),
                        None,
                    )
                } else {
                    (self, Some(NodeErrorView::UnsupportedAction(action)))
                }
            },
        }
    }

    /// The image that a selection shows, or why there is none.
    pub open spec fn preview(self, id: Seq<char>) -> Result<ImageFrameView, NodeErrorView> {
        match id_index(self.samples, id) {
            None => Err(unknown_sample(id)),
            Some(i) => match value_of(self.cached_images, self.samples[i].identity) {
                Some(image) => Ok(image),
                None => Err(
                    NodeErrorView::Precondition(
                        "dataset sample `"@ + id + "` has no exact cached image preview"@,
                    ),
                ),
            },
        }
    }

    /// Another configuration: what no longer fits goes.
    pub open spec fn configured(self, config: JsonTree) -> CollectorState {
        let most = most_samples(config);
        CollectorState {
            config,
            samples: if self.samples.len() > most {
                self.samples.take(most as int)
            } else {
                self.samples
            },
            pending_images: shrunk(self.pending_images, most),
            pending_scores: shrunk(self.pending_scores, most),
            cached_images: shrunk(self.cached_images, most),
            ..self
        }.selection_kept()
    }

    /// The dataset goes out; the flag tells whether it found room.
    pub open spec fn published(self, rt: RuntimeView) -> (RuntimeView, bool) {
        if rt.accepts("dataset"@) {
            (
                rt.emitted("dataset"@, PacketView::Dataset(self.dataset())).noted(
                    "emitted dataset with "@ + decimal(self.samples.len()) + " samples ("@
                        + decimal(counted(self.dataset().samples).len()) + " accepted/enabled)"@,
                ),
                true,
            )
        } else {
            (rt, false)
        }
    }
}

/// The error of an action on a sample that is not there.
pub open spec fn unknown_sample(id: Seq<char>) -> NodeErrorView {
    NodeErrorView::Precondition("dataset sample `"@ + id + "` does not exist"@)
}

/// The error of an action that names no sample.
pub open spec fn unnamed_sample() -> NodeErrorView {
    NodeErrorView::Precondition(
        "datasetCollector sample action requires non-empty payload.sampleId"@,
    )
}

/// Whether an action is on one sample.
pub open spec fn sample_action(name: Seq<char>) -> bool {
    name == "accept"@ || name == "reject"@ || name == "enable"@ || name == "disable"@ || name
        == "delete"@
}

fn is_sample_action(name: &str) -> (r: bool)
    ensures
        r == sample_action(name@),
{
    same_text(name, "accept") || same_text(name, "reject") || same_text(name, "enable")
        || same_text(name, "disable") || same_text(name, "delete")
}

fn sample_id_from_action_payload<'a>(payload: &'a JsonValue) -> (r: Result<&'a str, NodeError>)
    ensures
        match filled_text(payload@, "sampleId"@) {
            Some(id) => r is Ok && r->Ok_0@ == id,
            None => failed(r, unnamed_sample()),
        },
{
    match config_filled(payload, "sampleId") {
        Some(id) => Ok(id),
        None => Err(
            NodeError::precondition(
                "datasetCollector sample action requires non-empty payload.sampleId",
            ),
        ),
    }
}

fn image_ref_from_image(image: &ImageFrame) -> (r: DatasetImageRef)
    ensures
        r@ == image_ref_of(image@),
{
    DatasetImageRef {
        reference: runtime_image_reference(&image.identity),
        width: image.width,
        height: image.height,
        format: Some(image.format.name().to_owned()),
    }
}

fn image_ref_from_detection(
    identity: &ImageFrameIdentity,
    detection: &ChessboardDetection,
) -> (r: DatasetImageRef)
    ensures
        r@ == image_ref_without_image(identity@, *detection),
{
    DatasetImageRef {
        reference: runtime_image_reference(identity),
        width: detection.image_size.width,
        height: detection.image_size.height,
        format: None,
    }
}

pub struct DatasetCollectorFactory;

/// A collector that has seen nothing yet.
pub open spec fn new_collector(config: JsonTree) -> CollectorState {
    CollectorState {
        config,
        samples: Seq::empty(),
        pending_images: Seq::empty(),
        pending_scores: Seq::empty(),
        cached_images: Seq::empty(),
        selected: None,
        next_id: 1,
    }
}

impl DatasetCollectorFactory {
    pub fn kind(&self) -> (r: &'static str)
        ensures
            r@ == "datasetCollector"@,
    {
        "datasetCollector"
    }

    pub fn instantiate(&self, spec: NodeSpec) -> (r: DatasetCollectorNode)
        ensures
            r.spec == spec,
            r@ == new_collector(spec.config@),
    {
        let r = DatasetCollectorNode {
            spec,
            samples: Vec::new(),
            pending_images: FrameCache::new(),
            pending_scores: FrameCache::new(),
            cached_images: FrameCache::new(),
            selected_sample_id: None,
            next_sample_id: 1,
        };
        proof {
            assert(r@.samples =~= Seq::<CollectedView>::empty());
        }
        r
    }
}

/// Collects samples. An image and a score may come before the detection of their frame; they are
/// joined by equal identities only, never by near times.
pub struct DatasetCollectorNode {
    pub spec: NodeSpec,
    pub samples: Vec<CollectedDatasetSample>,
    pub pending_images: FrameCache<DatasetImageRef>,
    pub pending_scores: FrameCache<DatasetSampleScore>,
    pub cached_images: FrameCache<Arc<ImageFrame>>,
    pub selected_sample_id: Option<String>,
    pub next_sample_id: u64,
}

impl View for DatasetCollectorNode {
    type V = CollectorState;

    open spec fn view(&self) -> CollectorState {
        CollectorState {
            config: self.spec.config@,
            samples: collected_views(self.samples@),
            pending_images: self.pending_images@,
            pending_scores: self.pending_scores@,
            cached_images: self.cached_images@,
            selected: match self.selected_sample_id {
                Some(id) => Some(id@),
                None => None,
            },
            next_id: self.next_sample_id,
        }
    }
}

impl DatasetCollectorNode {
    fn max_samples(&self) -> (r: Result<usize, NodeError>)
        ensures
            if most_samples(self@.config) == 0 {
                failed(r, no_samples())
            } else {
                r is Ok && r->Ok_0 == most_samples(self@.config)
            },
    {
        let most: u64 = config_uint(&self.spec.config, "maxSamples", usize::MAX as u64, 80);
        if most == 0 {
            return Err(NodeError::config("datasetCollector.maxSamples must be positive"));
        }
        Ok(most as usize)
    }

    fn sample_of_frame(&self, identity: &ImageFrameIdentity) -> (r: Option<usize>)
        ensures
            match frame_index(self@.samples, identity@) {
                Some(i) => r is Some && r->Some_0 == i && 0 <= i < self.samples@.len(),
                None => r is None,
            },
    {
        let ghost views = self@.samples;
        let mut i: usize = 0;
        while i < self.samples.len()
            invariant
                i <= self.samples@.len() == views.len(),
                views == collected_views(self.samples@),
                forall|j: int| 0 <= j < i ==> (#[trigger] views[j]).identity != identity@,
            decreases self.samples@.len() - i,
        {
            proof {
                assert(views[i as int].identity == self.samples@[i as int].identity@);
            }
            if self.samples[i].identity.eq_value(identity) {
                proof {
                    lemma_frame_index(views, identity@);
                }
                return Some(i);
            }
            i = i + 1;
        }
        proof {
            lemma_frame_index(views, identity@);
        }
        None
    }

    fn sample_with_id(&self, id: &str) -> (r: Option<usize>)
        ensures
            match id_index(self@.samples, id@) {
                Some(i) => r is Some && r->Some_0 == i && 0 <= i < self.samples@.len(),
                None => r is None,
            },
    {
        let ghost views = self@.samples;
        let mut i: usize = 0;
        while i < self.samples.len()
            invariant
                i <= self.samples@.len() == views.len(),
                views == collected_views(self.samples@),
                forall|j: int| 0 <= j < i ==> (#[trigger] views[j]).sample.id != id@,
            decreases self.samples@.len() - i,
        {
            proof {
                assert(views[i as int].sample.id == self.samples@[i as int].id@);
            }
            if same_text(self.samples[i].id.as_str(), id) {
                proof {
                    lemma_id_index(views, id@);
                }
                return Some(i);
            }
            i = i + 1;
        }
        proof {
            lemma_id_index(views, id@);
        }
        None
    }

    fn store_cached_image(&mut self, image: Arc<ImageFrame>) -> (r: Result<(), NodeError>)
        ensures
            final(self).spec == old(self).spec,
            ({
                let (entries, error) = cached(
                    old(self)@.config,
                    old(self)@.cached_images,
                    EntryView { identity: image@.identity, value: image@ },
                );
                came_out(r, error) && final(self)@ == (CollectorState {
                    cached_images: entries,
                    ..old(self)@
                })
            }),
    {
        let identity: ImageFrameIdentity = image.identity.clone();
        let mut most: usize = 1;
        if self.cached_images.find(&identity).is_none() {
            most = match self.max_samples() {
                Ok(most) => most,
                Err(error) => {
                    return Err(error);
                },
            };
        }
        self.cached_images.store(identity, image, most);
        Ok(())
    }

    fn store_pending_image(
        &mut self,
        identity: ImageFrameIdentity,
        image_ref: DatasetImageRef,
    ) -> (r: Result<(), NodeError>)
        ensures
            final(self).spec == old(self).spec,
            ({
                let (entries, error) = cached(
                    old(self)@.config,
                    old(self)@.pending_images,
                    EntryView { identity: identity@, value: image_ref@ },
                );
                came_out(r, error) && final(self)@ == (CollectorState {
                    pending_images: entries,
                    ..old(self)@
                })
            }),
    {
        let mut most: usize = 1;
        if self.pending_images.find(&identity).is_none() {
            most = match self.max_samples() {
                Ok(most) => most,
                Err(error) => {
                    return Err(error);
                },
            };
        }
        self.pending_images.store(identity, image_ref, most);
        Ok(())
    }

    fn store_pending_score(
        &mut self,
        identity: ImageFrameIdentity,
        score: DatasetSampleScore,
    ) -> (r: Result<(), NodeError>)
        ensures
            final(self).spec == old(self).spec,
            ({
                let (entries, error) = cached(
                    old(self)@.config,
                    old(self)@.pending_scores,
                    EntryView { identity: identity@, value: score },
                );
                came_out(r, error) && final(self)@ == (CollectorState {
                    pending_scores: entries,
                    ..old(self)@
                })
            }),
    {
        let mut most: usize = 1;
        if self.pending_scores.find(&identity).is_none() {
            most = match self.max_samples() {
                Ok(most) => most,
                Err(error) => {
                    return Err(error);
                },
            };
        }
        self.pending_scores.store(identity, score, most);
        Ok(())
    }

    fn record_image(&mut self, image: Arc<ImageFrame>) -> (r: Result<(), NodeError>)
        ensures
            final(self).spec == old(self).spec,
            ({
                let (after, error) = old(self)@.image_recorded(image@);
                came_out(r, error) && final(self)@ == after
            }),
    {
        let identity: ImageFrameIdentity = image.identity.clone();
        let image_ref: DatasetImageRef = image_ref_from_image(&image);
        match self.store_cached_image(image) {
            Ok(()) => {},
            Err(error) => {
                return Err(error);
            },
        }
        let ghost before = self@;
        match self.sample_of_frame(&identity) {
            Some(i) => {
                self.samples[i].image_ref = image_ref;
                proof {
                    assert(self@.samples =~= before.samples.update(
                        i as int,
                        CollectedView {
                            sample: SampleView {
                                image_ref: image_ref@,
                                ..before.samples[i as int].sample
                            },
                            ..before.samples[i as int]
                        },
                    ));
                }
                Ok(())
            },
            None => self.store_pending_image(identity, image_ref),
        }
    }

    fn record_score(&mut self, score: &CalibrationFrameScore) -> (r: Result<(), NodeError>)
        ensures
            final(self).spec == old(self).spec,
            ({
                let (after, error) = old(self)@.score_recorded(
                    score.score,
                    score.frame_identity@,
                );
                came_out(r, error) && final(self)@ == after
            }),
    {
        if !in_unit_interval(score.score) {
            return Err(
                NodeError::precondition("datasetCollector.score must be finite and within [0, 1]"),
            );
        }
        let identity: ImageFrameIdentity = score.frame_identity.clone();
        let entry = DatasetSampleScore {
            score: score.score,
            frame_sequence: identity.frame_sequence,
        };
        let ghost before = self@;
        match self.sample_of_frame(&identity) {
            Some(i) => {
                self.samples[i].score = Some(entry);
                proof {
                    assert(self@.samples =~= before.samples.update(
                        i as int,
                        CollectedView {
                            sample: SampleView {
                                score: Some(entry),
                                ..before.samples[i as int].sample
                            },
                            ..before.samples[i as int]
                        },
                    ));
                }
                Ok(())
            },
            None => self.store_pending_score(identity, entry),
        }
    }

    fn next_sample_id(&mut self) -> (r: Result<String, NodeError>)
        ensures
            final(self).spec == old(self).spec,
            if old(self)@.next_id == u64::MAX {
                failed(r, NodeErrorView::Execution("dataset sample id counter overflowed"@))
                    && final(self)@ == old(self)@
            } else {
                r is Ok && r->Ok_0@ == sample_name(old(self)@.next_id as nat) && final(self)@ == (
                CollectorState { next_id: (old(self)@.next_id + 1) as u64, ..old(self)@ })
            },
    {
        let id: u64 = self.next_sample_id;
        match id.checked_add(1) {
            Some(next) => {
                self.next_sample_id = next;
                Ok(concat("sample-", decimal_text(id).as_str()))
            },
            None => Err(NodeError::execution("dataset sample id counter overflowed")),
        }
    }

    fn refresh_sample(
        &mut self,
        i: usize,
        detection: Arc<ChessboardDetection>,
        image: Option<DatasetImageRef>,
        score: Option<DatasetSampleScore>,
    )
        requires
            i < old(self).samples@.len(),
        ensures
            final(self).spec == old(self).spec,
            final(self)@ == ({
                let earlier = old(self)@.samples[i as int];
                CollectorState {
                    samples: old(self)@.samples.update(
                        i as int,
                        CollectedView {
                            sample: SampleView {
                                detection: *detection,
                                image_ref: match image {
                                    Some(image) => image@,
                                    None => earlier.sample.image_ref,
                                },
                                score: match score {
                                    Some(score) => Some(score),
                                    None => earlier.sample.score,
                                },
                                ..earlier.sample
                            },
                            ..earlier
                        },
                    ),
                    ..old(self)@
                }
            }),
    {
        let ghost before = self@;
        self.samples[i].detection = detection;
        match image {
            Some(image) => {
                self.samples[i].image_ref = image;
            },
            None => {},
        }
        match score {
            Some(score) => {
                self.samples[i].score = Some(score);
            },
            None => {},
        }
        proof {
            let after = self@.samples;
            assert forall|j: int| 0 <= j < after.len() && j != i implies #[trigger] after[j]
                == before.samples[j] by {}
        }
    }

    fn record_detection(&mut self, packet: &DetectionPacket) -> (r: Result<(), NodeError>)
        ensures
            final(self).spec == old(self).spec,
            ({
                let (after, error) = old(self)@.detection_recorded(
                    *packet.detection,
                    packet.frame_identity@,
                );
                came_out(r, error) && final(self)@ == after
            }),
    {
        let identity: ImageFrameIdentity = packet.frame_identity.clone();
        let image: Option<DatasetImageRef> = self.pending_images.take(&identity);
        let score: Option<DatasetSampleScore> = self.pending_scores.take(&identity);
        let ghost before = self@;
        proof {
            assert(before == (CollectorState {
                pending_images: taken(old(self)@.pending_images, identity@),
                pending_scores: taken(old(self)@.pending_scores, identity@),
                ..old(self)@
            }));
        }
        match self.sample_of_frame(&identity) {
            Some(i) => {
                self.refresh_sample(i, share(&packet.detection), image, score);
                return Ok(());
            },
            None => {},
        }
        match self.max_samples() {
            Ok(most) => {
                if self.samples.len() >= most {
                    return Ok(());
                }
            },
            Err(error) => {
                return Err(error);
            },
        }
        let image_ref: DatasetImageRef = match image {
            Some(image) => image,
            None => image_ref_from_detection(&identity, &packet.detection),
        };
        let id: String = match self.next_sample_id() {
            Ok(id) => id,
            Err(error) => {
                return Err(error);
            },
        };
        let sample = CollectedDatasetSample {
            id,
            image_ref,
            detection: share(&packet.detection),
            score,
            acceptance: DatasetSampleAcceptance { accepted: true, enabled: true },
            provenance: sample_provenance(&identity),
            identity,
        };
        self.samples.push(sample);
        proof {
            assert(self@.samples =~= before.samples.push(sample@));
        }
        Ok(())
    }

    fn wire_samples(&self) -> (r: (Vec<CalibrationDatasetSample>, usize))
        ensures
            sample_views(r.0@) == self@.dataset().samples,
            r.1 == counted(self@.dataset().samples).len(),
    {
        let ghost views = self@.dataset().samples;
        let mut samples: Vec<CalibrationDatasetSample> = Vec::new();
        let mut eligible: usize = 0;
        let mut i: usize = 0;
        proof {
            assert(views.take(0) =~= Seq::<SampleView>::empty());
            assert(sample_views(samples@) =~= views.take(0));
        }
        while i < self.samples.len()
            invariant
                i <= self.samples@.len() == views.len(),
                views == self@.dataset().samples,
                sample_views(samples@) == views.take(i as int),
                eligible <= i,
                eligible == counted(views.take(i as int)).len(),
            decreases self.samples@.len() - i,
        {
            let sample: CalibrationDatasetSample = self.samples[i].wire();
            let ghost next = views.take(i + 1);
            let ghost before = sample_views(samples@);
            proof {
                assert(next.drop_last() =~= views.take(i as int));
                assert(next.last() == sample@);
            }
            if sample.acceptance.accepted && sample.acceptance.enabled {
                eligible = eligible + 1;
            }
            samples.push(sample);
            proof {
                assert(sample_views(samples@) =~= before.push(sample@));
                assert(next =~= views.take(i as int).push(sample@));
            }
            i = i + 1;
        }
        proof {
            assert(views.take(i as int) =~= views);
        }
        (samples, eligible)
    }

    fn emit_dataset(&self, rt: &mut NodeRuntime) -> (r: Result<(), NodeError>)
        ensures
            final(rt)@ == self@.published(old(rt)@).0,
            if self@.published(old(rt)@).1 {
                r is Ok
            } else {
                failed(r, channel_full())
            },
    {
        let (samples, eligible): (Vec<CalibrationDatasetSample>, usize) = self.wire_samples();
        let count: usize = self.samples.len();
        let board: JsonValue = match self.spec.config.get("board") {
            Some(board) => copy_json(board),
            None => JsonValue::Null,
        };
        let dataset = CalibrationDataset {
            kind: CALIBRATION_DATASET_KIND.to_owned(),
            board,
            samples,
            count,
            selected_sample_id: match &self.selected_sample_id {
                Some(id) => Some(id.clone()),
                None => None,
            },
        };
        match rt.emit("dataset", DataPacket::Dataset(Arc::new(dataset))) {
            Ok(()) => {},
            Err(error) => {
                return Err(error);
            },
        }
        rt.report_event(
            concat5(
                "emitted dataset with ",
                decimal_text(count as u64).as_str(),
                " samples (",
                decimal_text(eligible as u64).as_str(),
                " accepted/enabled)",
            ).as_str(),
        );
        Ok(())
    }

    fn clear_selection_if_missing(&mut self)
        ensures
            final(self)@ == old(self)@.selection_kept(),
            final(self).spec == old(self).spec,
    {
        let missing: bool = match &self.selected_sample_id {
            Some(id) => self.sample_with_id(id.as_str()).is_none(),
            None => false,
        };
        if missing {
            self.selected_sample_id = None;
        }
    }

    fn select_sample(&mut self, sample_id: &str) -> (r: Result<Arc<ImageFrame>, NodeError>)
        ensures
            final(self).spec == old(self).spec,
            match old(self)@.preview(sample_id@) {
                Ok(image) => r is Ok && r->Ok_0@ == image && final(self)@ == (CollectorState {
                    selected: Some(sample_id@),
                    ..old(self)@
                }),
                Err(error) => failed(r, error) && final(self)@ == old(self)@,
            },
    {
        let i: usize = match self.sample_with_id(sample_id) {
            Some(i) => i,
            None => {
                return Err(
                    NodeError::Precondition(
                        concat3("dataset sample `", sample_id, "` does not exist"),
                    ),
                );
            },
        };
        proof {
            assert(self@.samples[i as int].identity == self.samples@[i as int].identity@);
        }
        let image: Arc<ImageFrame> = match self.cached_images.get(&self.samples[i].identity) {
            Some(image) => share(image),
            None => {
                return Err(
                    NodeError::Precondition(
                        concat3(
                            "dataset sample `",
                            sample_id,
                            "` has no exact cached image preview",
                        ),
                    ),
                );
            },
        };
        self.selected_sample_id = Some(sample_id.to_owned());
        Ok(image)
    }

    fn judge(&mut self, i: usize, acceptance: DatasetSampleAcceptance)
        requires
            i < old(self).samples@.len(),
        ensures
            final(self).spec == old(self).spec,
            final(self)@ == old(self)@.judged(i as int, acceptance),
    {
        let ghost before = self@;
        self.samples[i].acceptance = acceptance;
        proof {
            assert(self@.samples =~= before.judged(i as int, acceptance).samples);
        }
    }

    fn apply_sample_action(&mut self, action: &str, sample_id: &str) -> (r: Result<(), NodeError>)
        ensures
            final(self).spec == old(self).spec,
            ({
                let (after, error) = old(self)@.acted(action@, sample_id@);
                came_out(r, error) && final(self)@ == after
            }),
    {
        let i: usize = match self.sample_with_id(sample_id) {
            Some(i) => i,
            None => {
                return Err(
                    NodeError::Precondition(
                        concat3("dataset sample `", sample_id, "` does not exist"),
                    ),
                );
            },
        };
        let mut acceptance: DatasetSampleAcceptance = self.samples[i].acceptance;
        proof {
            assert(self@.samples[i as int].sample.acceptance == acceptance);
        }
        if same_text(action, "delete") {
            let ghost before = self@;
            self.samples.remove(i);
            proof {
                assert(self@.samples =~= before.samples.remove(i as int));
            }
            self.clear_selection_if_missing();
            return Ok(());
        }
        if same_text(action, "accept") {
            acceptance.accepted = true;
        } else if same_text(action, "reject") {
            acceptance.accepted = false;
        } else if same_text(action, "enable") {
            acceptance.enabled = true;
        } else if same_text(action, "disable") {
            acceptance.enabled = false;
        } else {
            return Err(NodeError::UnsupportedAction(action.to_owned()));
        }
        self.judge(i, acceptance);
        Ok(())
    }

    pub fn on_start(&mut self, rt: &mut NodeRuntime) -> (r: Result<(), NodeError>)
        ensures
            r is Ok,
            *final(self) == *old(self),
            final(rt)@ == old(rt)@.reported(
                NodeRuntimeState::Ready,
                "accept calibration samples then trigger"@,
            ),
    {
        rt.report_state(NodeRuntimeState::Ready, "accept calibration samples then trigger");
        Ok(())
    }

    /// Takes an image, a detection or a score in. Every detection publishes the dataset anew.
    pub fn on_input(&mut self, port: &str, packet: DataPacket, rt: &mut NodeRuntime) -> (r: Result<
        (),
        NodeError,
    >)
        ensures
            final(self).spec == old(self).spec,
            came_out(r, taken_in(old(self)@, port@, packet@, old(rt)@).2),
            final(self)@ == taken_in(old(self)@, port@, packet@, old(rt)@).0,
            final(rt)@ == taken_in(old(self)@, port@, packet@, old(rt)@).1,
    {
        proof {
            reveal_strlit("frames");
            reveal_strlit("image");
            reveal_strlit("detection");
            reveal_strlit("score");
            assert("frames"@.len() != "image"@.len());
            assert("frames"@.len() != "detection"@.len());
            assert("frames"@.len() != "score"@.len());
            assert("image"@.len() != "detection"@.len());
            assert("image"@[0] != "score"@[0]);
            assert("detection"@.len() != "score"@.len());
        }
        if same_text(port, "frames") {
            return match packet {
                DataPacket::VideoFrame(frame) => self.record_image(
                    Arc::new(ImageFrame::from_video(&frame)),
                ),
                _ => Err(
                    NodeError::precondition("datasetCollector.frames requires stream.video-frame"),
                ),
            };
        }
        if same_text(port, "image") {
            return match packet {
                DataPacket::ImageFrame(image) => self.record_image(image),
                _ => Err(NodeError::precondition("datasetCollector.image requires image.frame")),
            };
        }
        if same_text(port, "detection") {
            return match packet {
                DataPacket::Detection(detection) => {
                    match self.record_detection(&detection) {
                        Ok(()) => {},
                        Err(error) => {
                            return Err(error);
                        },
                    }
                    self.emit_dataset(rt)
                },
                _ => Err(
                    NodeError::precondition("datasetCollector.detection requires calib.detection"),
                ),
            };
        }
        if same_text(port, "score") {
            return match packet {
                DataPacket::Score(score) => self.record_score(&score),
                _ => Err(NodeError::precondition("datasetCollector.score requires capture.score")),
            };
        }
        Ok(())
    }

    /// Publishes, clears, selects and judges.
    pub fn on_action(&mut self, action: NodeAction, rt: &mut NodeRuntime) -> (r: Result<
        (),
        NodeError,
    >)
        ensures
            final(self).spec == old(self).spec,
            came_out(r, carried_out(old(self)@, action, old(rt)@).2),
            final(self)@ == carried_out(old(self)@, action, old(rt)@).0,
            final(rt)@ == carried_out(old(self)@, action, old(rt)@).1,
    {
        match action {
            NodeAction::Trigger => self.emit_dataset(rt),
            NodeAction::Custom { name, payload } => {
                if same_text(name.as_str(), "clear") {
                    self.samples = Vec::new();
                    self.pending_images.clear();
                    self.pending_scores.clear();
                    self.cached_images.clear();
                    self.selected_sample_id = None;
                    proof {
                        assert(self@ =~= old(self)@.cleared());
                    }
                    match self.emit_dataset(rt) {
                        Ok(()) => {},
                        Err(error) => {
                            return Err(error);
                        },
                    }
                    rt.report_event("dataset cleared");
                    return Ok(());
                }
                if same_text(name.as_str(), "select") {
                    return self.select(&payload, rt);
                }
                if is_sample_action(name.as_str()) {
                    let id: &str = match sample_id_from_action_payload(&payload) {
                        Ok(id) => id,
                        Err(error) => {
                            return Err(error);
                        },
                    };
                    match self.apply_sample_action(name.as_str(), id) {
                        Ok(()) => {},
                        Err(error) => {
                            return Err(error);
                        },
                    }
                    match self.emit_dataset(rt) {
                        Ok(()) => {},
                        Err(error) => {
                            return Err(error);
                        },
                    }
                    rt.report_event(concat3(name.as_str(), " dataset sample ", id).as_str());
                    return Ok(());
                }
                Err(NodeError::UnsupportedAction(name))
            },
            other => Err(NodeError::unsupported(&other)),
        }
    }

    fn select(&mut self, payload: &JsonValue, rt: &mut NodeRuntime) -> (r: Result<(), NodeError>)
        ensures
            final(self).spec == old(self).spec,
            came_out(r, selected(old(self)@, payload@, old(rt)@).2),
            final(self)@ == selected(old(self)@, payload@, old(rt)@).0,
            final(rt)@ == selected(old(self)@, payload@, old(rt)@).1,
    {
        let id: &str = match sample_id_from_action_payload(payload) {
            Ok(id) => id,
            Err(error) => {
                return Err(error);
            },
        };
        let preview: Arc<ImageFrame> = match self.select_sample(id) {
            Ok(preview) => preview,
            Err(error) => {
                return Err(error);
            },
        };
        match rt.emit("preview", DataPacket::ImageFrame(preview)) {
            Ok(()) => {},
            Err(error) => {
                return Err(error);
            },
        }
        match self.emit_dataset(rt) {
            Ok(()) => {},
            Err(error) => {
                return Err(error);
            },
        }
        rt.report_event(concat3("selected dataset sample ", id, " (preview emitted)").as_str());
        Ok(())
    }

    /// Takes a configuration that lets samples in, and drops what no longer fits; another
    /// configuration changes nothing.
    pub fn on_config_update(&mut self, config: JsonValue, _rt: &mut NodeRuntime) -> (r: Result<
        (),
        NodeError,
    >)
        ensures
            final(_rt)@ == old(_rt)@,
            if most_samples(config@) == 0 {
                &&& failed(r, no_samples())
                &&& final(self)@ == old(self)@
                &&& final(self).spec == old(self).spec
            } else {
                &&& r is Ok
                &&& final(self)@ == old(self)@.configured(config@)
                &&& final(self).spec == (NodeSpec { config, ..old(self).spec })
            },
    {
        let most: u64 = config_uint(&config, "maxSamples", usize::MAX as u64, 80);
        if most == 0 {
            return Err(NodeError::config("datasetCollector.maxSamples must be positive"));
        }
        let most: usize = most as usize;
        let ghost before = self@;
        self.spec.config = config;
        if self.samples.len() > most {
            self.samples.truncate(most);
            proof {
                assert(self@.samples =~= before.samples.take(most as int));
            }
        }
        self.pending_images.shrink(most);
        self.pending_scores.shrink(most);
        self.cached_images.shrink(most);
        self.clear_selection_if_missing();
        Ok(())
    }

    pub fn on_stop(&mut self, rt: &mut NodeRuntime) -> (r: Result<(), NodeError>)
        ensures
            r is Ok,
            *final(self) == *old(self),
            final(rt)@ == old(rt)@.reported(NodeRuntimeState::Idle, "stopped"@),
    {
        rt.report_state(NodeRuntimeState::Idle, "stopped");
        Ok(())
    }
}

/// A state, what the node did, and the error that came with it.
pub type Outcome = (CollectorState, RuntimeView, Option<NodeErrorView>);

/// A step that does nothing to the outside.
pub open spec fn quiet(step: Step, rt: RuntimeView) -> Outcome {
    (step.0, rt, step.1)
}

/// A step after which the dataset goes out, with a note where one is given.
pub open spec fn shown(step: Step, rt: RuntimeView, note: Option<Seq<char>>) -> Outcome {
    match step.1 {
        Some(error) => (step.0, rt, Some(error)),
        None => {
            let (after, all) = step.0.published(rt);
            if !all {
                (step.0, after, Some(channel_full()))
            } else {
                match note {
                    Some(note) => (step.0, after.noted(note), None),
                    None => (step.0, after, None),
                }
            }
        },
    }
}

/// What comes of a packet.
pub open spec fn taken_in(
    state: CollectorState,
    port: Seq<char>,
    packet: PacketView,
    rt: RuntimeView,
) -> Outcome {
    if port == "frames"@ {
        match packet {
            PacketView::VideoFrame(frame) => quiet(
                state.image_recorded(ImageFrame::of_video(frame)),
                rt,
            ),
            _ => wrong_packet(state, rt, "datasetCollector.frames requires stream.video-frame"@),
        }
    } else if port == "image"@ {
        match packet {
            PacketView::ImageFrame(image) => quiet(state.image_recorded(image), rt),
            _ => wrong_packet(state, rt, "datasetCollector.image requires image.frame"@),
        }
    } else if port == "detection"@ {
        match packet {
            PacketView::Detection { detection, identity } => shown(
                state.detection_recorded(detection, identity),
                rt,
                None,
            ),
            _ => wrong_packet(state, rt, "datasetCollector.detection requires calib.detection"@),
        }
    } else if port == "score"@ {
        match packet {
            PacketView::Score { score, identity } => quiet(
                state.score_recorded(score, identity),
                rt,
            ),
            _ => wrong_packet(state, rt, "datasetCollector.score requires capture.score"@),
        }
    } else {
        (state, rt, None)
    }
}

/// A packet that does not belong on its port.
pub open spec fn wrong_packet(state: CollectorState, rt: RuntimeView, text: Seq<char>) -> Outcome {
    (state, rt, Some(NodeErrorView::Precondition(text)))
}

/// What comes of a selection: the image goes out first, so that the dataset stays the latest output.
pub open spec fn selected(state: CollectorState, payload: JsonTree, rt: RuntimeView) -> Outcome {
    match filled_text(payload, "sampleId"@) {
        None => (state, rt, Some(unnamed_sample())),
        Some(id) => match state.preview(id) {
            Err(error) => (state, rt, Some(error)),
            Ok(image) => {
                let chosen = CollectorState { selected: Some(id), ..state };
                if !rt.accepts("preview"@) {
                    (chosen, rt, Some(channel_full()))
                } else {
                    shown(
                        (chosen, None),
                        rt.emitted("preview"@, PacketView::ImageFrame(image)),
                        Some("selected dataset sample "@ + id + " (preview emitted)"@),
                    )
                }
            },
        },
    }
}

/// What comes of an action.
pub open spec fn carried_out(
    state: CollectorState,
    action: NodeAction,
    rt: RuntimeView,
) -> Outcome {
    match action {
        NodeAction::Trigger => shown((state, None), rt, None),
        NodeAction::Custom { name, payload } => if name@ == "clear"@ {
            shown((state.cleared(), None), rt, Some("dataset cleared"@))
        } else if name@ == "select"@ {
            selected(state, payload@, rt)
        } else if sample_action(name@) {
            match filled_text(payload@, "sampleId"@) {
                None => (state, rt, Some(unnamed_sample())),
                Some(id) => shown(
                    state.acted(name@, id),
                    rt,
                    Some(name@ + " dataset sample "@ + id),
                ),
            }
        } else {
            (state, rt, Some(NodeErrorView::UnsupportedAction(name@)))
        },
        _ => (state, rt, Some(NodeErrorView::UnsupportedAction(action.label()))),
    }
}

} // verus!
