//! The calibration session: a dataset, its detection jobs, automatic admission and the installed
//! solution, changed one transaction at a time.
use crate::calibration::admission::{
    admission_fault, check_admission, dataset_binding_digest, dataset_digest,
    AutoCandidateAdmission, AutoCaptureAcceptanceCriteria, AutoCaptureAcquisitionKey,
    AutoCaptureBaseline, InitialIntrinsicsBinding,
};
use crate::calibration::assess::{
    admission_assessed, admission_covers, assess_auto_admission_with, assess_dataset_acceptance,
    candidate_cover, gain_over, AutoAdmissionAssessment, CandidateEvidence, CoverageView,
    DetectionMeasurement, ItemMeasurement, RawGain,
};
use crate::calibration::error::{BindingMismatch, CalibrationSessionError, PnpFault};
use crate::calibration::input::{
    AutoCandidateId, CalibrationInputKey, CalibrationInputRevision, CalibrationItemId, InputKeyView,
    RevisionView, StreamCaptureId,
};
use crate::calibration::item::{
    AddCalibrationItemOutcome, CalibrationDatasetItem, CalibrationItemStatus,
};
use crate::calibration::pnp::{PnPObservation, PnpMeasurement, PoseMeasurement};
use crate::digest::SnapshotHash;
use crate::ieee::Real64;
use crate::model::{
    corner_lists, request_fault, view_fault, BoardSpec, CalibrationImageSize, CalibrationPoint,
    CalibrationRequest, CalibrationSolution, ChessboardDetection, ChessboardDetectionOutcome,
    InitialIntrinsics,
};
use crate::source::StreamFrameIdentity;
use std::collections::HashMap;
use vstd::prelude::*;

verus! {

broadcast use vstd::std_specs::hash::group_hash_axioms;

/// The smallest number of views that a calibration is run on.
pub const MIN_CALIBRATION_VIEWS: usize = 3;

/// The right to report on one detection job.
#[derive(Debug)]
pub struct CalibrationJobToken {
    item_id: CalibrationItemId,
    detection_epoch: u64,
    job_id: u64,
    source_revision: CalibrationInputRevision,
    board: BoardSpec,
}

/// A job token by its values.
pub struct JobTokenView {
    pub item_id: CalibrationItemId,
    pub detection_epoch: u64,
    pub job_id: u64,
    pub source_revision: CalibrationInputRevision,
    pub board: BoardSpec,
}

impl View for CalibrationJobToken {
    type V = JobTokenView;

    closed spec fn view(&self) -> JobTokenView {
        JobTokenView {
            item_id: self.item_id,
            detection_epoch: self.detection_epoch,
            job_id: self.job_id,
            source_revision: self.source_revision,
            board: self.board,
        }
    }
}

impl CalibrationJobToken {
    pub fn item_id(&self) -> (r: CalibrationItemId)
        ensures
            r == self@.item_id,
    {
        self.item_id
    }

    pub fn board(&self) -> (r: BoardSpec)
        ensures
            r == self@.board,
    {
        self.board
    }

    pub fn source_revision(&self) -> (r: &CalibrationInputRevision)
        ensures
            *r == self@.source_revision,
    {
        &self.source_revision
    }
}

/// What a live candidate stays bound to from its frozen image to its commit.
#[derive(Debug)]
pub struct AutoCandidateToken {
    id: AutoCandidateId,
    input: CalibrationInputKey,
    source_revision: CalibrationInputRevision,
    display_name: String,
    frame_identity: StreamFrameIdentity,
    source_acquisition_key: Option<AutoCaptureAcquisitionKey>,
    board: BoardSpec,
    fit_manifest_revision: u64,
    admission_revision: u64,
}

/// A candidate token by its values.
pub struct CandidateTokenView {
    pub id: AutoCandidateId,
    pub input: CalibrationInputKey,
    pub source_revision: CalibrationInputRevision,
    pub display_name: String,
    pub frame_identity: StreamFrameIdentity,
    pub source_acquisition_key: Option<AutoCaptureAcquisitionKey>,
    pub board: BoardSpec,
    pub fit_manifest_revision: u64,
    pub admission_revision: u64,
}

impl View for AutoCandidateToken {
    type V = CandidateTokenView;

    closed spec fn view(&self) -> CandidateTokenView {
        CandidateTokenView {
            id: self.id,
            input: self.input,
            source_revision: self.source_revision,
            display_name: self.display_name,
            frame_identity: self.frame_identity,
            source_acquisition_key: self.source_acquisition_key,
            board: self.board,
            fit_manifest_revision: self.fit_manifest_revision,
            admission_revision: self.admission_revision,
        }
    }
}

impl AutoCandidateToken {
    pub fn id(&self) -> (r: AutoCandidateId)
        ensures
            r == self@.id,
    {
        self.id
    }

    pub fn board(&self) -> (r: BoardSpec)
        ensures
            r == self@.board,
    {
        self.board
    }

    pub fn source_revision(&self) -> (r: &CalibrationInputRevision)
        ensures
            *r == self@.source_revision,
    {
        &self.source_revision
    }

    pub fn frame_identity(&self) -> (r: &StreamFrameIdentity)
        ensures
            *r == self@.frame_identity,
    {
        &self.frame_identity
    }

    pub fn admission_revision(&self) -> (r: u64)
        ensures
            r == self@.admission_revision,
    {
        self.admission_revision
    }
}

/// A candidate with its detection and its evidence, offered for commit.
#[derive(Debug)]
pub struct AutoCandidateCommit {
    pub token: AutoCandidateToken,
    pub observed_revision: CalibrationInputRevision,
    pub detection: ChessboardDetection,
    pub pnp_observation: PnPObservation,
}

impl AutoCandidateCommit {
    pub fn new(
        token: AutoCandidateToken,
        observed_revision: CalibrationInputRevision,
        detection: ChessboardDetection,
        pnp_observation: PnPObservation,
    ) -> (r: AutoCandidateCommit)
        ensures
            r == (AutoCandidateCommit { token, observed_revision, detection, pnp_observation }),
    {
        AutoCandidateCommit { token, observed_revision, detection, pnp_observation }
    }
}

/// The views of a dataset at one solution revision, ready to be solved.
#[derive(Debug)]
pub struct CalibrationSnapshot {
    pub item_ids: Vec<CalibrationItemId>,
    pub request: CalibrationRequest,
    /// The solution revision that the snapshot was taken at.
    pub solution_revision: u64,
}

/// A solution with the views that it was computed from.
#[derive(Debug)]
pub struct InstalledCalibration {
    pub item_ids: Vec<CalibrationItemId>,
    pub request: CalibrationRequest,
    pub solution: CalibrationSolution,
}

/// What is known of a candidate that passed every check but the one on its gain.
#[derive(Clone, Copy, Debug, PartialEq, Eq, Structural)]
struct ScreenedCandidate {
    gain: RawGain,
    corner_count: usize,
    minimum: Real64,
    dataset_digest: SnapshotHash,
}

/// Pose evidence with what was computed from it.
#[derive(Clone, Copy, Debug)]
pub struct PnpEvidence {
    pub observation: PnPObservation,
    pub pose: PoseMeasurement,
}

/// A calibration session.
pub struct CalibrationSession {
    board: BoardSpec,
    items: Vec<CalibrationDatasetItem>,
    selected: Option<CalibrationItemId>,
    installed: Option<InstalledCalibration>,
    active_auto_baseline: Option<AutoCaptureBaseline>,
    active_initial_intrinsics_binding: Option<InitialIntrinsicsBinding>,
    solution_revision: u64,
    detection_epoch: u64,
    auto_admission_revision: u64,
    active_detection_jobs: HashMap<u64, u64>,
    next_detection_job_id: u64,
    next_id: u64,
}

/// A calibration session by its values.
#[verifier::ext_equal]
pub struct SessionState {
    pub board: BoardSpec,
    pub items: Seq<CalibrationDatasetItem>,
    pub selected: Option<CalibrationItemId>,
    pub installed: Option<InstalledCalibration>,
    pub baseline: Option<AutoCaptureBaseline>,
    pub binding: Option<InitialIntrinsicsBinding>,
    pub solution_revision: u64,
    pub detection_epoch: u64,
    pub admission_revision: u64,
    /// The running job of each busy item.
    pub jobs: Map<u64, u64>,
    pub next_job: u64,
    pub next_id: u64,
}

impl View for CalibrationSession {
    type V = SessionState;

    closed spec fn view(&self) -> SessionState {
        SessionState {
            board: self.board,
            items: self.items@,
            selected: self.selected,
            installed: self.installed,
            baseline: self.active_auto_baseline,
            binding: self.active_initial_intrinsics_binding,
            solution_revision: self.solution_revision,
            detection_epoch: self.detection_epoch,
            admission_revision: self.auto_admission_revision,
            jobs: self.active_detection_jobs@,
            next_job: self.next_detection_job_id,
            next_id: self.next_id,
        }
    }
}

/// The next revision; the largest is followed by zero.
pub open spec fn next_revision(n: u64) -> u64 {
    if n == u64::MAX {
        0
    } else {
        (n + 1) as u64
    }
}

/// The next identity; the largest is followed by one.
pub open spec fn next_identity(n: u64) -> u64 {
    if n == u64::MAX {
        1
    } else {
        (n + 1) as u64
    }
}

fn advance_revision(n: u64) -> (r: u64)
    ensures
        r == next_revision(n),
{
    if n == u64::MAX {
        0
    } else {
        n + 1
    }
}

fn advance_identity(n: u64) -> (r: u64)
    ensures
        r == next_identity(n),
{
    if n == u64::MAX {
        1
    } else {
        n + 1
    }
}

/// The first item with the given identity.
pub open spec fn index_of(items: Seq<CalibrationDatasetItem>, id: CalibrationItemId) -> Option<int>
    decreases items.len(),
{
    if items.len() == 0 {
        None
    } else {
        match index_of(items.drop_last(), id) {
            Some(i) => Some(i),
            None => if items.last().id == id {
                Some(items.len() - 1)
            } else {
                None
            },
        }
    }
}

/// The first item made from the given input.
pub open spec fn input_index(items: Seq<CalibrationDatasetItem>, input: InputKeyView) -> Option<int>
    decreases items.len(),
{
    if items.len() == 0 {
        None
    } else {
        match input_index(items.drop_last(), input) {
            Some(i) => Some(i),
            None => if items.last().input@ == input {
                Some(items.len() - 1)
            } else {
                None
            },
        }
    }
}

/// What the first item with an identity is.
pub proof fn lemma_index_of(items: Seq<CalibrationDatasetItem>, id: CalibrationItemId)
    ensures
        match index_of(items, id) {
            Some(i) => 0 <= i < items.len() && items[i].id == id && forall|j: int|
                0 <= j < i ==> (#[trigger] items[j]).id != id,
            None => forall|j: int| 0 <= j < items.len() ==> (#[trigger] items[j]).id != id,
        },
    decreases items.len(),
{
    if items.len() > 0 {
        let init = items.drop_last();
        lemma_index_of(init, id);
        match index_of(init, id) {
            Some(i) => {
                assert(init[i] == items[i]);
                assert forall|j: int| 0 <= j < i implies (#[trigger] items[j]).id != id by {
                    assert(init[j] == items[j]);
                }
            },
            None => {
                assert forall|j: int| 0 <= j < items.len() - 1 implies (#[trigger] items[j]).id
                    != id by {
                    assert(init[j] == items[j]);
                }
            },
        }
    }
}

/// What the first item made from an input is.
pub proof fn lemma_input_index(items: Seq<CalibrationDatasetItem>, input: InputKeyView)
    ensures
        match input_index(items, input) {
            Some(i) => 0 <= i < items.len() && items[i].input@ == input && forall|j: int|
                0 <= j < i ==> (#[trigger] items[j]).input@ != input,
            None => forall|j: int| 0 <= j < items.len() ==> (#[trigger] items[j]).input@ != input,
        },
    decreases items.len(),
{
    if items.len() > 0 {
        let init = items.drop_last();
        lemma_input_index(init, input);
        match input_index(init, input) {
            Some(i) => {
                assert(init[i] == items[i]);
                assert forall|j: int| 0 <= j < i implies (#[trigger] items[j]).input@ != input by {
                    assert(init[j] == items[j]);
                }
            },
            None => {
                assert forall|j: int| 0 <= j < items.len() - 1 implies (#[trigger] items[j]).input@
                    != input by {
                    assert(init[j] == items[j]);
                }
            },
        }
    }
}

/// An item that no job works on any more.
pub open spec fn idle_item(item: CalibrationDatasetItem) -> CalibrationDatasetItem {
    if item.status.busy() {
        CalibrationDatasetItem { status: CalibrationItemStatus::Pending, ..item }
    } else {
        item
    }
}

/// An item without any detection result.
pub open spec fn reset_item(item: CalibrationDatasetItem) -> CalibrationDatasetItem {
    CalibrationDatasetItem {
        status: CalibrationItemStatus::Pending,
        pnp_observation: None,
        admission_pnp_observation: None,
        ..item
    }
}

/// An item after the board has changed: poses are gone, and so is the detection if the corner
/// layout changed or a job was working on it.
pub open spec fn reboarded_item(item: CalibrationDatasetItem, layout_changed: bool) -> CalibrationDatasetItem {
    if layout_changed || item.status.busy() {
        reset_item(item)
    } else {
        CalibrationDatasetItem { pnp_observation: None, admission_pnp_observation: None, ..item }
    }
}

impl SessionState {
    /// A new session.
    pub open spec fn fresh(board: BoardSpec) -> SessionState {
        SessionState {
            board,
            items: Seq::empty(),
            selected: None,
            installed: None,
            baseline: None,
            binding: None,
            solution_revision: 1,
            detection_epoch: 1,
            admission_revision: 1,
            jobs: Map::empty(),
            next_job: 1,
            next_id: 1,
        }
    }

    /// The installed solution is void, and so is every snapshot taken so far.
    pub open spec fn solution_voided(self) -> SessionState {
        SessionState {
            solution_revision: next_revision(self.solution_revision),
            installed: None,
            ..self
        }
    }

    /// Every job token given out so far is void, and the solution with them.
    pub open spec fn jobs_voided(self) -> SessionState {
        SessionState {
            detection_epoch: next_revision(self.detection_epoch),
            jobs: Map::empty(),
            items: self.items.map_values(|item: CalibrationDatasetItem| idle_item(item)),
            ..self
        }.solution_voided()
    }

    /// Every uncommitted candidate is void.
    pub open spec fn candidates_voided(self) -> SessionState {
        SessionState { admission_revision: next_identity(self.admission_revision), ..self }
    }

    /// One item is replaced.
    pub open spec fn with_item(self, i: int, item: CalibrationDatasetItem) -> SessionState {
        SessionState { items: self.items.update(i, item), ..self }
    }

    /// The item with the given identity.
    pub open spec fn item(self, id: CalibrationItemId) -> CalibrationDatasetItem {
        self.items[index_of(self.items, id)->Some_0]
    }

    /// The item with the given identity is replaced.
    pub open spec fn with(self, id: CalibrationItemId, item: CalibrationDatasetItem) -> SessionState {
        self.with_item(index_of(self.items, id)->Some_0, item)
    }

    /// The board is another one.
    pub open spec fn reboarded(self, board: BoardSpec) -> SessionState {
        let layout_changed = self.board.inner_cols != board.inner_cols || self.board.inner_rows
            != board.inner_rows;
        SessionState {
            board,
            baseline: None,
            binding: None,
            items: self.items.map_values(
                |item: CalibrationDatasetItem| reboarded_item(item, layout_changed),
            ),
            ..self
        }.candidates_voided().jobs_voided()
    }

    /// No item has a detection result.
    pub open spec fn detections_reset(self) -> SessionState {
        SessionState {
            items: self.items.map_values(|item: CalibrationDatasetItem| reset_item(item)),
            ..self
        }.jobs_voided()
    }

    /// A new item stands at the end of the dataset.
    pub open spec fn appended(self, item: CalibrationDatasetItem) -> SessionState {
        SessionState {
            items: self.items.push(item),
            next_id: next_identity(self.next_id),
            ..self
        }
    }

    /// What forbids starting a detection, if anything does.
    pub open spec fn begin_fault(self, id: CalibrationItemId) -> Option<CalibrationSessionError> {
        if self.jobs.contains_key(id.0) {
            Some(CalibrationSessionError::ItemBusy(id))
        } else if index_of(self.items, id) is None {
            Some(CalibrationSessionError::UnknownItem(id))
        } else if self.item(id).status.busy() {
            Some(CalibrationSessionError::ItemBusy(id))
        } else {
            None
        }
    }

    /// A detection has started with the given status.
    pub open spec fn begun(self, id: CalibrationItemId, status: CalibrationItemStatus) -> SessionState {
        SessionState {
            jobs: self.jobs.insert(id.0, self.next_job),
            next_job: next_identity(self.next_job),
            ..self.with(id, CalibrationDatasetItem { status, ..self.item(id) })
        }.solution_voided()
    }

    /// The token of a detection that starts now.
    pub open spec fn token_for(self, id: CalibrationItemId) -> JobTokenView {
        JobTokenView {
            item_id: id,
            detection_epoch: self.detection_epoch,
            job_id: self.next_job,
            source_revision: self.item(id).revision,
            board: self.board,
        }
    }

    /// What makes a token void, if anything does.
    pub open spec fn token_fault(self, t: JobTokenView) -> Option<CalibrationSessionError> {
        if t.detection_epoch != self.detection_epoch || !t.board.same(self.board) {
            Some(CalibrationSessionError::StaleResult)
        } else if index_of(self.items, t.item_id) is None {
            Some(CalibrationSessionError::UnknownItem(t.item_id))
        } else if self.item(t.item_id).revision@ != t.source_revision@ {
            Some(CalibrationSessionError::SourceChanged(t.item_id))
        } else {
            None
        }
    }

    /// What makes a token no longer the running job of its item, if anything does.
    pub open spec fn active_token_fault(self, t: JobTokenView) -> Option<CalibrationSessionError> {
        match self.token_fault(t) {
            Some(e) => Some(e),
            None => if !(self.jobs.contains_key(t.item_id.0) && self.jobs[t.item_id.0] == t.job_id)
                || !self.item(t.item_id).status.busy() {
                Some(CalibrationSessionError::StaleResult)
            } else {
                None
            },
        }
    }

    /// A job has ended and left the given item behind.
    pub open spec fn job_ended(self, id: CalibrationItemId, item: CalibrationDatasetItem) -> SessionState {
        SessionState { jobs: self.jobs.remove(id.0), ..self.with(id, item) }.solution_voided()
    }
}

impl CalibrationSession {
    pub fn new(board: BoardSpec) -> (r: CalibrationSession)
        ensures
            r@ == SessionState::fresh(board),
    {
        CalibrationSession {
            board,
            items: Vec::new(),
            selected: None,
            installed: None,
            active_auto_baseline: None,
            active_initial_intrinsics_binding: None,
            solution_revision: 1,
            detection_epoch: 1,
            auto_admission_revision: 1,
            active_detection_jobs: HashMap::new(),
            next_detection_job_id: 1,
            next_id: 1,
        }
    }

    pub fn board(&self) -> (r: BoardSpec)
        ensures
            r == self@.board,
    {
        self.board
    }

    pub fn items(&self) -> (r: &Vec<CalibrationDatasetItem>)
        ensures
            r@ == self@.items,
    {
        &self.items
    }

    pub fn selected(&self) -> (r: Option<CalibrationItemId>)
        ensures
            r == self@.selected,
    {
        self.selected
    }

    pub fn installed(&self) -> (r: Option<&InstalledCalibration>)
        ensures
            r == (match self@.installed {
                Some(installed) => Some(&installed),
                None => None,
            }),
    {
        self.installed.as_ref()
    }

    pub fn auto_capture_baseline(&self) -> (r: Option<&AutoCaptureBaseline>)
        ensures
            r == (match self@.baseline {
                Some(baseline) => Some(&baseline),
                None => None,
            }),
    {
        self.active_auto_baseline.as_ref()
    }

    pub fn initial_intrinsics_binding(&self) -> (r: Option<&InitialIntrinsicsBinding>)
        ensures
            r == (match self@.binding {
                Some(binding) => Some(&binding),
                None => None,
            }),
    {
        self.active_initial_intrinsics_binding.as_ref()
    }

    /// The item with an identity.
    pub fn item(&self, id: CalibrationItemId) -> (r: Result<
        &CalibrationDatasetItem,
        CalibrationSessionError,
    >)
        ensures
            match index_of(self@.items, id) {
                Some(i) => r is Ok && *r->Ok_0 == self@.items[i],
                None => r == Err::<&CalibrationDatasetItem, CalibrationSessionError>(
                    CalibrationSessionError::UnknownItem(id),
                ),
            },
    {
        match self.find(id) {
            Some(i) => Ok(&self.items[i]),
            None => Err(CalibrationSessionError::UnknownItem(id)),
        }
    }

    /// The item with an identity, to be changed in place. Nothing else changes with it: neither
    /// revisions nor running jobs.
    pub fn item_mut(&mut self, id: CalibrationItemId) -> (r: Result<
        &mut CalibrationDatasetItem,
        CalibrationSessionError,
    >)
        ensures
            match index_of(old(self)@.items, id) {
                Some(i) => {
                    &&& r is Ok
                    &&& *r->Ok_0 == old(self)@.items[i]
                    &&& final(self)@ == old(self)@.with_item(i, *final(r->Ok_0))
                },
                None => r is Err && r->Err_0 == CalibrationSessionError::UnknownItem(id)
                    && final(self)@ == old(self)@,
            },
    {
        match self.find(id) {
            Some(i) => Ok(&mut self.items[i]),
            None => Err(CalibrationSessionError::UnknownItem(id)),
        }
    }

    /// Finds an item by its identity.
    fn find(&self, id: CalibrationItemId) -> (r: Option<usize>)
        ensures
            match r {
                Some(i) => index_of(self@.items, id) == Some(i as int) && i < self.items@.len()
                    && self.items@[i as int].id == id,
                None => index_of(self@.items, id) is None,
            },
    {
        let mut i: usize = 0;
        while i < self.items.len()
            invariant
                i <= self.items@.len(),
                forall|j: int| 0 <= j < i ==> (#[trigger] self.items@[j]).id != id,
            decreases self.items@.len() - i,
        {
            if self.items[i].id == id {
                proof {
                    lemma_index_of(self.items@, id);
                    assert(self.items@[i as int].id == id);
                }
                return Some(i);
            }
            i = i + 1;
        }
        proof {
            lemma_index_of(self.items@, id);
        }
        None
    }

    /// Finds an item by its input.
    fn find_input(&self, input: &CalibrationInputKey) -> (r: Option<usize>)
        ensures
            match r {
                Some(i) => input_index(self@.items, input@) == Some(i as int) && i
                    < self.items@.len(),
                None => input_index(self@.items, input@) is None,
            },
    {
        let mut i: usize = 0;
        while i < self.items.len()
            invariant
                i <= self.items@.len(),
                forall|j: int| 0 <= j < i ==> (#[trigger] self.items@[j]).input@ != input@,
            decreases self.items@.len() - i,
        {
            if self.items[i].input.eq_value(input) {
                proof {
                    lemma_input_index(self.items@, input@);
                    assert(self.items@[i as int].input@ == input@);
                }
                return Some(i);
            }
            i = i + 1;
        }
        proof {
            lemma_input_index(self.items@, input@);
        }
        None
    }

    fn invalidate_solution(&mut self)
        ensures
            final(self)@ == old(self)@.solution_voided(),
    {
        self.solution_revision = advance_revision(self.solution_revision);
        self.installed = None;
    }

    fn invalidate_detection_epoch(&mut self)
        ensures
            final(self)@ == old(self)@.jobs_voided(),
    {
        self.detection_epoch = advance_revision(self.detection_epoch);
        self.active_detection_jobs.clear();
        let ghost before = self.items@;
        let ghost idle = |item: CalibrationDatasetItem| idle_item(item);
        let ghost rest = self@;
        let mut i: usize = 0;
        while i < self.items.len()
            invariant
                i <= self.items@.len() == before.len(),
                idle == (|item: CalibrationDatasetItem| idle_item(item)),
                forall|j: int| 0 <= j < i ==> #[trigger] self.items@[j] == idle_item(before[j]),
                forall|j: int| i <= j < before.len() ==> #[trigger] self.items@[j] == before[j],
                self@ == (SessionState { items: self.items@, ..rest }),
            decreases self.items@.len() - i,
        {
            if self.items[i].status.is_busy() {
                self.items[i].status = CalibrationItemStatus::Pending;
            }
            i = i + 1;
        }
        proof {
            assert(self.items@ =~= before.map_values(idle));
        }
        self.invalidate_solution();
    }

    /// Voids every uncommitted candidate; detection tokens stay.
    pub fn invalidate_auto_admission(&mut self)
        ensures
            final(self)@ == old(self)@.candidates_voided(),
    {
        self.auto_admission_revision = advance_identity(self.auto_admission_revision);
    }

    /// Changes the board. A new corner layout resets every detection; a new spacing alone keeps
    /// them and voids poses and the solution.
    pub fn set_board(&mut self, board: BoardSpec) -> (r: Result<(), CalibrationSessionError>)
        ensures
            match board.fault() {
                Some(e) => r == Err::<(), CalibrationSessionError>(
                    CalibrationSessionError::InvalidData(e),
                ) && final(self)@ == old(self)@,
                None => r is Ok && final(self)@ == (if old(self)@.board.same(board) {
                    old(self)@
                } else {
                    old(self)@.reboarded(board)
                }),
            },
    {
        match board.validate() {
            Err(e) => {
                return Err(CalibrationSessionError::InvalidData(e));
            },
            Ok(()) => {},
        }
        if self.board.eq_value(&board) {
            return Ok(());
        }
        let layout_changed: bool = self.board.inner_cols != board.inner_cols
            || self.board.inner_rows != board.inner_rows;
        self.board = board;
        self.active_auto_baseline = None;
        self.active_initial_intrinsics_binding = None;
        self.invalidate_auto_admission();
        let ghost before = self.items@;
        let ghost rest = self@;
        let ghost change = |item: CalibrationDatasetItem| reboarded_item(item, layout_changed);
        let mut i: usize = 0;
        while i < self.items.len()
            invariant
                i <= self.items@.len() == before.len(),
                change == (|item: CalibrationDatasetItem| reboarded_item(item, layout_changed)),
                forall|j: int|
                    0 <= j < i ==> #[trigger] self.items@[j] == reboarded_item(
                        before[j],
                        layout_changed,
                    ),
                forall|j: int| i <= j < before.len() ==> #[trigger] self.items@[j] == before[j],
                self@ == (SessionState { items: self.items@, ..rest }),
            decreases self.items@.len() - i,
        {
            if layout_changed || self.items[i].status.is_busy() {
                self.items[i].status = CalibrationItemStatus::Pending;
            }
            self.items[i].pnp_observation = None;
            self.items[i].admission_pnp_observation = None;
            i = i + 1;
        }
        proof {
            assert(self.items@ =~= before.map_values(change));
        }
        self.invalidate_detection_epoch();
        Ok(())
    }

    /// Drops every detection and the solution; dataset, selection and use flags stay.
    pub fn reset_detections(&mut self)
        ensures
            final(self)@ == old(self)@.detections_reset(),
    {
        let ghost before = self.items@;
        let ghost rest = self@;
        let ghost change = |item: CalibrationDatasetItem| reset_item(item);
        let mut i: usize = 0;
        while i < self.items.len()
            invariant
                i <= self.items@.len() == before.len(),
                change == (|item: CalibrationDatasetItem| reset_item(item)),
                forall|j: int| 0 <= j < i ==> #[trigger] self.items@[j] == reset_item(before[j]),
                forall|j: int| i <= j < before.len() ==> #[trigger] self.items@[j] == before[j],
                self@ == (SessionState { items: self.items@, ..rest }),
            decreases self.items@.len() - i,
        {
            self.items[i].status = CalibrationItemStatus::Pending;
            self.items[i].pnp_observation = None;
            self.items[i].admission_pnp_observation = None;
            i = i + 1;
        }
        proof {
            assert(self.items@ =~= before.map_values(change));
        }
        self.invalidate_detection_epoch();
    }
}

/// Whether two optional baselines are equal.
pub open spec fn same_baseline(a: Option<AutoCaptureBaseline>, b: Option<AutoCaptureBaseline>) -> bool {
    match (a, b) {
        (Some(a), Some(b)) => a.same(b),
        (None, None) => true,
        _ => false,
    }
}

/// Whether two optional bindings are equal.
pub open spec fn same_binding(
    a: Option<InitialIntrinsicsBinding>,
    b: Option<InitialIntrinsicsBinding>,
) -> bool {
    match (a, b) {
        (Some(a), Some(b)) => a.same(b),
        (None, None) => true,
        _ => false,
    }
}

/// What forbids configuring admission, if anything does.
pub open spec fn configuration_fault(
    baseline: Option<AutoCaptureBaseline>,
    binding: Option<InitialIntrinsicsBinding>,
    board: BoardSpec,
) -> Option<CalibrationSessionError> {
    match (baseline, binding) {
        (Some(baseline), Some(binding)) => admission_fault(baseline, binding, board),
        (None, None) => None,
        _ => Some(
            CalibrationSessionError::RejectAutoAdmissionBindingMismatch(BindingMismatch::Unpaired),
        ),
    }
}

impl SessionState {
    /// Admission is configured; the configuration that is already active changes nothing.
    pub open spec fn configured(
        self,
        baseline: Option<AutoCaptureBaseline>,
        binding: Option<InitialIntrinsicsBinding>,
    ) -> SessionState {
        if same_baseline(self.baseline, baseline) && same_binding(self.binding, binding) {
            self
        } else {
            SessionState { baseline, binding, ..self }.candidates_voided()
        }
    }

    /// What forbids admission at present, if anything does.
    pub open spec fn active_admission_fault(self) -> Option<CalibrationSessionError> {
        match (self.baseline, self.binding) {
            (None, _) => Some(CalibrationSessionError::RejectMissingBaseline),
            (Some(_), None) => Some(CalibrationSessionError::RejectMissingInitialIntrinsicsBinding),
            (Some(baseline), Some(binding)) => admission_fault(baseline, binding, self.board),
        }
    }

    /// A known input has come back with another revision.
    pub open spec fn refreshed(
        self,
        i: int,
        revision: CalibrationInputRevision,
        display_name: String,
        acquisition_key: Option<AutoCaptureAcquisitionKey>,
    ) -> SessionState {
        self.with_item(
            i,
            CalibrationDatasetItem {
                revision,
                display_name,
                acquisition_key,
                ..reset_item(self.items[i])
            },
        ).jobs_voided()
    }

    /// A new input has entered the dataset.
    pub open spec fn added(
        self,
        input: CalibrationInputKey,
        revision: CalibrationInputRevision,
        display_name: String,
        acquisition_key: Option<AutoCaptureAcquisitionKey>,
    ) -> SessionState {
        let id = CalibrationItemId(self.next_id);
        SessionState {
            selected: match self.selected {
                Some(selected) => Some(selected),
                None => Some(id),
            },
            ..self.appended(
                CalibrationDatasetItem {
                    id,
                    input,
                    revision,
                    display_name,
                    enabled: true,
                    status: CalibrationItemStatus::Pending,
                    acquisition_key,
                    pnp_observation: None,
                    admission_pnp_observation: None,
                },
            )
        }.jobs_voided()
    }

    /// An item has left the dataset; a selection on it moves to the item that took its place.
    pub open spec fn removed(self, id: CalibrationItemId) -> SessionState {
        let i = index_of(self.items, id)->Some_0;
        let rest = self.items.remove(i);
        let selected = if self.selected == Some(id) {
            if rest.len() == 0 {
                None
            } else if i < rest.len() {
                Some(rest[i].id)
            } else {
                Some(rest.last().id)
            }
        } else {
            self.selected
        };
        SessionState { items: rest, selected, ..self }.jobs_voided()
    }

    /// The dataset is empty.
    pub open spec fn cleared(self) -> SessionState {
        if self.items.len() == 0 {
            self
        } else {
            SessionState { items: Seq::empty(), selected: None, ..self }.jobs_voided()
        }
    }
}

impl CalibrationSession {
    /// Installs or clears automatic admission. Baseline and binding come together, must be usable
    /// and must agree with each other and with the board.
    pub fn configure_auto_admission(
        &mut self,
        baseline: Option<AutoCaptureBaseline>,
        binding: Option<InitialIntrinsicsBinding>,
    ) -> (r: Result<(), CalibrationSessionError>)
        ensures
            match configuration_fault(baseline, binding, old(self)@.board) {
                Some(e) => r == Err::<(), CalibrationSessionError>(e) && final(self)@
                    == old(self)@,
                None => r is Ok && final(self)@ == old(self)@.configured(baseline, binding),
            },
    {
        match (&baseline, &binding) {
            (Some(baseline), Some(binding)) => {
                match check_admission(baseline, binding, self.board) {
                    Err(e) => {
                        return Err(e);
                    },
                    Ok(()) => {},
                }
            },
            (None, None) => {},
            _ => {
                return Err(
                    CalibrationSessionError::RejectAutoAdmissionBindingMismatch(
                        BindingMismatch::Unpaired,
                    ),
                );
            },
        }
        let baseline_kept: bool = match (&self.active_auto_baseline, &baseline) {
            (Some(a), Some(b)) => a.eq_value(b),
            (None, None) => true,
            _ => false,
        };
        let binding_kept: bool = match (&self.active_initial_intrinsics_binding, &binding) {
            (Some(a), Some(b)) => a.eq_value(b),
            (None, None) => true,
            _ => false,
        };
        if baseline_kept && binding_kept {
            return Ok(());
        }
        self.active_auto_baseline = baseline;
        self.active_initial_intrinsics_binding = binding;
        self.invalidate_auto_admission();
        Ok(())
    }

    /// Checks that admission is configured and still fits the board.
    fn active_admission(&self) -> (r: Result<AutoCandidateAdmission<'_>, CalibrationSessionError>)
        ensures
            match self@.active_admission_fault() {
                Some(e) => r == Err::<AutoCandidateAdmission, CalibrationSessionError>(e),
                None => r is Ok && self@.baseline == Some(*r->Ok_0.baseline) && self@.binding
                    == Some(*r->Ok_0.initial_intrinsics_binding),
            },
    {
        match (&self.active_auto_baseline, &self.active_initial_intrinsics_binding) {
            (None, _) => Err(CalibrationSessionError::RejectMissingBaseline),
            (Some(_), None) => Err(CalibrationSessionError::RejectMissingInitialIntrinsicsBinding),
            (Some(baseline), Some(binding)) => {
                match check_admission(baseline, binding, self.board) {
                    Err(e) => Err(e),
                    Ok(()) => Ok(
                        AutoCandidateAdmission { baseline, initial_intrinsics_binding: binding },
                    ),
                }
            },
        }
    }

    /// Assesses the dataset whatever source its items came from.
    pub fn assess_dataset_acceptance(
        &self,
        measurements: &Vec<ItemMeasurement>,
        image_size: CalibrationImageSize,
        criteria: &AutoCaptureAcceptanceCriteria,
        pnp_binding: Option<&InitialIntrinsicsBinding>,
    ) -> (r: Result<AutoAdmissionAssessment, CalibrationSessionError>)
        requires
            measurements@.len() == self@.items.len(),
        ensures
            ({
                let binding = match pnp_binding {
                    Some(b) => Some(*b),
                    None => None,
                };
                let covers = crate::calibration::assess::dataset_covers(
                    self@.items,
                    measurements@,
                    self@.board,
                    image_size,
                    *criteria,
                    crate::calibration::assess::digest_of(binding),
                );
                match crate::calibration::assess::dataset_assessment_fault(
                    self@.board,
                    image_size,
                    *criteria,
                    binding,
                ) {
                    Some(e) => r == Err::<AutoAdmissionAssessment, CalibrationSessionError>(e),
                    None => {
                        &&& r is Ok
                        &&& crate::calibration::assess::totals(r->Ok_0, *criteria, covers)
                        &&& r->Ok_0.item_contributions@
                            == crate::calibration::assess::contributions(covers, *criteria)
                        &&& r->Ok_0.corner_count == self@.board.corners()
                        &&& r->Ok_0.candidate_gain is None
                        &&& r->Ok_0.depth_ranges@
                            == crate::calibration::assess::dataset_depth_ranges(
                            self@.items,
                            measurements@,
                            self@.board,
                            image_size,
                            *criteria,
                            crate::calibration::assess::digest_of(binding),
                        )
                        &&& crate::calibration::assess::visualizes(
                            r->Ok_0.item_visualizations@,
                            covers,
                        )
                    },
                }
            }),
    {
        assess_dataset_acceptance(
            &self.items,
            measurements,
            self.board,
            image_size,
            criteria,
            pnp_binding,
        )
    }

    /// Assesses the dataset under active admission, with a candidate on top when there is one.
    pub fn assess_auto_admission(
        &self,
        measurements: &Vec<ItemMeasurement>,
        candidate: Option<&CandidateEvidence>,
    ) -> (r: Result<AutoAdmissionAssessment, CalibrationSessionError>)
        requires
            measurements@.len() == self@.items.len(),
        ensures
            match self@.active_admission_fault() {
                Some(e) => r == Err::<AutoAdmissionAssessment, CalibrationSessionError>(e),
                None => {
                    let baseline = self@.baseline->Some_0;
                    let binding = self@.binding->Some_0;
                    let covers = admission_covers(
                        self@.items,
                        measurements@,
                        self@.board,
                        baseline,
                        binding,
                    );
                    match candidate {
                        None => r is Ok && admission_assessed(r->Ok_0, baseline, covers, None),
                        Some(evidence) => match candidate_cover(
                            *evidence.detection,
                            *evidence.observation,
                            *evidence.measurement,
                            *evidence.pnp,
                            self@.board,
                            baseline,
                            binding,
                        ) {
                            Err(e) => r == Err::<AutoAdmissionAssessment, CalibrationSessionError>(
                                e,
                            ),
                            Ok(cover) => r is Ok && admission_assessed(
                                r->Ok_0,
                                baseline,
                                covers,
                                Some(cover),
                            ),
                        },
                    }
                },
            },
    {
        match self.active_admission() {
            Err(e) => Err(e),
            Ok(admission) => assess_auto_admission_with(
                &self.items,
                measurements,
                self.board,
                admission.baseline,
                admission.initial_intrinsics_binding,
                candidate,
            ),
        }
    }

    /// Adds an input, or refreshes it when its revision changed.
    pub fn add_or_refresh(
        &mut self,
        input: CalibrationInputKey,
        revision: CalibrationInputRevision,
        display_name: String,
    ) -> (r: AddCalibrationItemOutcome)
        ensures
            match input_index(old(self)@.items, input@) {
                Some(i) => if old(self)@.items[i].revision@ == revision@ {
                    r == AddCalibrationItemOutcome::AlreadyPresent(old(self)@.items[i].id)
                        && final(self)@ == old(self)@
                } else {
                    r == AddCalibrationItemOutcome::SourceChanged(old(self)@.items[i].id)
                        && final(self)@ == old(self)@.refreshed(i, revision, display_name, None)
                },
                None => r == AddCalibrationItemOutcome::Added(
                    CalibrationItemId(old(self)@.next_id),
                ) && final(self)@ == old(self)@.added(input, revision, display_name, None),
            },
    {
        self.add_or_refresh_with_acquisition_key(input, revision, display_name, None)
    }

    /// Adds an input with the source it was acquired from, or refreshes it when its revision
    /// changed.
    pub fn add_or_refresh_with_acquisition_key(
        &mut self,
        input: CalibrationInputKey,
        revision: CalibrationInputRevision,
        display_name: String,
        acquisition_key: Option<AutoCaptureAcquisitionKey>,
    ) -> (r: AddCalibrationItemOutcome)
        ensures
            match input_index(old(self)@.items, input@) {
                Some(i) => if old(self)@.items[i].revision@ == revision@ {
                    r == AddCalibrationItemOutcome::AlreadyPresent(old(self)@.items[i].id)
                        && final(self)@ == old(self)@
                } else {
                    r == AddCalibrationItemOutcome::SourceChanged(old(self)@.items[i].id)
                        && final(self)@ == old(self)@.refreshed(
                        i,
                        revision,
                        display_name,
                        acquisition_key,
                    )
                },
                None => r == AddCalibrationItemOutcome::Added(
                    CalibrationItemId(old(self)@.next_id),
                ) && final(self)@ == old(self)@.added(
                    input,
                    revision,
                    display_name,
                    acquisition_key,
                ),
            },
    {
        match self.find_input(&input) {
            Some(index) => {
                let id: CalibrationItemId = self.items[index].id;
                if self.items[index].revision.eq_value(&revision) {
                    return AddCalibrationItemOutcome::AlreadyPresent(id);
                }
                self.items[index].revision = revision;
                self.items[index].display_name = display_name;
                self.items[index].status = CalibrationItemStatus::Pending;
                self.items[index].acquisition_key = acquisition_key;
                self.items[index].pnp_observation = None;
                self.items[index].admission_pnp_observation = None;
                self.invalidate_detection_epoch();
                AddCalibrationItemOutcome::SourceChanged(id)
            },
            None => {
                let id: CalibrationItemId = CalibrationItemId(self.next_id);
                self.next_id = advance_identity(self.next_id);
                self.items.push(
                    CalibrationDatasetItem {
                        id,
                        input,
                        revision,
                        display_name,
                        enabled: true,
                        status: CalibrationItemStatus::Pending,
                        acquisition_key,
                        pnp_observation: None,
                        admission_pnp_observation: None,
                    },
                );
                if self.selected.is_none() {
                    self.selected = Some(id);
                }
                self.invalidate_detection_epoch();
                AddCalibrationItemOutcome::Added(id)
            },
        }
    }

    /// Selects an item of the dataset.
    pub fn set_selected(&mut self, id: CalibrationItemId) -> (r: Result<(), CalibrationSessionError>)
        ensures
            match index_of(old(self)@.items, id) {
                None => r == Err::<(), CalibrationSessionError>(
                    CalibrationSessionError::UnknownItem(id),
                ) && final(self)@ == old(self)@,
                Some(_) => r is Ok && final(self)@ == (SessionState {
                    selected: Some(id),
                    ..old(self)@
                }),
            },
    {
        match self.find(id) {
            None => Err(CalibrationSessionError::UnknownItem(id)),
            Some(_) => {
                self.selected = Some(id);
                Ok(())
            },
        }
    }

    /// Sets whether an item is used; a change voids jobs and the solution.
    pub fn set_enabled(&mut self, id: CalibrationItemId, enabled: bool) -> (r: Result<
        (),
        CalibrationSessionError,
    >)
        ensures
            match index_of(old(self)@.items, id) {
                None => r == Err::<(), CalibrationSessionError>(
                    CalibrationSessionError::UnknownItem(id),
                ) && final(self)@ == old(self)@,
                Some(i) => r is Ok && final(self)@ == (if old(self)@.items[i].enabled == enabled {
                    old(self)@
                } else {
                    old(self)@.with_item(
                        i,
                        CalibrationDatasetItem { enabled, ..old(self)@.items[i] },
                    ).jobs_voided()
                }),
            },
    {
        match self.find(id) {
            None => Err(CalibrationSessionError::UnknownItem(id)),
            Some(i) => {
                if self.items[i].enabled != enabled {
                    self.items[i].enabled = enabled;
                    self.invalidate_detection_epoch();
                }
                Ok(())
            },
        }
    }

    /// Removes an item.
    pub fn remove(&mut self, id: CalibrationItemId) -> (r: Result<(), CalibrationSessionError>)
        ensures
            match index_of(old(self)@.items, id) {
                None => r == Err::<(), CalibrationSessionError>(
                    CalibrationSessionError::UnknownItem(id),
                ) && final(self)@ == old(self)@,
                Some(_) => r is Ok && final(self)@ == old(self)@.removed(id),
            },
    {
        let index: usize = match self.find(id) {
            None => {
                return Err(CalibrationSessionError::UnknownItem(id));
            },
            Some(i) => i,
        };
        let _removed: CalibrationDatasetItem = self.items.remove(index);
        let on_it: bool = match self.selected {
            Some(selected) => selected == id,
            None => false,
        };
        if on_it {
            let n: usize = self.items.len();
            self.selected = if n == 0 {
                None
            } else if index < n {
                Some(self.items[index].id)
            } else {
                Some(self.items[n - 1].id)
            };
        }
        self.invalidate_detection_epoch();
        Ok(())
    }

    /// Empties the dataset.
    pub fn clear(&mut self)
        ensures
            final(self)@ == old(self)@.cleared(),
    {
        if self.items.len() == 0 {
            return;
        }
        self.items.clear();
        self.selected = None;
        self.invalidate_detection_epoch();
    }
}

/// The stages of a running detection job.
#[derive(Clone, Copy, Debug, PartialEq, Eq, Structural)]
pub enum JobStage {
    ReadQueued,
    Reading,
    DetectQueued,
    Detecting,
}

impl JobStage {
    /// The status of an item in this stage.
    pub open spec fn status(self) -> CalibrationItemStatus {
        match self {
            JobStage::ReadQueued => CalibrationItemStatus::ReadQueued,
            JobStage::Reading => CalibrationItemStatus::Reading,
            JobStage::DetectQueued => CalibrationItemStatus::DetectQueued,
            JobStage::Detecting => CalibrationItemStatus::Detecting,
        }
    }

    fn to_status(self) -> (r: CalibrationItemStatus)
        ensures
            r == self.status(),
            r.busy(),
    {
        match self {
            JobStage::ReadQueued => CalibrationItemStatus::ReadQueued,
            JobStage::Reading => CalibrationItemStatus::Reading,
            JobStage::DetectQueued => CalibrationItemStatus::DetectQueued,
            JobStage::Detecting => CalibrationItemStatus::Detecting,
        }
    }

    fn is_stage_of(self, status: &CalibrationItemStatus) -> (r: bool)
        ensures
            r == (*status == self.status()),
    {
        match (self, status) {
            (JobStage::ReadQueued, CalibrationItemStatus::ReadQueued) => true,
            (JobStage::Reading, CalibrationItemStatus::Reading) => true,
            (JobStage::DetectQueued, CalibrationItemStatus::DetectQueued) => true,
            (JobStage::Detecting, CalibrationItemStatus::Detecting) => true,
            _ => false,
        }
    }
}

/// What forbids moving a job from one stage to the next, if anything does.
pub open spec fn stage_fault(
    state: SessionState,
    t: JobTokenView,
    from: JobStage,
) -> Option<CalibrationSessionError> {
    match state.active_token_fault(t) {
        Some(e) => Some(e),
        None => if state.item(t.item_id).status != from.status() {
            Some(CalibrationSessionError::StaleResult)
        } else {
            None
        },
    }
}

/// A job has moved to another stage.
pub open spec fn staged(state: SessionState, t: JobTokenView, to: JobStage) -> SessionState {
    state.with(
        t.item_id,
        CalibrationDatasetItem { status: to.status(), ..state.item(t.item_id) },
    )
}

/// What a finished detection leaves of an item, or why its result is refused.
pub open spec fn detection_result(
    t: JobTokenView,
    outcome: ChessboardDetectionOutcome,
    pnp: Option<PnpEvidence>,
) -> Result<(CalibrationItemStatus, Option<PnPObservation>), CalibrationSessionError> {
    match outcome {
        ChessboardDetectionOutcome::Found(detection) => match view_fault(
            detection.corners@,
            t.board,
        ) {
            Some(e) => Err(CalibrationSessionError::InvalidData(e)),
            None => match pnp {
                Some(evidence) => match evidence.observation.features(t.board, evidence.pose) {
                    Err(e) => Err(e),
                    Ok(_) => Ok(
                        (CalibrationItemStatus::Found(detection), Some(evidence.observation)),
                    ),
                },
                None => Ok((CalibrationItemStatus::Found(detection), None)),
            },
        },
        ChessboardDetectionOutcome::NotFound { image_size } => if pnp is Some {
            Err(CalibrationSessionError::RejectInvalidPnP(PnpFault::WithoutDetection))
        } else {
            Ok((CalibrationItemStatus::NotFound { image_size }, None))
        },
    }
}

/// The state and the answer after a finished detection was reported.
pub open spec fn detection_installed(
    state: SessionState,
    t: JobTokenView,
    observed: RevisionView,
    outcome: ChessboardDetectionOutcome,
    pnp: Option<PnpEvidence>,
) -> (SessionState, Result<(), CalibrationSessionError>) {
    match state.active_token_fault(t) {
        Some(e) => (state, Err(e)),
        None => if observed != t.source_revision@ {
            (
                state.job_ended(t.item_id, reset_item(state.item(t.item_id))),
                Err(CalibrationSessionError::SourceChanged(t.item_id)),
            )
        } else {
            match detection_result(t, outcome, pnp) {
                Err(e) => (state, Err(e)),
                Ok((status, observation)) => (
                    state.job_ended(
                        t.item_id,
                        CalibrationDatasetItem {
                            status,
                            pnp_observation: observation,
                            admission_pnp_observation: None,
                            ..state.item(t.item_id)
                        },
                    ),
                    Ok(()),
                ),
            }
        },
    }
}

impl CalibrationSession {
    /// Starts the detection of a file, which is read first.
    pub fn begin_detection(&mut self, id: CalibrationItemId) -> (r: Result<
        CalibrationJobToken,
        CalibrationSessionError,
    >)
        ensures
            match old(self)@.begin_fault(id) {
                Some(e) => r == Err::<CalibrationJobToken, CalibrationSessionError>(e)
                    && final(self)@ == old(self)@,
                None => r is Ok && r->Ok_0@ == old(self)@.token_for(id) && final(self)@
                    == old(self)@.begun(id, CalibrationItemStatus::ReadQueued),
            },
    {
        self.begin_detection_with_status(id, JobStage::ReadQueued)
    }

    /// Starts the detection of an encoded image, which waits for the detector at once.
    pub fn begin_encoded_detection(&mut self, id: CalibrationItemId) -> (r: Result<
        CalibrationJobToken,
        CalibrationSessionError,
    >)
        ensures
            match old(self)@.begin_fault(id) {
                Some(e) => r == Err::<CalibrationJobToken, CalibrationSessionError>(e)
                    && final(self)@ == old(self)@,
                None => r is Ok && r->Ok_0@ == old(self)@.token_for(id) && final(self)@
                    == old(self)@.begun(id, CalibrationItemStatus::DetectQueued),
            },
    {
        self.begin_detection_with_status(id, JobStage::DetectQueued)
    }

    fn begin_detection_with_status(&mut self, id: CalibrationItemId, stage: JobStage) -> (r: Result<
        CalibrationJobToken,
        CalibrationSessionError,
    >)
        ensures
            match old(self)@.begin_fault(id) {
                Some(e) => r == Err::<CalibrationJobToken, CalibrationSessionError>(e)
                    && final(self)@ == old(self)@,
                None => r is Ok && r->Ok_0@ == old(self)@.token_for(id) && final(self)@
                    == old(self)@.begun(id, stage.status()),
            },
    {
        if self.active_detection_jobs.contains_key(&id.0) {
            return Err(CalibrationSessionError::ItemBusy(id));
        }
        let index: usize = match self.find(id) {
            None => {
                return Err(CalibrationSessionError::UnknownItem(id));
            },
            Some(i) => i,
        };
        if self.items[index].status.is_busy() {
            return Err(CalibrationSessionError::ItemBusy(id));
        }
        let board: BoardSpec = self.board;
        self.items[index].status = stage.to_status();
        let source_revision: CalibrationInputRevision = self.items[index].revision.clone();
        let job_id: u64 = self.next_detection_job_id;
        self.next_detection_job_id = advance_identity(self.next_detection_job_id);
        self.active_detection_jobs.insert(id.0, job_id);
        self.invalidate_solution();
        Ok(
            CalibrationJobToken {
                item_id: id,
                detection_epoch: self.detection_epoch,
                job_id,
                source_revision,
                board,
            },
        )
    }

    fn validate_token(&self, token: &CalibrationJobToken) -> (r: Result<
        usize,
        CalibrationSessionError,
    >)
        ensures
            match self@.token_fault(token@) {
                Some(e) => r == Err::<usize, CalibrationSessionError>(e),
                None => r is Ok && index_of(self@.items, token@.item_id) == Some(r->Ok_0 as int)
                    && r->Ok_0 < self.items@.len(),
            },
    {
        if token.detection_epoch != self.detection_epoch || !token.board.eq_value(&self.board) {
            return Err(CalibrationSessionError::StaleResult);
        }
        let index: usize = match self.find(token.item_id) {
            None => {
                return Err(CalibrationSessionError::UnknownItem(token.item_id));
            },
            Some(i) => i,
        };
        if !self.items[index].revision.eq_value(&token.source_revision) {
            return Err(CalibrationSessionError::SourceChanged(token.item_id));
        }
        Ok(index)
    }

    fn validate_active_token(&self, token: &CalibrationJobToken) -> (r: Result<
        usize,
        CalibrationSessionError,
    >)
        ensures
            match self@.active_token_fault(token@) {
                Some(e) => r == Err::<usize, CalibrationSessionError>(e),
                None => r is Ok && index_of(self@.items, token@.item_id) == Some(r->Ok_0 as int)
                    && r->Ok_0 < self.items@.len(),
            },
    {
        let index: usize = match self.validate_token(token) {
            Err(e) => {
                return Err(e);
            },
            Ok(i) => i,
        };
        let running: bool = match self.active_detection_jobs.get(&token.item_id.0) {
            Some(job) => *job == token.job_id,
            None => false,
        };
        if !running || !self.items[index].status.is_busy() {
            return Err(CalibrationSessionError::StaleResult);
        }
        Ok(index)
    }

    /// Moves a running job from one stage to another.
    fn mark_stage(&mut self, token: &CalibrationJobToken, from: JobStage, to: JobStage) -> (r: Result<
        (),
        CalibrationSessionError,
    >)
        ensures
            match stage_fault(old(self)@, token@, from) {
                Some(e) => r == Err::<(), CalibrationSessionError>(e) && final(self)@
                    == old(self)@,
                None => r is Ok && final(self)@ == staged(old(self)@, token@, to),
            },
    {
        let index: usize = match self.validate_active_token(token) {
            Err(e) => {
                return Err(e);
            },
            Ok(i) => i,
        };
        if !from.is_stage_of(&self.items[index].status) {
            return Err(CalibrationSessionError::StaleResult);
        }
        self.items[index].status = to.to_status();
        Ok(())
    }

    /// A reader has taken up the job.
    pub fn mark_reading(&mut self, token: &CalibrationJobToken) -> (r: Result<
        (),
        CalibrationSessionError,
    >)
        ensures
            match stage_fault(old(self)@, token@, JobStage::ReadQueued) {
                Some(e) => r == Err::<(), CalibrationSessionError>(e) && final(self)@
                    == old(self)@,
                None => r is Ok && final(self)@ == staged(old(self)@, token@, JobStage::Reading),
            },
    {
        self.mark_stage(token, JobStage::ReadQueued, JobStage::Reading)
    }

    /// The image has been read and waits for the detector.
    pub fn mark_detect_queued(&mut self, token: &CalibrationJobToken) -> (r: Result<
        (),
        CalibrationSessionError,
    >)
        ensures
            match stage_fault(old(self)@, token@, JobStage::Reading) {
                Some(e) => r == Err::<(), CalibrationSessionError>(e) && final(self)@
                    == old(self)@,
                None => r is Ok && final(self)@ == staged(
                    old(self)@,
                    token@,
                    JobStage::DetectQueued,
                ),
            },
    {
        self.mark_stage(token, JobStage::Reading, JobStage::DetectQueued)
    }

    /// A detector has taken up the job.
    pub fn mark_detecting(&mut self, token: &CalibrationJobToken) -> (r: Result<
        (),
        CalibrationSessionError,
    >)
        ensures
            match stage_fault(old(self)@, token@, JobStage::DetectQueued) {
                Some(e) => r == Err::<(), CalibrationSessionError>(e) && final(self)@
                    == old(self)@,
                None => r is Ok && final(self)@ == staged(old(self)@, token@, JobStage::Detecting),
            },
    {
        self.mark_stage(token, JobStage::DetectQueued, JobStage::Detecting)
    }

    /// Installs the result of a running job, without pose evidence.
    pub fn install_detection(
        &mut self,
        token: &CalibrationJobToken,
        observed_revision: CalibrationInputRevision,
        outcome: ChessboardDetectionOutcome,
    ) -> (r: Result<(), CalibrationSessionError>)
        ensures
            (final(self)@, r) == detection_installed(
                old(self)@,
                token@,
                observed_revision@,
                outcome,
                None,
            ),
    {
        self.install_detection_with_pnp(token, observed_revision, outcome, None)
    }

    /// Installs the result of a running job together with its pose evidence. A source that changed
    /// meanwhile sends the item back; an unusable result changes nothing.
    pub fn install_detection_with_pnp(
        &mut self,
        token: &CalibrationJobToken,
        observed_revision: CalibrationInputRevision,
        outcome: ChessboardDetectionOutcome,
        pnp: Option<PnpEvidence>,
    ) -> (r: Result<(), CalibrationSessionError>)
        ensures
            (final(self)@, r) == detection_installed(
                old(self)@,
                token@,
                observed_revision@,
                outcome,
                pnp,
            ),
    {
        let index: usize = match self.validate_active_token(token) {
            Err(e) => {
                return Err(e);
            },
            Ok(i) => i,
        };
        if !observed_revision.eq_value(&token.source_revision) {
            self.active_detection_jobs.remove(&token.item_id.0);
            self.items[index].status = CalibrationItemStatus::Pending;
            self.items[index].pnp_observation = None;
            self.items[index].admission_pnp_observation = None;
            self.invalidate_solution();
            return Err(CalibrationSessionError::SourceChanged(token.item_id));
        }
        let (status, observation): (CalibrationItemStatus, Option<PnPObservation>) = match outcome {
            ChessboardDetectionOutcome::Found(detection) => {
                match detection.validate(token.board) {
                    Err(e) => {
                        return Err(CalibrationSessionError::InvalidData(e));
                    },
                    Ok(()) => {},
                }
                match &pnp {
                    Some(evidence) => {
                        match evidence.observation.geometry(token.board, &evidence.pose) {
                            Err(e) => {
                                return Err(e);
                            },
                            Ok(_) => {},
                        }
                        (CalibrationItemStatus::Found(detection), Some(evidence.observation))
                    },
                    None => (CalibrationItemStatus::Found(detection), None),
                }
            },
            ChessboardDetectionOutcome::NotFound { image_size } => {
                if pnp.is_some() {
                    return Err(
                        CalibrationSessionError::RejectInvalidPnP(PnpFault::WithoutDetection),
                    );
                }
                (CalibrationItemStatus::NotFound { image_size }, None)
            },
        };
        self.active_detection_jobs.remove(&token.item_id.0);
        self.items[index].status = status;
        self.items[index].pnp_observation = observation;
        self.items[index].admission_pnp_observation = None;
        self.invalidate_solution();
        Ok(())
    }

    /// Installs or clears the dataset pose evidence of an item that has a detection. Neither the
    /// solution nor any token is affected.
    pub fn install_dataset_pnp_observation(
        &mut self,
        item_id: CalibrationItemId,
        pnp: Option<PnpEvidence>,
    ) -> (r: Result<(), CalibrationSessionError>)
        ensures
            ({
                let refused = match pnp {
                    Some(evidence) => match evidence.observation.features(
                        old(self)@.board,
                        evidence.pose,
                    ) {
                        Err(e) => Some(e),
                        Ok(_) => None,
                    },
                    None => None,
                };
                let fault = if refused is Some {
                    refused
                } else if index_of(old(self)@.items, item_id) is None {
                    Some(CalibrationSessionError::UnknownItem(item_id))
                } else if !(old(self)@.item(item_id).status is Found) {
                    Some(CalibrationSessionError::StaleResult)
                } else {
                    None
                };
                match fault {
                    Some(e) => r == Err::<(), CalibrationSessionError>(e) && final(self)@
                        == old(self)@,
                    None => r is Ok && final(self)@ == old(self)@.with(
                        item_id,
                        CalibrationDatasetItem {
                            pnp_observation: match pnp {
                                Some(evidence) => Some(evidence.observation),
                                None => None,
                            },
                            ..old(self)@.item(item_id)
                        },
                    ),
                }
            }),
    {
        let observation: Option<PnPObservation> = match &pnp {
            Some(evidence) => {
                match evidence.observation.geometry(self.board, &evidence.pose) {
                    Err(e) => {
                        return Err(e);
                    },
                    Ok(_) => {},
                }
                Some(evidence.observation)
            },
            None => None,
        };
        let index: usize = match self.find(item_id) {
            None => {
                return Err(CalibrationSessionError::UnknownItem(item_id));
            },
            Some(i) => i,
        };
        match &self.items[index].status {
            CalibrationItemStatus::Found(_) => {},
            _ => {
                return Err(CalibrationSessionError::StaleResult);
            },
        }
        self.items[index].pnp_observation = observation;
        Ok(())
    }

    /// Records that a running job failed.
    pub fn install_failure(&mut self, token: &CalibrationJobToken, message: String) -> (r: Result<
        (),
        CalibrationSessionError,
    >)
        ensures
            match old(self)@.active_token_fault(token@) {
                Some(e) => r == Err::<(), CalibrationSessionError>(e) && final(self)@
                    == old(self)@,
                None => r is Ok && final(self)@ == old(self)@.job_ended(
                    token@.item_id,
                    CalibrationDatasetItem {
                        status: CalibrationItemStatus::Failed(message),
                        ..old(self)@.item(token@.item_id)
                    },
                ),
            },
    {
        let index: usize = match self.validate_active_token(token) {
            Err(e) => {
                return Err(e);
            },
            Ok(i) => i,
        };
        self.active_detection_jobs.remove(&token.item_id.0);
        self.items[index].status = CalibrationItemStatus::Failed(message);
        self.invalidate_solution();
        Ok(())
    }

    /// Cancels a running job; a result that arrives later is refused.
    pub fn cancel_detection(&mut self, token: &CalibrationJobToken) -> (r: Result<
        (),
        CalibrationSessionError,
    >)
        ensures
            match old(self)@.active_token_fault(token@) {
                Some(e) => r == Err::<(), CalibrationSessionError>(e) && final(self)@
                    == old(self)@,
                None => r is Ok && final(self)@ == old(self)@.job_ended(
                    token@.item_id,
                    CalibrationDatasetItem {
                        status: CalibrationItemStatus::Pending,
                        ..old(self)@.item(token@.item_id)
                    },
                ),
            },
    {
        let index: usize = match self.validate_active_token(token) {
            Err(e) => {
                return Err(e);
            },
            Ok(i) => i,
        };
        self.active_detection_jobs.remove(&token.item_id.0);
        self.items[index].status = CalibrationItemStatus::Pending;
        self.invalidate_solution();
        Ok(())
    }
}

/// Whether a revision is a frozen image with content.
pub open spec fn frozen_image(revision: CalibrationInputRevision) -> bool {
    match revision {
        CalibrationInputRevision::EphemeralPng { content_sha256, encoded_bytes } =>
            content_sha256@.len() > 0 && encoded_bytes > 0,
        _ => false,
    }
}

/// What forbids binding a candidate, if anything does.
pub open spec fn bind_fault(
    state: SessionState,
    frame: StreamFrameIdentity,
    revision: CalibrationInputRevision,
    key: Option<AutoCaptureAcquisitionKey>,
) -> Option<CalibrationSessionError> {
    let input = CalibrationInputKey::StreamCapture(StreamCaptureId::of(frame));
    if input_index(state.items, input@) is Some {
        Some(CalibrationSessionError::AutoCandidateAlreadyPresent)
    } else if !frozen_image(revision) {
        Some(CalibrationSessionError::InvalidAutoCandidateRevision)
    } else {
        match key {
            None => None,
            Some(key) => match key@.fault() {
                Some(m) => Some(CalibrationSessionError::RejectAutoAdmissionBindingMismatch(m)),
                None => if key.channel != frame.channel {
                    Some(
                        CalibrationSessionError::RejectAutoAdmissionBindingMismatch(
                            BindingMismatch::FrameChannel {
                                candidate: key.channel,
                                frame: frame.channel,
                            },
                        ),
                    )
                } else {
                    None
                },
            },
        }
    }
}

/// What forbids committing a candidate before its gain is looked at, if anything does.
pub open spec fn commit_fault(
    state: SessionState,
    commit: AutoCandidateCommit,
    dm: DetectionMeasurement,
    pm: PnpMeasurement,
) -> Option<CalibrationSessionError> {
    let t = commit.token@;
    if !t.board.same(state.board) || t.fit_manifest_revision != state.solution_revision
        || t.admission_revision != state.admission_revision {
        Some(CalibrationSessionError::StaleAutoCandidate)
    } else if commit.observed_revision@ != t.source_revision@ {
        Some(CalibrationSessionError::InvalidAutoCandidateRevision)
    } else if t.input@ != CalibrationInputKey::StreamCapture(
        StreamCaptureId::of(t.frame_identity),
    )@ {
        Some(CalibrationSessionError::InvalidAutoCandidateIdentity)
    } else if input_index(state.items, t.input@) is Some {
        Some(CalibrationSessionError::AutoCandidateAlreadyPresent)
    } else {
        match view_fault(commit.detection.corners@, t.board) {
            Some(e) => Some(CalibrationSessionError::InvalidData(e)),
            None => match state.active_admission_fault() {
                Some(e) => Some(e),
                None => match t.source_acquisition_key {
                    None => Some(
                        CalibrationSessionError::RejectAutoAdmissionBindingMismatch(
                            BindingMismatch::NoAcquisitionKey,
                        ),
                    ),
                    Some(key) => if key@ != state.baseline->Some_0.acquisition_key@ {
                        Some(
                            CalibrationSessionError::RejectAutoAdmissionBindingMismatch(
                                BindingMismatch::CandidateSource {
                                    candidate: key,
                                    baseline: state.baseline->Some_0.acquisition_key,
                                },
                            ),
                        )
                    } else {
                        match commit_cover(state, commit, dm, pm) {
                            Err(e) => Some(e),
                            Ok(_) => None,
                        }
                    },
                },
            },
        }
    }
}

/// What the candidate of a commit covers under active admission.
pub open spec fn commit_cover(
    state: SessionState,
    commit: AutoCandidateCommit,
    dm: DetectionMeasurement,
    pm: PnpMeasurement,
) -> Result<CoverageView, CalibrationSessionError> {
    candidate_cover(
        commit.detection,
        commit.pnp_observation,
        dm,
        pm,
        state.board,
        state.baseline->Some_0,
        state.binding->Some_0,
    )
}

/// The gain of the candidate of a commit on top of the dataset.
pub open spec fn commit_gain(
    state: SessionState,
    ms: Seq<ItemMeasurement>,
    commit: AutoCandidateCommit,
    dm: DetectionMeasurement,
    pm: PnpMeasurement,
) -> RawGain {
    let baseline = state.baseline->Some_0;
    gain_over(
        admission_covers(state.items, ms, state.board, baseline, state.binding->Some_0),
        commit_cover(state, commit, dm, pm)->Ok_0,
        baseline.criteria,
    )
}

/// The candidate has become an item: selected, with its detection and both kinds of evidence. The
/// solution is void, detection jobs run on.
pub open spec fn committed(state: SessionState, commit: AutoCandidateCommit) -> SessionState {
    let id = CalibrationItemId(state.next_id);
    let t = commit.token@;
    SessionState {
        selected: Some(id),
        ..state.appended(
            CalibrationDatasetItem {
                id,
                input: t.input,
                revision: t.source_revision,
                display_name: t.display_name,
                enabled: true,
                status: CalibrationItemStatus::Found(commit.detection),
                acquisition_key: t.source_acquisition_key,
                pnp_observation: Some(
                    PnPObservation {
                        binding_digest: dataset_digest(
                            state.binding->Some_0.initial_intrinsics,
                            commit.detection.image_size,
                        ),
                        ..commit.pnp_observation
                    },
                ),
                admission_pnp_observation: Some(commit.pnp_observation),
            },
        )
    }.solution_voided()
}

/// The enabled items that have a detection, in order.
pub open spec fn usable_views(items: Seq<CalibrationDatasetItem>) -> Seq<
    (CalibrationItemId, ChessboardDetection),
>
    decreases items.len(),
{
    if items.len() == 0 {
        Seq::empty()
    } else {
        let earlier = usable_views(items.drop_last());
        match items.last().status {
            CalibrationItemStatus::Found(detection) => if items.last().enabled {
                earlier.push((items.last().id, detection))
            } else {
                earlier
            },
            _ => earlier,
        }
    }
}

/// The first image size that differs from the first view's.
pub open spec fn odd_size(views: Seq<(CalibrationItemId, ChessboardDetection)>) -> Option<
    CalibrationImageSize,
>
    decreases views.len(),
{
    if views.len() == 0 {
        None
    } else {
        match odd_size(views.drop_last()) {
            Some(size) => Some(size),
            None => if views.last().1.image_size != views[0].1.image_size {
                Some(views.last().1.image_size)
            } else {
                None
            },
        }
    }
}

/// The corners of some views.
pub open spec fn view_corners(views: Seq<(CalibrationItemId, ChessboardDetection)>) -> Seq<
    Seq<CalibrationPoint>,
> {
    views.map_values(|view: (CalibrationItemId, ChessboardDetection)| view.1.corners@)
}

/// The identities of some views.
pub open spec fn view_ids(views: Seq<(CalibrationItemId, ChessboardDetection)>) -> Seq<
    CalibrationItemId,
> {
    views.map_values(|view: (CalibrationItemId, ChessboardDetection)| view.0)
}

/// What forbids a snapshot, if anything does.
pub open spec fn snapshot_fault(state: SessionState, intrinsics: InitialIntrinsics) -> Option<
    CalibrationSessionError,
> {
    let views = usable_views(state.items);
    match odd_size(views) {
        Some(actual) => Some(
            CalibrationSessionError::MixedImageSizes { expected: views[0].1.image_size, actual },
        ),
        None => if views.len() < MIN_CALIBRATION_VIEWS {
            Some(
                CalibrationSessionError::NotEnoughViews {
                    found: views.len() as usize,
                    required: MIN_CALIBRATION_VIEWS,
                },
            )
        } else {
            match request_fault(state.board, view_corners(views), intrinsics) {
                Some(e) => Some(CalibrationSessionError::InvalidData(e)),
                None => None,
            }
        },
    }
}

proof fn lemma_odd_size_stays(views: Seq<(CalibrationItemId, ChessboardDetection)>, k: int)
    requires
        0 <= k <= views.len(),
        odd_size(views.take(k)) is Some,
    ensures
        odd_size(views) == odd_size(views.take(k)),
    decreases views.len() - k,
{
    if k == views.len() {
        assert(views.take(k) =~= views);
    } else {
        assert(views.take(k + 1).drop_last() =~= views.take(k));
        assert(k > 0);
        assert(views.take(k + 1)[0] == views.take(k)[0]);
        lemma_odd_size_stays(views, k + 1);
    }
}

proof fn lemma_usable_views_prefix(items: Seq<CalibrationDatasetItem>, k: int)
    requires
        0 <= k <= items.len(),
    ensures
        usable_views(items.take(k)).len() <= usable_views(items).len(),
        usable_views(items).take(usable_views(items.take(k)).len() as int) == usable_views(
            items.take(k),
        ),
    decreases items.len() - k,
{
    if k == items.len() {
        assert(items.take(k) =~= items);
        assert(usable_views(items).take(usable_views(items).len() as int) =~= usable_views(items));
    } else {
        lemma_usable_views_prefix(items, k + 1);
        let shorter = usable_views(items.take(k));
        let longer = usable_views(items.take(k + 1));
        assert(items.take(k + 1).drop_last() =~= items.take(k));
        assert(longer.take(shorter.len() as int) =~= shorter);
        assert(usable_views(items).take(shorter.len() as int) =~= usable_views(items).take(
            longer.len() as int,
        ).take(shorter.len() as int));
    }
}

fn copy_points(points: &Vec<CalibrationPoint>) -> (r: Vec<CalibrationPoint>)
    ensures
        r@ == points@,
{
    let mut out: Vec<CalibrationPoint> = Vec::new();
    let mut i: usize = 0;
    while i < points.len()
        invariant
            i <= points@.len(),
            out@ == points@.take(i as int),
        decreases points@.len() - i,
    {
        out.push(points[i]);
        i = i + 1;
        proof {
            assert(out@ =~= points@.take(i as int));
        }
    }
    proof {
        assert(points@.take(i as int) =~= points@);
    }
    out
}

impl CalibrationSession {
    /// Binds a frozen live image to the present state of the session, without touching the dataset.
    pub fn bind_auto_candidate(
        &self,
        id: AutoCandidateId,
        frame_identity: StreamFrameIdentity,
        source_revision: CalibrationInputRevision,
        display_name: String,
        source_acquisition_key: Option<AutoCaptureAcquisitionKey>,
    ) -> (r: Result<AutoCandidateToken, CalibrationSessionError>)
        ensures
            match bind_fault(self@, frame_identity, source_revision, source_acquisition_key) {
                Some(e) => r == Err::<AutoCandidateToken, CalibrationSessionError>(e),
                None => r is Ok && r->Ok_0@ == (CandidateTokenView {
                    id,
                    input: CalibrationInputKey::StreamCapture(StreamCaptureId::of(frame_identity)),
                    source_revision,
                    display_name,
                    frame_identity,
                    source_acquisition_key,
                    board: self@.board,
                    fit_manifest_revision: self@.solution_revision,
                    admission_revision: self@.admission_revision,
                }),
            },
    {
        let input: CalibrationInputKey = CalibrationInputKey::StreamCapture(
            StreamCaptureId::from(&frame_identity),
        );
        if self.find_input(&input).is_some() {
            return Err(CalibrationSessionError::AutoCandidateAlreadyPresent);
        }
        let frozen: bool = match &source_revision {
            CalibrationInputRevision::EphemeralPng { content_sha256, encoded_bytes } =>
                !content_sha256.as_str().is_empty() && *encoded_bytes > 0,
            _ => false,
        };
        if !frozen {
            return Err(CalibrationSessionError::InvalidAutoCandidateRevision);
        }
        match &source_acquisition_key {
            None => {},
            Some(key) => {
                match key.check() {
                    Some(m) => {
                        return Err(CalibrationSessionError::RejectAutoAdmissionBindingMismatch(m));
                    },
                    None => {},
                }
                if key.channel != frame_identity.channel {
                    return Err(
                        CalibrationSessionError::RejectAutoAdmissionBindingMismatch(
                            BindingMismatch::FrameChannel {
                                candidate: key.channel,
                                frame: frame_identity.channel,
                            },
                        ),
                    );
                }
            },
        }
        Ok(
            AutoCandidateToken {
                id,
                input,
                source_revision,
                display_name,
                frame_identity,
                source_acquisition_key,
                board: self.board,
                fit_manifest_revision: self.solution_revision,
                admission_revision: self.auto_admission_revision,
            },
        )
    }

    /// Checks everything about a candidate but its gain.
    fn screen_candidate(
        &self,
        commit: &AutoCandidateCommit,
        measurements: &Vec<ItemMeasurement>,
        candidate_measurement: &DetectionMeasurement,
        candidate_pnp: &PnpMeasurement,
    ) -> (r: Result<ScreenedCandidate, CalibrationSessionError>)
        requires
            measurements@.len() == self@.items.len(),
        ensures
            match commit_fault(self@, *commit, *candidate_measurement, *candidate_pnp) {
                Some(e) => r == Err::<ScreenedCandidate, CalibrationSessionError>(e),
                None => r == Ok::<ScreenedCandidate, CalibrationSessionError>(
                    ScreenedCandidate {
                        gain: commit_gain(
                            self@,
                            measurements@,
                            *commit,
                            *candidate_measurement,
                            *candidate_pnp,
                        ),
                        corner_count: self@.baseline->Some_0.board.corners() as usize,
                        minimum: self@.baseline->Some_0.criteria.minimum_auto_gain,
                        dataset_digest: dataset_digest(
                            self@.binding->Some_0.initial_intrinsics,
                            commit.detection.image_size,
                        ),
                    },
                ),
            },
    {
        if !commit.token.board.eq_value(&self.board) || commit.token.fit_manifest_revision
            != self.solution_revision || commit.token.admission_revision
            != self.auto_admission_revision {
            return Err(CalibrationSessionError::StaleAutoCandidate);
        }
        if !commit.observed_revision.eq_value(&commit.token.source_revision) {
            return Err(CalibrationSessionError::InvalidAutoCandidateRevision);
        }
        let expected_input: CalibrationInputKey = CalibrationInputKey::StreamCapture(
            StreamCaptureId::from(&commit.token.frame_identity),
        );
        if !commit.token.input.eq_value(&expected_input) {
            return Err(CalibrationSessionError::InvalidAutoCandidateIdentity);
        }
        if self.find_input(&commit.token.input).is_some() {
            return Err(CalibrationSessionError::AutoCandidateAlreadyPresent);
        }
        match commit.detection.validate(commit.token.board) {
            Err(e) => {
                return Err(CalibrationSessionError::InvalidData(e));
            },
            Ok(()) => {},
        }
        let (baseline, binding) = match self.active_admission() {
            Err(e) => {
                return Err(e);
            },
            Ok(admission) => (admission.baseline, admission.initial_intrinsics_binding),
        };
        match &commit.token.source_acquisition_key {
            None => {
                return Err(
                    CalibrationSessionError::RejectAutoAdmissionBindingMismatch(
                        BindingMismatch::NoAcquisitionKey,
                    ),
                );
            },
            Some(key) => {
                if !key.eq_value(&baseline.acquisition_key) {
                    return Err(
                        CalibrationSessionError::RejectAutoAdmissionBindingMismatch(
                            BindingMismatch::CandidateSource {
                                candidate: key.clone(),
                                baseline: baseline.acquisition_key.clone(),
                            },
                        ),
                    );
                }
            },
        }
        let evidence: CandidateEvidence = CandidateEvidence {
            detection: &commit.detection,
            observation: &commit.pnp_observation,
            measurement: candidate_measurement,
            pnp: candidate_pnp,
        };
        let assessment: AutoAdmissionAssessment = match assess_auto_admission_with(
            &self.items,
            measurements,
            self.board,
            baseline,
            binding,
            Some(&evidence),
        ) {
            Err(e) => {
                return Err(e);
            },
            Ok(a) => a,
        };
        let gain: RawGain = match assessment.candidate_gain {
            Some(gain) => gain,
            None => RawGain { field: 0, depth: 0, pose: 0 },
        };
        Ok(
            ScreenedCandidate {
                gain,
                corner_count: assessment.corner_count,
                minimum: baseline.criteria.minimum_auto_gain,
                dataset_digest: dataset_binding_digest(
                    &binding.initial_intrinsics,
                    commit.detection.image_size,
                ),
            },
        )
    }

    /// Commits a candidate whose binding is still current, whose evidence passes every gate and
    /// whose gain, as `constraint_gain` weighs it, reaches the configured minimum. A refused
    /// candidate changes nothing.
    pub fn commit_auto_candidate<F: Fn(RawGain, usize) -> Real64>(
        &mut self,
        commit: AutoCandidateCommit,
        measurements: &Vec<ItemMeasurement>,
        candidate_measurement: &DetectionMeasurement,
        candidate_pnp: &PnpMeasurement,
        constraint_gain: F,
    ) -> (r: Result<CalibrationItemId, CalibrationSessionError>)
        requires
            measurements@.len() == old(self)@.items.len(),
            forall|gain: RawGain, corners: usize|
                #[trigger] constraint_gain.requires((gain, corners)),
        ensures
            match commit_fault(old(self)@, commit, *candidate_measurement, *candidate_pnp) {
                Some(e) => r == Err::<CalibrationItemId, CalibrationSessionError>(e)
                    && final(self)@ == old(self)@,
                None => {
                    let baseline = old(self)@.baseline->Some_0;
                    let minimum = baseline.criteria.minimum_auto_gain;
                    exists|actual: Real64|
                        {
                            &&& #[trigger] constraint_gain.ensures(
                                (
                                    commit_gain(
                                        old(self)@,
                                        measurements@,
                                        commit,
                                        *candidate_measurement,
                                        *candidate_pnp,
                                    ),
                                    baseline.board.corners() as usize,
                                ),
                                actual,
                            )
                            &&& if actual.below(minimum) {
                                r == Err::<CalibrationItemId, CalibrationSessionError>(
                                    CalibrationSessionError::RejectInsufficientConstraintGain {
                                        actual,
                                        minimum,
                                    },
                                ) && final(self)@ == old(self)@
                            } else {
                                r == Ok::<CalibrationItemId, CalibrationSessionError>(
                                    CalibrationItemId(old(self)@.next_id),
                                ) && final(self)@ == committed(old(self)@, commit)
                            }
                        }
                },
            },
    {
        let screened: ScreenedCandidate = match self.screen_candidate(
            &commit,
            measurements,
            candidate_measurement,
            candidate_pnp,
        ) {
            Err(e) => {
                return Err(e);
            },
            Ok(screened) => screened,
        };
        let minimum: Real64 = screened.minimum;
        let actual: Real64 = constraint_gain(screened.gain, screened.corner_count);
        if actual.lt(minimum) {
            return Err(
                CalibrationSessionError::RejectInsufficientConstraintGain { actual, minimum },
            );
        }
        let digest: SnapshotHash = screened.dataset_digest;
        let admission_observation: PnPObservation = commit.pnp_observation;
        let dataset_observation: PnPObservation = PnPObservation {
            binding_digest: digest,
            ..commit.pnp_observation
        };
        let id: CalibrationItemId = CalibrationItemId(self.next_id);
        self.next_id = advance_identity(self.next_id);
        self.items.push(
            CalibrationDatasetItem {
                id,
                input: commit.token.input,
                revision: commit.token.source_revision,
                display_name: commit.token.display_name,
                enabled: true,
                status: CalibrationItemStatus::Found(commit.detection),
                acquisition_key: commit.token.source_acquisition_key,
                pnp_observation: Some(dataset_observation),
                admission_pnp_observation: Some(admission_observation),
            },
        );
        self.selected = Some(id);
        self.invalidate_solution();
        Ok(id)
    }

    /// Takes the enabled detections of one image size as a calibration request.
    pub fn calibration_snapshot(&self, initial_intrinsics: InitialIntrinsics) -> (r: Result<
        CalibrationSnapshot,
        CalibrationSessionError,
    >)
        ensures
            match snapshot_fault(self@, initial_intrinsics) {
                Some(e) => r == Err::<CalibrationSnapshot, CalibrationSessionError>(e),
                None => {
                    let views = usable_views(self@.items);
                    &&& r is Ok
                    &&& r->Ok_0.item_ids@ == view_ids(views)
                    &&& r->Ok_0.request.image_size == views[0].1.image_size
                    &&& r->Ok_0.request.board == self@.board
                    &&& corner_lists(r->Ok_0.request.image_points@) == view_corners(views)
                    &&& r->Ok_0.request.initial_intrinsics == initial_intrinsics
                    &&& r->Ok_0.solution_revision == self@.solution_revision
                },
            },
    {
        let mut item_ids: Vec<CalibrationItemId> = Vec::new();
        let mut image_points: Vec<Vec<CalibrationPoint>> = Vec::new();
        let mut image_size: Option<CalibrationImageSize> = None;
        let ghost items = self.items@;
        let mut i: usize = 0;
        proof {
            assert(items.take(0) =~= Seq::<CalibrationDatasetItem>::empty());
            assert(item_ids@ =~= view_ids(usable_views(items.take(0))));
            assert(corner_lists(image_points@) =~= view_corners(usable_views(items.take(0))));
        }
        while i < self.items.len()
            invariant
                i <= self.items@.len(),
                items == self.items@,
                item_ids@ == view_ids(usable_views(items.take(i as int))),
                corner_lists(image_points@) == view_corners(usable_views(items.take(i as int))),
                odd_size(usable_views(items.take(i as int))) is None,
                match image_size {
                    Some(size) => usable_views(items.take(i as int)).len() > 0 && size
                        == usable_views(items.take(i as int))[0].1.image_size,
                    None => usable_views(items.take(i as int)).len() == 0,
                },
            decreases self.items@.len() - i,
        {
            let ghost earlier = usable_views(items.take(i as int));
            let ghost now = usable_views(items.take(i + 1));
            let item: &CalibrationDatasetItem = &self.items[i];
            proof {
                assert(items.take(i + 1).drop_last() =~= items.take(i as int));
                assert(items.take(i + 1).last() == *item);
            }
            if item.enabled {
                match &item.status {
                    CalibrationItemStatus::Found(detection) => {
                        proof {
                            assert(now == earlier.push((item.id, *detection)));
                            assert(now.drop_last() =~= earlier);
                        }
                        match image_size {
                            Some(expected) => {
                                if expected != detection.image_size {
                                    proof {
                                        lemma_usable_views_prefix(items, i + 1);
                                        lemma_odd_size_stays(
                                            usable_views(items),
                                            now.len() as int,
                                        );
                                        assert(usable_views(items).take(now.len() as int)[0]
                                            == usable_views(items)[0]);
                                    }
                                    return Err(
                                        CalibrationSessionError::MixedImageSizes {
                                            expected,
                                            actual: detection.image_size,
                                        },
                                    );
                                }
                            },
                            None => {
                                image_size = Some(detection.image_size);
                            },
                        }
                        let ghost lists = corner_lists(image_points@);
                        item_ids.push(item.id);
                        image_points.push(copy_points(&detection.corners));
                        proof {
                            assert(item_ids@ =~= view_ids(now));
                            assert(corner_lists(image_points@) =~= lists.push(detection.corners@));
                            assert(view_corners(now) =~= view_corners(earlier).push(
                                detection.corners@,
                            ));
                        }
                    },
                    _ => {},
                }
            }
            i = i + 1;
        }
        proof {
            assert(items.take(i as int) =~= items);
            assert(item_ids@.len() == usable_views(items).len());
        }
        if item_ids.len() < MIN_CALIBRATION_VIEWS {
            return Err(
                CalibrationSessionError::NotEnoughViews {
                    found: item_ids.len(),
                    required: MIN_CALIBRATION_VIEWS,
                },
            );
        }
        let image_size: CalibrationImageSize = match image_size {
            Some(size) => size,
            None => {
                return Err(
                    CalibrationSessionError::NotEnoughViews {
                        found: 0,
                        required: MIN_CALIBRATION_VIEWS,
                    },
                );
            },
        };
        let request: CalibrationRequest = CalibrationRequest {
            image_size,
            board: self.board,
            image_points,
            initial_intrinsics,
        };
        match request.validate() {
            Err(e) => {
                return Err(CalibrationSessionError::InvalidData(e));
            },
            Ok(()) => {},
        }
        Ok(CalibrationSnapshot { item_ids, request, solution_revision: self.solution_revision })
    }

    /// Installs a solution of a snapshot that is still current.
    pub fn install_solution(
        &mut self,
        snapshot: CalibrationSnapshot,
        solution: CalibrationSolution,
    ) -> (r: Result<(), CalibrationSessionError>)
        ensures
            if snapshot.solution_revision != old(self)@.solution_revision {
                r == Err::<(), CalibrationSessionError>(CalibrationSessionError::StaleResult)
                    && final(self)@ == old(self)@
            } else {
                match solution.fault_against(snapshot.request) {
                    Some(e) => r == Err::<(), CalibrationSessionError>(
                        CalibrationSessionError::InvalidData(e),
                    ) && final(self)@ == old(self)@,
                    None => r is Ok && final(self)@ == (SessionState {
                        installed: Some(
                            InstalledCalibration {
                                item_ids: snapshot.item_ids,
                                request: snapshot.request,
                                solution,
                            },
                        ),
                        ..old(self)@
                    }),
                }
            },
    {
        if snapshot.solution_revision != self.solution_revision {
            return Err(CalibrationSessionError::StaleResult);
        }
        match solution.validate_against(&snapshot.request) {
            Err(e) => {
                return Err(CalibrationSessionError::InvalidData(e));
            },
            Ok(()) => {},
        }
        self.installed = Some(
            InstalledCalibration {
                item_ids: snapshot.item_ids,
                request: snapshot.request,
                solution,
            },
        );
        Ok(())
    }
}

} // verus!
