//! Composition of data flows: layers into a scene, datasets into grid coverage, and coverage into the
//! next target on the image grid.
use crate::asset::share;
use crate::engine::dataset::{
    counted, sample_views, CalibrationDataset, CalibrationDatasetSample, DatasetView, SampleView,
    CALIBRATION_DATASET_KIND,
};
use crate::engine::node::{channel_full, NodeAction, NodeError, NodeErrorView};
use crate::engine::nodes::config::{
    bool_or, config_bool, config_uint, failed, in_unit_interval, uint_or, unit_interval,
};
use crate::engine::nodes::frame_text::json_object;
use crate::engine::packet::{DataPacket, PacketView};
use crate::engine::runtime::{NodeRuntime, RuntimeView};
use crate::engine::spec::{has_output_port, has_port, NodeRuntimeState, NodeSpec, NodeView};
use crate::ieee::Real64;
use crate::json::{
    copy_json, lemma_array_tree, member_trees, trees, JsonMember, JsonTree, JsonValue,
};
use crate::model::ChessboardDetection;
use crate::text::{
    blank, concat3, concat5, decimal, decimal_text, is_blank, same_text,
};
use std::sync::Arc;
use vstd::prelude::*;

verus! {

/// The frame number that the origin of a sample gives.
pub open spec fn provenance_sequence(provenance: JsonTree) -> Option<u64> {
    match provenance.member("frameIdentity"@) {
        Some(identity) => identity.member_uint("frameSequence"@),
        None => None,
    }
}

/// An error of one sample.
pub open spec fn sample_error(index: int, what: Seq<char>) -> NodeErrorView {
    NodeErrorView::Precondition("dataset sample "@ + decimal(index as nat) + what)
}

/// Why a sample cannot be used; nothing where it can.
pub open spec fn sample_fault(sample: SampleView, index: int) -> Option<NodeErrorView> {
    let image = sample.image_ref;
    let size = sample.detection.image_size;
    if blank(sample.id) {
        Some(sample_error(index, " has an empty id"@))
    } else if blank(image.reference) || image.width == 0 || image.height == 0 {
        Some(sample_error(index, " has an invalid imageRef"@))
    } else if image.width != size.width || image.height != size.height {
        Some(sample_error(index, " imageRef size does not match detection image size"@))
    } else {
        match provenance_sequence(sample.provenance) {
            None => Some(
                sample_error(
                    index,
                    " provenance must contain frameIdentity.frameSequence"@,
                ),
            ),
            Some(sequence) => match sample.score {
                None => None,
                Some(score) => if !unit_interval(score.score) {
                    Some(sample_error(index, " has an invalid score"@))
                } else if score.frame_sequence != sequence {
                    Some(
                        sample_error(index, " score frameSequence does not match provenance"@),
                    )
                } else {
                    None
                },
            },
        }
    }
}

/// Why one of the samples cannot be used: the fault of the first such sample.
pub open spec fn samples_fault(samples: Seq<SampleView>) -> Option<NodeErrorView>
    decreases samples.len(),
{
    if samples.len() == 0 {
        None
    } else {
        match samples_fault(samples.drop_last()) {
            Some(error) => Some(error),
            None => sample_fault(samples.last(), samples.len() - 1),
        }
    }
}

/// Why a dataset cannot be used; nothing where it can.
pub open spec fn dataset_fault(dataset: DatasetView) -> Option<NodeErrorView> {
    if dataset.kind != CALIBRATION_DATASET_KIND@ {
        Some(NodeErrorView::Precondition("dataset payload kind must be calib.dataset.v1"@))
    } else if dataset.count != dataset.samples.len() {
        Some(
            NodeErrorView::Precondition(
                "dataset count "@ + decimal(dataset.count as nat) + " does not match "@ + decimal(
                    dataset.samples.len(),
                ) + " samples"@,
            ),
        )
    } else {
        samples_fault(dataset.samples)
    }
}

fn sample_failure(index: usize, what: &str) -> (r: NodeError)
    ensures
        r@ == sample_error(index as int, what@),
{
    NodeError::Precondition(
        concat3("dataset sample ", decimal_text(index as u64).as_str(), what),
    )
}

fn read_provenance_sequence(provenance: &JsonValue) -> (r: Option<u64>)
    ensures
        r == provenance_sequence(provenance@),
{
    match provenance.get("frameIdentity") {
        Some(identity) => identity.get_u64("frameSequence"),
        None => None,
    }
}

fn check_sample(sample: &CalibrationDatasetSample, index: usize) -> (r: Result<(), NodeError>)
    ensures
        match sample_fault(sample@, index as int) {
            Some(error) => failed(r, error),
            None => r is Ok,
        },
{
    if is_blank(sample.id.as_str()) {
        return Err(sample_failure(index, " has an empty id"));
    }
    let image = &sample.image_ref;
    if is_blank(image.reference.as_str()) || image.width == 0 || image.height == 0 {
        return Err(sample_failure(index, " has an invalid imageRef"));
    }
    let size = sample.detection.image_size;
    if image.width != size.width || image.height != size.height {
        return Err(
            sample_failure(index, " imageRef size does not match detection image size"),
        );
    }
    let sequence: u64 = match read_provenance_sequence(&sample.provenance) {
        Some(sequence) => sequence,
        None => {
            return Err(
                sample_failure(index, " provenance must contain frameIdentity.frameSequence"),
            );
        },
    };
    match sample.score {
        None => {},
        Some(score) => {
            if !in_unit_interval(score.score) {
                return Err(sample_failure(index, " has an invalid score"));
            }
            if score.frame_sequence != sequence {
                return Err(
                    sample_failure(index, " score frameSequence does not match provenance"),
                );
            }
        },
    }
    Ok(())
}

proof fn lemma_samples_fault_persists(samples: Seq<SampleView>, i: int)
    requires
        0 <= i <= samples.len(),
        samples_fault(samples.take(i)) is Some,
    ensures
        samples_fault(samples) == samples_fault(samples.take(i)),
    decreases samples.len() - i,
{
    if i < samples.len() {
        assert(samples.take(i + 1).drop_last() =~= samples.take(i));
        lemma_samples_fault_persists(samples, i + 1);
    } else {
        assert(samples.take(i) =~= samples);
    }
}

/// Checks a dataset before anything is computed from it.
pub fn check_calibration_dataset(dataset: &CalibrationDataset) -> (r: Result<(), NodeError>)
    ensures
        match dataset_fault(dataset@) {
            Some(error) => failed(r, error),
            None => r is Ok,
        },
{
    if !same_text(dataset.kind.as_str(), CALIBRATION_DATASET_KIND) {
        return Err(NodeError::precondition("dataset payload kind must be calib.dataset.v1"));
    }
    let ghost views = sample_views(dataset.samples@);
    if dataset.count != dataset.samples.len() {
        return Err(
            NodeError::Precondition(
                concat5(
                    "dataset count ",
                    decimal_text(dataset.count as u64).as_str(),
                    " does not match ",
                    decimal_text(dataset.samples.len() as u64).as_str(),
                    " samples",
                ),
            ),
        );
    }
    let mut i: usize = 0;
    proof {
        assert(views.take(0) =~= Seq::<SampleView>::empty());
    }
    while i < dataset.samples.len()
        invariant
            i <= dataset.samples@.len() == views.len(),
            views == sample_views(dataset.samples@),
            dataset@.samples == views,
            dataset@.kind == CALIBRATION_DATASET_KIND@,
            dataset@.count == views.len(),
            samples_fault(views.take(i as int)) is None,
        decreases dataset.samples@.len() - i,
    {
        let ghost next = views.take(i + 1);
        proof {
            assert(next.drop_last() =~= views.take(i as int));
            assert(next.last() == dataset.samples@[i as int]@);
        }
        match check_sample(&dataset.samples[i], i) {
            Ok(()) => {},
            Err(error) => {
                proof {
                    lemma_samples_fault_persists(views, i + 1);
                }
                return Err(error);
            },
        }
        i = i + 1;
    }
    proof {
        assert(views.take(i as int) =~= views);
    }
    Ok(())
}

/// The detections of samples.
pub open spec fn detections(samples: Seq<SampleView>) -> Seq<ChessboardDetection> {
    samples.map_values(|sample: SampleView| sample.detection)
}

/// Shared detections by their values.
pub open spec fn shared_detections(items: Seq<Arc<ChessboardDetection>>) -> Seq<
    ChessboardDetection,
> {
    items.map_values(|item: Arc<ChessboardDetection>| *item)
}

/// The detections of the samples that count.
pub fn accepted_enabled_detections(dataset: &CalibrationDataset) -> (r: Vec<
    Arc<ChessboardDetection>,
>)
    ensures
        shared_detections(r@) == detections(counted(dataset@.samples)),
{
    let ghost views = sample_views(dataset.samples@);
    let mut r: Vec<Arc<ChessboardDetection>> = Vec::new();
    let mut i: usize = 0;
    proof {
        assert(views.take(0) =~= Seq::<SampleView>::empty());
        assert(shared_detections(r@) =~= detections(counted(views.take(0))));
    }
    while i < dataset.samples.len()
        invariant
            i <= dataset.samples@.len() == views.len(),
            views == sample_views(dataset.samples@),
            shared_detections(r@) == detections(counted(views.take(i as int))),
        decreases dataset.samples@.len() - i,
    {
        let sample: &CalibrationDatasetSample = &dataset.samples[i];
        let ghost next = views.take(i + 1);
        let ghost before = shared_detections(r@);
        proof {
            assert(next.drop_last() =~= views.take(i as int));
            assert(next.last() == sample@);
        }
        if sample.acceptance.accepted && sample.acceptance.enabled {
            r.push(share(&sample.detection));
            proof {
                assert(shared_detections(r@) =~= before.push(*sample.detection));
                assert(detections(counted(next)) =~= detections(
                    counted(views.take(i as int)),
                ).push(*sample.detection));
            }
        }
        i = i + 1;
    }
    proof {
        assert(views.take(i as int) =~= views);
    }
    r
}

/// Nothing of a sample that was refused or disabled takes part in anything.
pub proof fn law_only_counted_samples_take_part(samples: Seq<SampleView>)
    ensures
        forall|i: int|
            0 <= i < counted(samples).len() ==> (
            #[trigger] counted(samples)[i]).acceptance.accepted && counted(
                samples,
            )[i].acceptance.enabled && samples.contains(counted(samples)[i]),
    decreases samples.len(),
{
    if samples.len() > 0 {
        let init = samples.drop_last();
        law_only_counted_samples_take_part(init);
        let all = counted(samples);
        assert forall|i: int| 0 <= i < all.len() implies (#[trigger] all[i]).acceptance.accepted
            && all[i].acceptance.enabled && samples.contains(all[i]) by {
            if i < counted(init).len() {
                assert(all[i] == counted(init)[i]);
                let k = choose|k: int| 0 <= k < init.len() && init[k] == all[i];
                assert(samples[k] == all[i]);
            } else {
                assert(samples[samples.len() - 1] == all[i]);
            }
        }
    }
}

pub struct OverlayComposerFactory;

impl OverlayComposerFactory {
    pub fn kind(&self) -> (r: &'static str)
        ensures
            r@ == "overlayComposer"@,
    {
        "overlayComposer"
    }

    pub fn instantiate(&self, spec: NodeSpec) -> (r: OverlayComposerNode)
        ensures
            r.spec == spec,
    {
        OverlayComposerNode { spec }
    }
}

/// Lets the layers of a scene through.
pub struct OverlayComposerNode {
    pub spec: NodeSpec,
}

impl OverlayComposerNode {
    pub fn on_start(&mut self, rt: &mut NodeRuntime) -> (r: Result<(), NodeError>)
        ensures
            r is Ok,
            *final(self) == *old(self),
            final(rt)@ == old(rt)@.reported(NodeRuntimeState::Ready, "waiting for layers"@),
    {
        rt.report_state(NodeRuntimeState::Ready, "waiting for layers");
        Ok(())
    }

    /// A layer goes out unchanged as part of the scene; one that finds no room is dropped.
    pub fn on_input(&mut self, port: &str, packet: DataPacket, rt: &mut NodeRuntime) -> (r: Result<
        (),
        NodeError,
    >)
        ensures
            r is Ok,
            *final(self) == *old(self),
            if port@ != "video"@ && port@ != "image"@ && port@ != "overlay"@ {
                final(rt)@ == old(rt)@
            } else {
                let emitted = if old(rt)@.accepts("scene"@) {
                    old(rt)@.emitted("scene"@, packet@)
                } else {
                    old(rt)@
                };
                final(rt)@ == emitted.noted("composed scene from `"@ + port@ + "`"@)
            },
    {
        if !same_text(port, "video") && !same_text(port, "image") && !same_text(port, "overlay") {
            return Ok(());
        }
        let _emitted: Result<(), NodeError> = rt.emit("scene", packet);
        rt.report_event(concat3("composed scene from `", port, "`").as_str());
        Ok(())
    }

    pub fn on_action(&mut self, action: NodeAction, _rt: &mut NodeRuntime) -> (r: Result<
        (),
        NodeError,
    >)
        ensures
            failed(r, NodeErrorView::UnsupportedAction(action.label())),
            *final(self) == *old(self),
            final(_rt)@ == old(_rt)@,
    {
        Err(NodeError::unsupported(&action))
    }

    pub fn on_stop(&mut self, rt: &mut NodeRuntime) -> (r: Result<(), NodeError>)
        ensures
            r is Ok,
            *final(self) == *old(self),
            final(rt)@ == old(rt)@.reported(NodeRuntimeState::Idle, "stopped"@),
    {
        rt.report_state(NodeRuntimeState::Idle, "stopped");
        Ok(())
    }
}

pub struct CoverageAnalyzerFactory;

impl CoverageAnalyzerFactory {
    pub fn kind(&self) -> (r: &'static str)
        ensures
            r@ == "coverageAnalyzer"@,
    {
        "coverageAnalyzer"
    }

    pub fn instantiate(&self, spec: NodeSpec) -> (r: CoverageAnalyzerNode)
        ensures
            r.spec == spec,
    {
        CoverageAnalyzerNode { spec }
    }
}

/// Tells which cells of the image grid the samples of a dataset cover.
pub struct CoverageAnalyzerNode {
    pub spec: NodeSpec,
}

/// The grid of a configuration.
pub open spec fn grid(config: JsonTree) -> Result<(u64, u64), NodeErrorView> {
    let cols = uint_or(config, "gridCols"@, u64::MAX, 6);
    let rows = uint_or(config, "gridRows"@, u64::MAX, 4);
    if cols == 0 || rows == 0 {
        Err(NodeErrorView::Config("gridCols and gridRows must be positive"@))
    } else if cols * rows > u64::MAX {
        Err(NodeErrorView::Config("coverage grid is too large"@))
    } else {
        Ok((cols, rows))
    }
}

fn read_grid(config: &JsonValue) -> (r: Result<(u64, u64), NodeError>)
    ensures
        match grid(config@) {
            Ok(grid) => r == Ok::<(u64, u64), NodeError>(grid),
            Err(error) => failed(r, error),
        },
{
    let cols: u64 = config_uint(config, "gridCols", u64::MAX, 6);
    let rows: u64 = config_uint(config, "gridRows", u64::MAX, 4);
    if cols == 0 || rows == 0 {
        return Err(NodeError::config("gridCols and gridRows must be positive"));
    }
    match cols.checked_mul(rows) {
        Some(_) => Ok((cols, rows)),
        None => Err(NodeError::config("coverage grid is too large")),
    }
}

/// Whether every corner of a detection is finite.
pub open spec fn finite_corners(detection: ChessboardDetection) -> bool {
    forall|i: int|
        0 <= i < detection.corners@.len() ==> (#[trigger] detection.corners@[i]).x.finite()
            && detection.corners@[i].y.finite()
}

/// Why a detection cannot be placed on the grid.
pub open spec fn geometry_fault(detection: ChessboardDetection, index: int) -> Option<
    NodeErrorView,
> {
    if detection.image_size.width == 0 || detection.image_size.height == 0
        || detection.corners@.len() == 0 {
        Some(sample_error(index, " has no usable image geometry"@))
    } else if !finite_corners(detection) {
        Some(sample_error(index, " contains non-finite corner"@))
    } else {
        None
    }
}

/// Why one of the detections cannot be placed: the fault of the first such detection.
pub open spec fn geometries_fault(items: Seq<ChessboardDetection>) -> Option<NodeErrorView>
    decreases items.len(),
{
    if items.len() == 0 {
        None
    } else {
        match geometries_fault(items.drop_last()) {
            Some(error) => Some(error),
            None => geometry_fault(items.last(), items.len() - 1),
        }
    }
}

proof fn lemma_geometries_fault_persists(items: Seq<ChessboardDetection>, i: int)
    requires
        0 <= i <= items.len(),
        geometries_fault(items.take(i)) is Some,
    ensures
        geometries_fault(items) == geometries_fault(items.take(i)),
    decreases items.len() - i,
{
    if i < items.len() {
        assert(items.take(i + 1).drop_last() =~= items.take(i));
        lemma_geometries_fault_persists(items, i + 1);
    } else {
        assert(items.take(i) =~= items);
    }
}

fn corners_finite(detection: &ChessboardDetection) -> (r: bool)
    ensures
        r == finite_corners(*detection),
{
    let mut i: usize = 0;
    while i < detection.corners.len()
        invariant
            i <= detection.corners@.len(),
            forall|j: int|
                0 <= j < i ==> (#[trigger] detection.corners@[j]).x.finite()
                    && detection.corners@[j].y.finite(),
        decreases detection.corners@.len() - i,
    {
        if !detection.corners[i].x.is_finite() || !detection.corners[i].y.is_finite() {
            return false;
        }
        i = i + 1;
    }
    true
}

fn check_geometries(items: &Vec<Arc<ChessboardDetection>>) -> (r: Result<(), NodeError>)
    ensures
        match geometries_fault(shared_detections(items@)) {
            Some(error) => failed(r, error),
            None => r is Ok,
        },
{
    let ghost views = shared_detections(items@);
    let mut i: usize = 0;
    proof {
        assert(views.take(0) =~= Seq::<ChessboardDetection>::empty());
    }
    while i < items.len()
        invariant
            i <= items@.len() == views.len(),
            views == shared_detections(items@),
            geometries_fault(views.take(i as int)) is None,
        decreases items@.len() - i,
    {
        let detection: &Arc<ChessboardDetection> = &items[i];
        let ghost next = views.take(i + 1);
        proof {
            assert(next.drop_last() =~= views.take(i as int));
            assert(next.last() == **detection);
            if geometries_fault(next) is Some {
                lemma_geometries_fault_persists(views, i + 1);
            }
        }
        if detection.image_size.width == 0 || detection.image_size.height == 0
            || detection.corners.len() == 0 {
            return Err(sample_failure(i, " has no usable image geometry"));
        }
        if !corners_finite(detection) {
            return Err(sample_failure(i, " contains non-finite corner"));
        }
        i = i + 1;
    }
    proof {
        assert(views.take(i as int) =~= views);
    }
    Ok(())
}

/// Detections that are to be placed on a grid.
pub struct CoverageJob {
    pub detections: Vec<Arc<ChessboardDetection>>,
    pub cols: u64,
    pub rows: u64,
}

/// A cell of the grid, by column and row.
#[derive(Clone, Copy, Debug, PartialEq, Eq, Structural)]
pub struct GridCell {
    pub col: u64,
    pub row: u64,
}

/// A cell moved onto the grid.
pub open spec fn on_grid(cell: GridCell, cols: u64, rows: u64) -> GridCell {
    GridCell {
        col: if cell.col < cols {
            cell.col
        } else {
            (cols - 1) as u64
        },
        row: if cell.row < rows {
            cell.row
        } else {
            (rows - 1) as u64
        },
    }
}

/// The cells that samples occupy.
pub open spec fn occupied_cells(cells: Seq<GridCell>, cols: u64, rows: u64) -> Set<GridCell> {
    cells.map_values(|cell: GridCell| on_grid(cell, cols, rows)).to_set()
}

/// The cell at a position, row by row.
pub open spec fn cell_at(k: int, cols: u64) -> GridCell {
    GridCell { col: (k % cols as int) as u64, row: (k / cols as int) as u64 }
}

/// The cells among the first `k` that no sample occupies, row by row.
pub open spec fn missing_cells(k: nat, cols: u64, occupied: Set<GridCell>) -> Seq<GridCell>
    decreases k,
{
    if k == 0 {
        Seq::empty()
    } else {
        let rest = missing_cells((k - 1) as nat, cols, occupied);
        let cell = cell_at(k - 1, cols);
        if occupied.contains(cell) {
            rest
        } else {
            rest.push(cell)
        }
    }
}

/// The coverage of a grid.
#[derive(Debug)]
pub struct GridCoverage {
    pub sample_count: usize,
    pub occupied: usize,
    pub total: u64,
    pub cols: u64,
    pub rows: u64,
    pub missing: Vec<GridCell>,
}

impl GridCoverage {
    /// Whether this is the coverage that samples in the given cells make.
    pub open spec fn describes(self, cells: Seq<GridCell>, cols: u64, rows: u64) -> bool {
        let occupied = occupied_cells(cells, cols, rows);
        &&& self.sample_count == cells.len()
        &&& self.occupied == occupied.len()
        &&& self.total == cols * rows
        &&& self.cols == cols
        &&& self.rows == rows
        &&& self.missing@ == missing_cells((cols * rows) as nat, cols, occupied)
    }
}

fn holds_cell(cells: &Vec<GridCell>, cell: GridCell) -> (r: bool)
    ensures
        r == cells@.contains(cell),
{
    let mut i: usize = 0;
    while i < cells.len()
        invariant
            i <= cells@.len(),
            forall|j: int| 0 <= j < i ==> #[trigger] cells@[j] != cell,
        decreases cells@.len() - i,
    {
        if cells[i] == cell {
            return true;
        }
        i = i + 1;
    }
    false
}

/// The coverage that samples in the given cells make. A cell beyond the grid counts as the nearest
/// one on it.
pub fn grid_coverage(cells: &Vec<GridCell>, cols: u64, rows: u64) -> (r: GridCoverage)
    requires
        cols > 0,
        rows > 0,
        cols * rows <= u64::MAX,
    ensures
        r.describes(cells@, cols, rows),
{
    let ghost placed = cells@.map_values(|cell: GridCell| on_grid(cell, cols, rows));
    let ghost occupied = placed.to_set();
    let mut distinct: Vec<GridCell> = Vec::new();
    let mut i: usize = 0;
    proof {
        assert(placed.take(0) =~= Seq::<GridCell>::empty());
        assert(distinct@.to_set() =~= placed.take(0).to_set());
    }
    while i < cells.len()
        invariant
            i <= cells@.len() == placed.len(),
            cols > 0,
            rows > 0,
            placed == cells@.map_values(|cell: GridCell| on_grid(cell, cols, rows)),
            distinct@.no_duplicates(),
            distinct@.to_set() == placed.take(i as int).to_set(),
        decreases cells@.len() - i,
    {
        let cell = GridCell {
            col: if cells[i].col < cols {
                cells[i].col
            } else {
                cols - 1
            },
            row: if cells[i].row < rows {
                cells[i].row
            } else {
                rows - 1
            },
        };
        let ghost before = distinct@;
        let ghost head = placed.take(i as int);
        let ghost next = placed.take(i + 1);
        proof {
            assert(placed[i as int] == cell);
            assert(next =~= head.push(cell));
            assert(next.to_set() =~= head.to_set().insert(cell)) by {
                lemma_push_to_set(head, cell);
            }
        }
        if !holds_cell(&distinct, cell) {
            distinct.push(cell);
            proof {
                assert(distinct@.to_set() =~= before.to_set().insert(cell)) by {
                    lemma_push_to_set(before, cell);
                }
            }
        } else {
            proof {
                assert(before.to_set().contains(cell));
                assert(before.to_set().insert(cell) =~= before.to_set());
            }
        }
        i = i + 1;
    }
    proof {
        assert(placed.take(i as int) =~= placed);
        distinct@.unique_seq_to_set();
    }
    let total: u64 = cols * rows;
    let mut missing: Vec<GridCell> = Vec::new();
    let mut k: u64 = 0;
    proof {
        assert(missing@ =~= Seq::<GridCell>::empty());
    }
    while k < total
        invariant
            k <= total,
            cols > 0,
            distinct@.to_set() == occupied,
            missing@ == missing_cells(k as nat, cols, occupied),
        decreases total - k,
    {
        let cell = GridCell { col: k % cols, row: k / cols };
        proof {
            assert(cell == cell_at(k as int, cols));
            assert(occupied.contains(cell) == distinct@.contains(cell));
        }
        if !holds_cell(&distinct, cell) {
            missing.push(cell);
        }
        k = k + 1;
    }
    GridCoverage {
        sample_count: cells.len(),
        occupied: distinct.len(),
        total,
        cols,
        rows,
        missing,
    }
}

proof fn lemma_push_to_set(s: Seq<GridCell>, x: GridCell)
    ensures
        s.push(x).to_set() == s.to_set().insert(x),
{
    let pushed = s.push(x);
    assert forall|y: GridCell| #[trigger] pushed.to_set().contains(y) == s.to_set().insert(
        x,
    ).contains(y) by {
        if s.contains(y) {
            let i = choose|i: int| 0 <= i < s.len() && s[i] == y;
            assert(pushed[i] == y);
        }
        if y == x {
            assert(pushed[s.len() as int] == x);
        }
        if pushed.contains(y) && y != x {
            let i = choose|i: int| 0 <= i < pushed.len() && pushed[i] == y;
            assert(s[i] == y);
        }
    }
    assert(pushed.to_set() =~= s.to_set().insert(x));
}

/// The occupied cells among the first `k`.
spec fn occupied_before(k: int, cols: u64, occupied: Set<GridCell>) -> Set<GridCell> {
    occupied.filter(|cell: GridCell| cell.row * cols + cell.col < k)
}

/// Every cell of the grid is either occupied or missing, and none is both.
pub proof fn law_cells_are_occupied_or_missing(cells: Seq<GridCell>, cols: u64, rows: u64)
    requires
        cols > 0,
        rows > 0,
        cols * rows <= u64::MAX,
    ensures
        occupied_cells(cells, cols, rows).len() + missing_cells(
            (cols * rows) as nat,
            cols,
            occupied_cells(cells, cols, rows),
        ).len() == cols * rows,
{
    let placed = cells.map_values(|cell: GridCell| on_grid(cell, cols, rows));
    let occupied = placed.to_set();
    let total = (cols * rows) as nat;
    assert forall|cell: GridCell| #[trigger] occupied.contains(cell) implies cell.col < cols
        && cell.row < rows by {
        let i = choose|i: int| 0 <= i < placed.len() && placed[i] == cell;
        assert(cell == on_grid(cells[i], cols, rows));
    }
    vstd::seq_lib::seq_to_set_is_finite(placed);
    lemma_counts(total, cols, rows, occupied);
    assert forall|cell: GridCell| #[trigger] occupied.contains(cell) implies cell.row * cols
        + cell.col < total by {
        assert(cell.row * cols + cell.col < rows * cols) by (nonlinear_arith)
            requires
                cell.row < rows,
                cell.col < cols,
        ;
        assert(rows * cols == cols * rows) by (nonlinear_arith);
    }
    assert(occupied_before(total as int, cols, occupied) =~= occupied);
}

proof fn lemma_counts(k: nat, cols: u64, rows: u64, occupied: Set<GridCell>)
    requires
        cols > 0,
        rows > 0,
        k <= cols * rows,
        cols * rows <= u64::MAX,
        occupied.finite(),
        forall|cell: GridCell| #[trigger]
            occupied.contains(cell) ==> cell.col < cols && cell.row < rows,
    ensures
        occupied_before(k as int, cols, occupied).len() + missing_cells(k, cols, occupied).len()
            == k,
    decreases k,
{
    if k == 0 {
        assert forall|cell: GridCell| #[trigger]
            occupied.contains(cell) implies cell.row * cols + cell.col >= 0 by {
            assert(cell.row * cols >= 0) by (nonlinear_arith);
        }
        assert(occupied_before(0, cols, occupied) =~= Set::empty());
    } else {
        lemma_counts((k - 1) as nat, cols, rows, occupied);
        let cell = cell_at(k - 1, cols);
        let before = occupied_before(k - 1, cols, occupied);
        let after = occupied_before(k as int, cols, occupied);
        assert(0 <= k - 1 < cols * rows);
        lemma_position(k - 1, cols, rows);
        assert forall|other: GridCell| #[trigger] occupied.contains(other) && other.row * cols
            + other.col == k - 1 implies other == cell by {
            lemma_position_unique(other.row as int, other.col as int, k - 1, cols as int);
        }
        if occupied.contains(cell) {
            assert(after =~= before.insert(cell));
            assert(!before.contains(cell));
        } else {
            assert(after =~= before);
        }
    }
}

proof fn lemma_position(k: int, cols: u64, rows: u64)
    requires
        cols > 0,
        0 <= k < cols * rows,
        cols * rows <= u64::MAX,
    ensures
        cell_at(k, cols).row * cols + cell_at(k, cols).col == k,
{
    let c = cols as int;
    assert(k == (k / c) * c + k % c) by (nonlinear_arith)
        requires
            c > 0,
    ;
    assert(0 <= k / c <= k) by (nonlinear_arith)
        requires
            c > 0,
            k >= 0,
    ;
    assert(0 <= k % c < c) by (nonlinear_arith)
        requires
            c > 0,
    ;
}

proof fn lemma_position_unique(row: int, col: int, k: int, cols: int)
    by (nonlinear_arith)
    requires
        cols > 0,
        0 <= col < cols,
        row * cols + col == k,
    ensures
        row == k / cols,
        col == k % cols,
{
}

/// A cell as a document.
pub open spec fn cell_tree(cell: GridCell) -> JsonTree {
    JsonTree::Object(
        seq![("col"@, JsonTree::Uint(cell.col)), ("row"@, JsonTree::Uint(cell.row))],
    )
}

fn cell_json(cell: GridCell) -> (r: JsonValue)
    ensures
        r@ == cell_tree(cell),
{
    let mut members: Vec<JsonMember> = Vec::new();
    members.push(JsonMember::new("col", JsonValue::Uint(cell.col)));
    members.push(JsonMember::new("row", JsonValue::Uint(cell.row)));
    proof {
        assert(member_trees(members@) =~= cell_tree(cell)->Object_0);
    }
    json_object(members)
}

/// A coverage as a document; `ratio` is the share of occupied cells.
pub open spec fn coverage_tree(coverage: GridCoverage, ratio: Real64) -> JsonTree {
    JsonTree::Object(
        seq![
            ("kind"@, JsonTree::Text("calib.coverage.v1"@)),
            ("sampleCount"@, JsonTree::Uint(coverage.sample_count as u64)),
            ("occupiedCells"@, JsonTree::Uint(coverage.occupied as u64)),
            ("totalCells"@, JsonTree::Uint(coverage.total)),
            ("coverageRatio"@, JsonTree::Real(ratio)),
            ("gridCols"@, JsonTree::Uint(coverage.cols)),
            ("gridRows"@, JsonTree::Uint(coverage.rows)),
            (
                "missingCells"@,
                JsonTree::Array(coverage.missing@.map_values(|cell: GridCell| cell_tree(cell))),
            ),
        ],
    )
}

fn coverage_json(coverage: &GridCoverage, ratio: Real64) -> (r: JsonValue)
    ensures
        r@ == coverage_tree(*coverage, ratio),
{
    let mut cells: Vec<JsonValue> = Vec::new();
    let mut i: usize = 0;
    while i < coverage.missing.len()
        invariant
            i <= coverage.missing@.len(),
            cells@.len() == i,
            forall|j: int|
                0 <= j < i ==> (#[trigger] cells@[j])@ == cell_tree(coverage.missing@[j]),
        decreases coverage.missing@.len() - i,
    {
        cells.push(cell_json(coverage.missing[i]));
        i = i + 1;
    }
    proof {
        lemma_array_tree(cells);
        assert(trees(cells@) =~= coverage.missing@.map_values(|cell: GridCell| cell_tree(cell)));
    }
    let mut members: Vec<JsonMember> = Vec::new();
    members.push(JsonMember::new("kind", JsonValue::string("calib.coverage.v1")));
    members.push(JsonMember::new("sampleCount", JsonValue::Uint(coverage.sample_count as u64)));
    members.push(JsonMember::new("occupiedCells", JsonValue::Uint(coverage.occupied as u64)));
    members.push(JsonMember::new("totalCells", JsonValue::Uint(coverage.total)));
    members.push(JsonMember::new("coverageRatio", JsonValue::Real(ratio)));
    members.push(JsonMember::new("gridCols", JsonValue::Uint(coverage.cols)));
    members.push(JsonMember::new("gridRows", JsonValue::Uint(coverage.rows)));
    members.push(JsonMember::new("missingCells", JsonValue::Array(cells)));
    proof {
        assert(member_trees(members@) =~= coverage_tree(*coverage, ratio)->Object_0);
    }
    json_object(members)
}

/// A packet, and an overlay beside it where the node has a port for one. The flag tells whether all
/// found room.
pub open spec fn with_overlay(
    rt: RuntimeView,
    port: Seq<char>,
    packet: PacketView,
    overlay: Option<JsonTree>,
) -> (RuntimeView, bool) {
    if !rt.accepts(port) {
        (rt, false)
    } else {
        let first = rt.emitted(port, packet);
        match overlay {
            None => (first, true),
            Some(tree) => if rt.accepts("overlay"@) {
                (first.emitted("overlay"@, PacketView::Json(tree)), true)
            } else {
                (first, false)
            },
        }
    }
}

/// The overlay that shows something under a name.
pub open spec fn overlay_tree(name: Seq<char>, shown: JsonTree) -> JsonTree {
    JsonTree::Object(seq![("kind"@, JsonTree::Text("overlay"@)), (name, shown)])
}

fn overlay_json(name: &str, shown: JsonValue) -> (r: JsonValue)
    ensures
        r@ == overlay_tree(name@, shown@),
{
    let mut members: Vec<JsonMember> = Vec::new();
    members.push(JsonMember::new("kind", JsonValue::string("overlay")));
    members.push(JsonMember::new(name, shown));
    proof {
        assert(member_trees(members@) =~= overlay_tree(name@, shown@)->Object_0);
    }
    json_object(members)
}

impl CoverageAnalyzerNode {
    pub fn on_start(&mut self, rt: &mut NodeRuntime) -> (r: Result<(), NodeError>)
        ensures
            r is Ok,
            *final(self) == *old(self),
            final(rt)@ == old(rt)@.reported(NodeRuntimeState::Ready, "waiting for dataset"@),
    {
        rt.report_state(NodeRuntimeState::Ready, "waiting for dataset");
        Ok(())
    }

    /// Begins to analyse a dataset: only samples that were accepted and are enabled take part, and
    /// each of them must have a place on the image. Nothing comes back for another port.
    pub fn on_input(&mut self, port: &str, packet: DataPacket) -> (r: Result<
        Option<CoverageJob>,
        NodeError,
    >)
        ensures
            *final(self) == *old(self),
            if port@ != "dataset"@ {
                r == Ok::<Option<CoverageJob>, NodeError>(None)
            } else {
                match packet@ {
                    PacketView::Dataset(dataset) => match dataset_fault(dataset) {
                        Some(error) => failed(r, error),
                        None => match grid(old(self).spec.config@) {
                            Err(error) => failed(r, error),
                            Ok((cols, rows)) => {
                                let items = detections(counted(dataset.samples));
                                match geometries_fault(items) {
                                    Some(error) => failed(r, error),
                                    None => r is Ok && r->Ok_0 is Some && shared_detections(
                                        r->Ok_0->Some_0.detections@,
                                    ) == items && r->Ok_0->Some_0.cols == cols
                                        && r->Ok_0->Some_0.rows == rows,
                                }
                            },
                        },
                    },
                    _ => failed(
                        r,
                        NodeErrorView::Precondition(
                            "coverageAnalyzer.dataset requires calib.dataset"@,
                        ),
                    ),
                }
            },
    {
        if !same_text(port, "dataset") {
            return Ok(None);
        }
        match packet {
            DataPacket::Dataset(dataset) => {
                match check_calibration_dataset(&dataset) {
                    Ok(()) => {},
                    Err(error) => {
                        return Err(error);
                    },
                }
                let detections: Vec<Arc<ChessboardDetection>> = accepted_enabled_detections(
                    &dataset,
                );
                let (cols, rows): (u64, u64) = match read_grid(&self.spec.config) {
                    Ok(grid) => grid,
                    Err(error) => {
                        return Err(error);
                    },
                };
                match check_geometries(&detections) {
                    Ok(()) => Ok(Some(CoverageJob { detections, cols, rows })),
                    Err(error) => Err(error),
                }
            },
            _ => Err(NodeError::precondition("coverageAnalyzer.dataset requires calib.dataset")),
        }
    }

    /// Publishes a coverage; `ratio` is the share of occupied cells.
    pub fn analyzed(&self, coverage: &GridCoverage, ratio: Real64, rt: &mut NodeRuntime) -> (r:
        Result<(), NodeError>)
        ensures
            ({
                let tree = coverage_tree(*coverage, ratio);
                let (after, all) = with_overlay(
                    old(rt)@,
                    "coverage"@,
                    PacketView::Coverage(tree),
                    if has_port(self.spec@.outputs, "overlay"@) {
                        Some(overlay_tree("coverage"@, tree))
                    } else {
                        None
                    },
                );
                if all {
                    r is Ok && final(rt)@ == after.noted(
                        "coverage: "@ + decimal(coverage.sample_count as nat)
                            + " accepted/enabled samples"@,
                    )
                } else {
                    failed(r, channel_full()) && final(rt)@ == after
                }
            }),
    {
        let document: Arc<JsonValue> = Arc::new(coverage_json(coverage, ratio));
        match rt.emit("coverage", DataPacket::Coverage(share(&document))) {
            Ok(()) => {},
            Err(error) => {
                return Err(error);
            },
        }
        if has_output_port(&self.spec, "overlay") {
            let overlay: JsonValue = overlay_json("coverage", copy_json(&document));
            match rt.emit("overlay", DataPacket::Json(Arc::new(overlay))) {
                Ok(()) => {},
                Err(error) => {
                    return Err(error);
                },
            }
        }
        rt.report_event(
            concat3(
                "coverage: ",
                decimal_text(coverage.sample_count as u64).as_str(),
                " accepted/enabled samples",
            ).as_str(),
        );
        Ok(())
    }

    pub fn on_action(&mut self, action: NodeAction, _rt: &mut NodeRuntime) -> (r: Result<
        (),
        NodeError,
    >)
        ensures
            failed(r, NodeErrorView::UnsupportedAction(action.label())),
            *final(self) == *old(self),
            final(_rt)@ == old(_rt)@,
    {
        Err(NodeError::unsupported(&action))
    }

    /// Takes a configuration with a usable grid; another one changes nothing.
    pub fn on_config_update(&mut self, config: JsonValue, _rt: &mut NodeRuntime) -> (r: Result<
        (),
        NodeError,
    >)
        ensures
            final(_rt)@ == old(_rt)@,
            match grid(config@) {
                Ok(_) => r is Ok && final(self).spec@ == (NodeView {
                    config: config@,
                    ..old(self).spec@
                }),
                Err(error) => failed(r, error) && *final(self) == *old(self),
            },
    {
        match read_grid(&config) {
            Ok(_) => {
                self.spec.config = config;
                Ok(())
            },
            Err(error) => Err(error),
        }
    }

    pub fn on_stop(&mut self, rt: &mut NodeRuntime) -> (r: Result<(), NodeError>)
        ensures
            r is Ok,
            *final(self) == *old(self),
            final(rt)@ == old(rt)@.reported(NodeRuntimeState::Idle, "stopped"@),
    {
        rt.report_state(NodeRuntimeState::Idle, "stopped");
        Ok(())
    }
}

pub struct PoseGuideFactory;

impl PoseGuideFactory {
    pub fn kind(&self) -> (r: &'static str)
        ensures
            r@ == "poseGuide"@,
    {
        "poseGuide"
    }

    pub fn instantiate(&self, spec: NodeSpec) -> (r: PoseGuideNode)
        ensures
            r.spec == spec,
    {
        PoseGuideNode { spec }
    }
}

/// Guides to the next cell of the image grid that no sample covers.
pub struct PoseGuideNode {
    pub spec: NodeSpec,
}

/// The first missing cell that a coverage document lists.
pub open spec fn first_missing(coverage: JsonTree) -> Option<GridCell> {
    match coverage.member("missingCells"@) {
        None => None,
        Some(list) => match list.items() {
            None => None,
            Some(items) => if items.len() == 0 {
                None
            } else {
                match (items[0].member_uint("col"@), items[0].member_uint("row"@)) {
                    (Some(col), Some(row)) => Some(GridCell { col, row }),
                    _ => None,
                }
            },
        },
    }
}

fn first_missing_cell(coverage: &JsonValue) -> (r: Option<GridCell>)
    ensures
        r == first_missing(coverage@),
{
    match coverage.get("missingCells") {
        None => None,
        Some(list) => match list.as_array() {
            None => None,
            Some(items) => {
                if items.len() == 0 {
                    return None;
                }
                proof {
                    assert(trees(items@)[0] == items@[0]@);
                }
                match (items[0].get_u64("col"), items[0].get_u64("row")) {
                    (Some(col), Some(row)) => Some(GridCell { col, row }),
                    _ => None,
                }
            },
        },
    }
}

/// A target as a document.
pub open spec fn target_tree(cell: GridCell) -> JsonTree {
    JsonTree::Object(
        seq![
            ("kind"@, JsonTree::Text("capture.target.v1"@)),
            ("gridCol"@, JsonTree::Uint(cell.col)),
            ("gridRow"@, JsonTree::Uint(cell.row)),
            ("reason"@, JsonTree::Text("uncovered-image-grid-cell"@)),
        ],
    )
}

fn target_json(cell: GridCell) -> (r: JsonValue)
    ensures
        r@ == target_tree(cell),
{
    let mut members: Vec<JsonMember> = Vec::new();
    members.push(JsonMember::new("kind", JsonValue::string("capture.target.v1")));
    members.push(JsonMember::new("gridCol", JsonValue::Uint(cell.col)));
    members.push(JsonMember::new("gridRow", JsonValue::Uint(cell.row)));
    members.push(JsonMember::new("reason", JsonValue::string("uncovered-image-grid-cell")));
    proof {
        assert(member_trees(members@) =~= target_tree(cell)->Object_0);
    }
    json_object(members)
}

/// What is said of a target.
pub open spec fn guided_text(cell: GridCell) -> Seq<char> {
    "guided next image-grid cell ("@ + decimal(cell.col as nat) + ", "@ + decimal(cell.row as nat)
        + ")"@
}

impl PoseGuideNode {
    pub fn on_start(&mut self, rt: &mut NodeRuntime) -> (r: Result<(), NodeError>)
        ensures
            r is Ok,
            *final(self) == *old(self),
            final(rt)@ == old(rt)@.reported(NodeRuntimeState::Ready, "waiting for coverage"@),
    {
        rt.report_state(NodeRuntimeState::Ready, "waiting for coverage");
        Ok(())
    }

    /// Guides to the first missing cell of a coverage; a complete one, and a guide that is not
    /// enabled, only leave a note.
    pub fn on_input(&mut self, port: &str, packet: DataPacket, rt: &mut NodeRuntime) -> (r: Result<
        (),
        NodeError,
    >)
        ensures
            *final(self) == *old(self),
            if port@ != "coverage"@ {
                r is Ok && final(rt)@ == old(rt)@
            } else if !bool_or(old(self).spec.config@, "enabled"@, true) {
                r is Ok && final(rt)@ == old(rt)@.noted("pose guide disabled"@)
            } else {
                match packet@ {
                    PacketView::Coverage(coverage) => match first_missing(coverage) {
                        None => r is Ok && final(rt)@ == old(rt)@.noted(
                            "coverage complete; no image-grid target"@,
                        ),
                        Some(cell) => {
                            let (after, all) = with_overlay(
                                old(rt)@,
                                "target"@,
                                PacketView::Target(target_tree(cell)),
                                if has_port(old(self).spec@.outputs, "overlay"@) {
                                    Some(overlay_tree("nextTarget"@, target_tree(cell)))
                                } else {
                                    None
                                },
                            );
                            if all {
                                r is Ok && final(rt)@ == after.noted(guided_text(cell))
                            } else {
                                failed(r, channel_full()) && final(rt)@ == after
                            }
                        },
                    },
                    _ => failed(
                        r,
                        NodeErrorView::Precondition("poseGuide.coverage requires calib.coverage"@),
                    ) && final(rt)@ == old(rt)@,
                }
            },
    {
        if !same_text(port, "coverage") {
            return Ok(());
        }
        if !config_bool(&self.spec.config, "enabled", true) {
            rt.report_event("pose guide disabled");
            return Ok(());
        }
        match packet {
            DataPacket::Coverage(coverage) => {
                let cell: GridCell = match first_missing_cell(&coverage) {
                    Some(cell) => cell,
                    None => {
                        rt.report_event("coverage complete; no image-grid target");
                        return Ok(());
                    },
                };
                match rt.emit("target", DataPacket::Target(Arc::new(target_json(cell)))) {
                    Ok(()) => {},
                    Err(error) => {
                        return Err(error);
                    },
                }
                if has_output_port(&self.spec, "overlay") {
                    let overlay: JsonValue = overlay_json("nextTarget", target_json(cell));
                    match rt.emit("overlay", DataPacket::Json(Arc::new(overlay))) {
                        Ok(()) => {},
                        Err(error) => {
                            return Err(error);
                        },
                    }
                }
                rt.report_event(
                    concat5(
                        "guided next image-grid cell (",
                        decimal_text(cell.col).as_str(),
                        ", ",
                        decimal_text(cell.row).as_str(),
                        ")",
                    ).as_str(),
                );
                Ok(())
            },
            _ => Err(NodeError::precondition("poseGuide.coverage requires calib.coverage")),
        }
    }

    pub fn on_action(&mut self, action: NodeAction, _rt: &mut NodeRuntime) -> (r: Result<
        (),
        NodeError,
    >)
        ensures
            failed(r, NodeErrorView::UnsupportedAction(action.label())),
            *final(self) == *old(self),
            final(_rt)@ == old(_rt)@,
    {
        Err(NodeError::unsupported(&action))
    }

    pub fn on_config_update(&mut self, config: JsonValue, _rt: &mut NodeRuntime) -> (r: Result<
        (),
        NodeError,
    >)
        ensures
            r is Ok,
            final(_rt)@ == old(_rt)@,
            final(self).spec@ == (NodeView { config: config@, ..old(self).spec@ }),
    {
        self.spec.config = config;
        Ok(())
    }

    pub fn on_stop(&mut self, rt: &mut NodeRuntime) -> (r: Result<(), NodeError>)
        ensures
            r is Ok,
            *final(self) == *old(self),
            final(rt)@ == old(rt)@.reported(NodeRuntimeState::Idle, "stopped"@),
    {
        rt.report_state(NodeRuntimeState::Idle, "stopped");
        Ok(())
    }
}

/// The guide goes to the first missing cell of the coverage that the analyser published, and to none
/// where the grid is covered.
pub proof fn law_guide_follows_coverage(coverage: GridCoverage, ratio: Real64)
    ensures
        first_missing(coverage_tree(coverage, ratio)) == (if coverage.missing@.len() == 0 {
            None::<GridCell>
        } else {
            Some(coverage.missing@[0])
        }),
{
    reveal_strlit("kind");
    reveal_strlit("sampleCount");
    reveal_strlit("occupiedCells");
    reveal_strlit("totalCells");
    reveal_strlit("coverageRatio");
    reveal_strlit("gridCols");
    reveal_strlit("gridRows");
    reveal_strlit("missingCells");
    reveal_strlit("col");
    reveal_strlit("row");
    let members = coverage_tree(coverage, ratio)->Object_0;
    reveal_with_fuel(crate::json::find_member, 9);
    assert("kind"@.len() != "missingCells"@.len());
    assert("sampleCount"@.len() != "missingCells"@.len());
    assert("occupiedCells"@.len() != "missingCells"@.len());
    assert("totalCells"@.len() != "missingCells"@.len());
    assert("coverageRatio"@.len() != "missingCells"@.len());
    assert("gridCols"@.len() != "missingCells"@.len());
    assert("gridRows"@.len() != "missingCells"@.len());
    assert(members.len() == 8);
    assert(crate::json::find_member(members, "missingCells"@) == Some(members[7].1));
    if coverage.missing@.len() > 0 {
        let cell = coverage.missing@[0];
        let tree = cell_tree(cell);
        assert("col"@[0] != "row"@[0]);
        assert(crate::json::find_member(tree->Object_0, "col"@) == Some(JsonTree::Uint(cell.col)));
        assert(crate::json::find_member(tree->Object_0, "row"@) == Some(JsonTree::Uint(cell.row)));
    }
}

} // verus!
