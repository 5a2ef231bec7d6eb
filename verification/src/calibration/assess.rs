//! Assessment of a dataset against acceptance criteria.
use crate::calibration::admission::{
    pose_bin_capacity_for_values, AutoCaptureAcceptanceCriteria, AutoCaptureBaseline,
    InitialIntrinsicsBinding,
};
use crate::calibration::coverage::{
    accumulated, capped_region_score, capped_region_target, capped_total, count_occupied, count_of,
    gained, lemma_accumulated_len, occupied_count, target_capped_region_gain, within, zero_counts,
    zeros,
};
use crate::calibration::error::{CalibrationSessionError, GeometryFault};
use crate::calibration::input::CalibrationItemId;
use crate::calibration::item::{CalibrationDatasetItem, CalibrationItemStatus};
use crate::calibration::pnp::{
    depth_range, detection_inside, ensure_detection_inside_image, ensure_min_adjacent_spacing,
    field_corner_counts, field_coverage, gap_state, pnp_coverage, pnp_coverage_for_criteria,
    pnp_depth_range_for_dataset, pnp_state_from_coverage_error, region_names, shortest,
    spacing_kept, AutoAdmissionPnpState, PnPObservation, PnpMeasurement,
};
use crate::digest::SnapshotHash;
use crate::ieee::{Real32, Real64};
use crate::model::{view_fault, BoardSpec, CalibrationImageSize, ChessboardDetection};
use vstd::prelude::*;

verus! {

/// What was computed from the corners of one detection under some criteria.
#[derive(Debug)]
pub struct DetectionMeasurement {
    /// Distances between the neighbouring corners of the board, in the order of
    /// [`crate::calibration::pnp::adjacent_pairs`].
    pub adjacent_distances: Vec<Real32>,
    /// The field column and row that each corner scales to.
    pub corner_positions: Vec<(usize, usize)>,
}

/// What was computed for one dataset item under some criteria.
#[derive(Debug)]
pub struct ItemMeasurement {
    pub detection: DetectionMeasurement,
    /// From the item's dataset evidence.
    pub pnp: PnpMeasurement,
    /// From the item's admission evidence.
    pub admission_pnp: PnpMeasurement,
}

/// The gain of one item in each dimension: corners towards field cells, corners towards depth
/// bins, views towards pose bins.
#[derive(Clone, Copy, Debug, PartialEq, Eq, Structural)]
pub struct RawGain {
    pub field: usize,
    pub depth: usize,
    pub pose: usize,
}

/// What one dataset item contributes to the coverage that the items before it left open.
#[derive(Clone, Debug, PartialEq, Eq)]
pub struct AutoAdmissionItemContribution {
    pub item_id: CalibrationItemId,
    pub gain: RawGain,
    pub pnp_state: AutoAdmissionPnpState,
    pub depth_covered: bool,
    pub pose_covered: bool,
}

/// The depth range of one item, for display alone.
#[derive(Clone, Debug, PartialEq, Eq)]
pub struct AutoAdmissionDepthRange {
    pub item_id: CalibrationItemId,
    pub minimum_depth: Real64,
    pub maximum_depth: Real64,
    pub pnp_state: AutoAdmissionPnpState,
    pub reprojection_rmse: Real64,
    pub max_reprojection_error: Real64,
}

/// The regions that one item touches, for display alone.
#[derive(Debug)]
pub struct AutoAdmissionItemVisualization {
    pub item_id: CalibrationItemId,
    pub field_cells: Vec<usize>,
    pub pose_bin: Option<usize>,
    pub pnp_state: AutoAdmissionPnpState,
}

/// What one dataset item covers.
#[derive(Debug)]
pub struct DatasetAdmissionItemCoverage {
    pub item_id: CalibrationItemId,
    pub field_corner_counts: Vec<(usize, usize)>,
    pub depth_corner_counts: Vec<(usize, usize)>,
    pub pose_bin: Option<usize>,
    pub pnp_state: AutoAdmissionPnpState,
}

/// Coverage by its values.
pub struct CoverageView {
    pub item_id: CalibrationItemId,
    pub field: Seq<(usize, usize)>,
    pub depth: Seq<(usize, usize)>,
    pub pose_bin: Option<usize>,
    pub pnp_state: AutoAdmissionPnpState,
}

impl View for DatasetAdmissionItemCoverage {
    type V = CoverageView;

    open spec fn view(&self) -> CoverageView {
        CoverageView {
            item_id: self.item_id,
            field: self.field_corner_counts@,
            depth: self.depth_corner_counts@,
            pose_bin: self.pose_bin,
            pnp_state: self.pnp_state,
        }
    }
}

impl CoverageView {
    /// The increment of the pose counts: one view in its bin.
    pub open spec fn pose(self) -> Seq<(usize, usize)> {
        match self.pose_bin {
            Some(bin) => seq![(bin, 1usize)],
            None => Seq::empty(),
        }
    }

    /// Whether every region is one that the criteria provide.
    pub open spec fn fits(self, c: AutoCaptureAcceptanceCriteria) -> bool {
        within(self.field, c.cells() as nat) && within(self.depth, c.pnp_depth_bins as nat)
            && within(self.pose(), c.pose_bins() as nat)
    }
}

/// Progress of a dataset towards its acceptance criteria.
#[derive(Debug)]
pub struct AutoAdmissionAssessment {
    pub active_criteria: Option<AutoCaptureAcceptanceCriteria>,
    pub field_columns: usize,
    pub field_rows: usize,
    pub field_counts: Vec<usize>,
    pub field_cells: usize,
    pub required_field_cells: usize,
    pub field_quota_filled: usize,
    pub required_field_quota: usize,
    pub depth_bin_counts: Vec<usize>,
    pub depth_bins: usize,
    pub required_depth_bins: usize,
    pub depth_quota_filled: usize,
    pub required_depth_quota: usize,
    pub pose_bin_counts: Vec<usize>,
    pub pose_bins: usize,
    pub required_pose_bins: usize,
    pub pose_quota_filled: usize,
    pub required_pose_quota: usize,
    /// The number of corners that field and depth gains are normalised by.
    pub corner_count: usize,
    /// The gain of a candidate on top of the dataset, when one was assessed.
    pub candidate_gain: Option<RawGain>,
    pub item_contributions: Vec<AutoAdmissionItemContribution>,
    pub depth_ranges: Vec<AutoAdmissionDepthRange>,
    pub item_visualizations: Vec<AutoAdmissionItemVisualization>,
    pub field_target_met: bool,
    pub depth_target_met: bool,
    pub pose_target_met: bool,
    pub collection_target_met: bool,
}

/// The values that `f` gives for `0..n`, in order, where it gives any.
pub open spec fn collected<T>(n: nat, f: spec_fn(int) -> Option<T>) -> Seq<T>
    decreases n,
{
    if n == 0 {
        Seq::empty()
    } else {
        let earlier = collected((n - 1) as nat, f);
        match f(n - 1) {
            Some(value) => earlier.push(value),
            None => earlier,
        }
    }
}

/// Field counts after some items.
pub open spec fn field_after(covers: Seq<CoverageView>, cells: nat) -> Seq<usize>
    decreases covers.len(),
{
    if covers.len() == 0 {
        zeros(cells)
    } else {
        accumulated(field_after(covers.drop_last(), cells), covers.last().field)
    }
}

/// Depth counts after some items.
pub open spec fn depth_after(covers: Seq<CoverageView>, bins: nat) -> Seq<usize>
    decreases covers.len(),
{
    if covers.len() == 0 {
        zeros(bins)
    } else {
        accumulated(depth_after(covers.drop_last(), bins), covers.last().depth)
    }
}

/// Pose counts after some items.
pub open spec fn pose_after(covers: Seq<CoverageView>, bins: nat) -> Seq<usize>
    decreases covers.len(),
{
    if covers.len() == 0 {
        zeros(bins)
    } else {
        accumulated(pose_after(covers.drop_last(), bins), covers.last().pose())
    }
}

/// The gain of an item on top of the items before it.
pub open spec fn gain_over(
    before: Seq<CoverageView>,
    cover: CoverageView,
    c: AutoCaptureAcceptanceCriteria,
) -> RawGain {
    RawGain {
        field: count_of(
            gained(field_after(before, c.cells() as nat), c.field_target_per_cell, cover.field),
        ),
        depth: count_of(
            gained(
                depth_after(before, c.pnp_depth_bins as nat),
                c.depth_target_per_bin,
                cover.depth,
            ),
        ),
        pose: count_of(
            gained(pose_after(before, c.pose_bins() as nat), c.pose_target_per_bin, cover.pose()),
        ),
    }
}

/// The contribution of the `i`-th covering item.
pub open spec fn contribution_at(
    covers: Seq<CoverageView>,
    i: int,
    c: AutoCaptureAcceptanceCriteria,
) -> AutoAdmissionItemContribution {
    AutoAdmissionItemContribution {
        item_id: covers[i].item_id,
        gain: gain_over(covers.take(i), covers[i], c),
        pnp_state: covers[i].pnp_state,
        depth_covered: covers[i].depth.len() > 0,
        pose_covered: covers[i].pose_bin is Some,
    }
}

/// The contributions of all covering items.
pub open spec fn contributions(covers: Seq<CoverageView>, c: AutoCaptureAcceptanceCriteria) -> Seq<
    AutoAdmissionItemContribution,
> {
    Seq::new(covers.len(), |i: int| contribution_at(covers, i, c))
}

/// Whether an assessment states the counts, quotas and targets of the given coverage.
pub open spec fn totals(
    a: AutoAdmissionAssessment,
    c: AutoCaptureAcceptanceCriteria,
    covers: Seq<CoverageView>,
) -> bool {
    let field = field_after(covers, c.cells() as nat);
    let depth = depth_after(covers, c.pnp_depth_bins as nat);
    let pose = pose_after(covers, c.pose_bins() as nat);
    &&& a.active_criteria == Some(c)
    &&& a.field_columns == c.field_columns
    &&& a.field_rows == c.field_rows
    &&& a.field_counts@ == field
    &&& a.field_cells == occupied_count(field)
    &&& a.required_field_cells == c.cells()
    &&& a.field_quota_filled == count_of(capped_total(field, c.field_target_per_cell))
    &&& a.required_field_quota == c.cells() * c.field_target_per_cell
    &&& a.depth_bin_counts@ == depth
    &&& a.depth_bins == occupied_count(depth)
    &&& a.required_depth_bins == c.pnp_depth_bins
    &&& a.depth_quota_filled == count_of(capped_total(depth, c.depth_target_per_bin))
    &&& a.required_depth_quota == c.pnp_depth_bins * c.depth_target_per_bin
    &&& a.pose_bin_counts@ == pose
    &&& a.pose_bins == occupied_count(pose)
    &&& a.required_pose_bins == c.pose_bins()
    &&& a.pose_quota_filled == count_of(capped_total(pose, c.pose_target_per_bin))
    &&& a.required_pose_quota == c.pose_bins() * c.pose_target_per_bin
    &&& a.field_target_met == (a.field_quota_filled >= a.required_field_quota)
    &&& a.depth_target_met == (a.depth_quota_filled >= a.required_depth_quota)
    &&& a.pose_target_met == (a.pose_quota_filled >= a.required_pose_quota)
    &&& a.collection_target_met == (a.field_target_met && a.depth_target_met && a.pose_target_met)
}

/// Whether every coverage fits the criteria.
pub open spec fn all_fit(covers: Seq<CoverageView>, c: AutoCaptureAcceptanceCriteria) -> bool {
    forall|i: int| 0 <= i < covers.len() ==> (#[trigger] covers[i]).fits(c)
}

/// The views of some coverages.
pub open spec fn cover_views(covers: Seq<DatasetAdmissionItemCoverage>) -> Seq<CoverageView> {
    covers.map_values(|cover: DatasetAdmissionItemCoverage| cover@)
}

/// Counts keep their number of regions.
pub proof fn lemma_after_len(covers: Seq<CoverageView>, c: AutoCaptureAcceptanceCriteria)
    requires
        all_fit(covers, c),
        c.pose_bins() >= 0,
    ensures
        field_after(covers, c.cells() as nat).len() == c.cells() as nat,
        depth_after(covers, c.pnp_depth_bins as nat).len() == c.pnp_depth_bins as nat,
        pose_after(covers, c.pose_bins() as nat).len() == c.pose_bins() as nat,
    decreases covers.len(),
{
    if covers.len() > 0 {
        let earlier = covers.drop_last();
        assert(all_fit(earlier, c)) by {
            assert forall|i: int| 0 <= i < earlier.len() implies (#[trigger] earlier[i]).fits(c) by {
                assert(earlier[i] == covers[i]);
            }
        }
        lemma_after_len(earlier, c);
        assert(covers.last().fits(c)) by {
            assert(covers.last() == covers[covers.len() - 1]);
        }
        lemma_accumulated_len(field_after(earlier, c.cells() as nat), covers.last().field);
        lemma_accumulated_len(depth_after(earlier, c.pnp_depth_bins as nat), covers.last().depth);
        lemma_accumulated_len(pose_after(earlier, c.pose_bins() as nat), covers.last().pose());
    }
}

proof fn lemma_bounds(c: AutoCaptureAcceptanceCriteria)
    requires
        c.fault() is None,
    ensures
        1 <= c.cells() <= 1024,
        1 <= c.pose_bins() <= usize::MAX,
        c.cells() * c.field_target_per_cell <= usize::MAX,
        c.pnp_depth_bins * c.depth_target_per_bin <= usize::MAX,
        c.pose_bins() * c.pose_target_per_bin <= usize::MAX,
{
    let cols = c.field_columns as int;
    let rows = c.field_rows as int;
    assert(1 <= cols * rows <= 1024) by (nonlinear_arith)
        requires
            1 <= cols <= 32,
            1 <= rows <= 32,
    ;
    let t = c.pnp_tilt_bins as int;
    let s = c.pnp_azimuth_sectors as int;
    assert(1 <= t * s) by (nonlinear_arith)
        requires
            1 <= t,
            1 <= s,
    ;
}

/// Coverage counts on their way through a dataset.
pub struct CoverageCounts {
    pub field: Vec<usize>,
    pub depth: Vec<usize>,
    pub pose: Vec<usize>,
}

impl CoverageCounts {
    /// Whether the counts are those after the given items.
    pub open spec fn after(self, covers: Seq<CoverageView>, c: AutoCaptureAcceptanceCriteria) -> bool {
        &&& self.field@ == field_after(covers, c.cells() as nat)
        &&& self.depth@ == depth_after(covers, c.pnp_depth_bins as nat)
        &&& self.pose@ == pose_after(covers, c.pose_bins() as nat)
    }

    /// Adds an item and returns its gain.
    fn take_in(
        &mut self,
        cover: &DatasetAdmissionItemCoverage,
        criteria: &AutoCaptureAcceptanceCriteria,
        Ghost(before): Ghost<Seq<CoverageView>>,
    ) -> (gain: RawGain)
        requires
            criteria.fault() is None,
            all_fit(before, *criteria),
            cover@.fits(*criteria),
            old(self).after(before, *criteria),
        ensures
            gain == gain_over(before, cover@, *criteria),
            final(self).after(before.push(cover@), *criteria),
    {
        proof {
            lemma_bounds(*criteria);
            lemma_after_len(before, *criteria);
            assert(before.push(cover@).drop_last() =~= before);
            assert(before.push(cover@).last() == cover@);
        }
        let field: usize = target_capped_region_gain(
            &mut self.field,
            criteria.field_target_per_cell,
            &cover.field_corner_counts,
        );
        let depth: usize = target_capped_region_gain(
            &mut self.depth,
            criteria.depth_target_per_bin,
            &cover.depth_corner_counts,
        );
        let mut pose_increment: Vec<(usize, usize)> = Vec::new();
        match cover.pose_bin {
            Some(bin) => pose_increment.push((bin, 1)),
            None => {},
        }
        proof {
            assert(pose_increment@ =~= cover@.pose());
        }
        let pose: usize = target_capped_region_gain(
            &mut self.pose,
            criteria.pose_target_per_bin,
            &pose_increment,
        );
        RawGain { field, depth, pose }
    }
}

/// Counts the coverage of all items and attributes to each what it contributes.
pub fn target_capped_item_contributions(
    item_coverage: &Vec<DatasetAdmissionItemCoverage>,
    criteria: &AutoCaptureAcceptanceCriteria,
) -> (r: (Vec<AutoAdmissionItemContribution>, CoverageCounts))
    requires
        criteria.fault() is None,
        all_fit(cover_views(item_coverage@), *criteria),
    ensures
        r.0@ == contributions(cover_views(item_coverage@), *criteria),
        r.1.after(cover_views(item_coverage@), *criteria),
{
    let ghost covers = cover_views(item_coverage@);
    proof {
        lemma_bounds(*criteria);
    }
    let pose_capacity: usize = match pose_bin_capacity_for_values(
        criteria.pnp_tilt_bins,
        criteria.pnp_azimuth_sectors,
        criteria.pnp_tilt_deadband_deg,
    ) {
        Some(n) => n,
        None => 0,
    };
    let mut counts: CoverageCounts = CoverageCounts {
        field: zero_counts(criteria.field_columns * criteria.field_rows),
        depth: zero_counts(criteria.pnp_depth_bins),
        pose: zero_counts(pose_capacity),
    };
    let mut out: Vec<AutoAdmissionItemContribution> = Vec::new();
    let mut i: usize = 0;
    proof {
        assert(covers.take(0) =~= Seq::<CoverageView>::empty());
    }
    while i < item_coverage.len()
        invariant
            i <= item_coverage@.len(),
            criteria.fault() is None,
            covers == cover_views(item_coverage@),
            all_fit(covers, *criteria),
            counts.after(covers.take(i as int), *criteria),
            out@.len() == i,
            forall|j: int|
                0 <= j < i ==> #[trigger] out@[j] == contribution_at(covers, j, *criteria),
        decreases item_coverage@.len() - i,
    {
        let cover: &DatasetAdmissionItemCoverage = &item_coverage[i];
        proof {
            assert(covers[i as int] == cover@);
            assert(covers[i as int].fits(*criteria));
            assert forall|j: int| 0 <= j < covers.take(i as int).len() implies (
            #[trigger] covers.take(i as int)[j]).fits(*criteria) by {
                assert(covers.take(i as int)[j] == covers[j]);
            }
            assert(covers.take(i as int).push(cover@) =~= covers.take(i + 1));
        }
        let gain: RawGain = counts.take_in(cover, criteria, Ghost(covers.take(i as int)));
        out.push(
            AutoAdmissionItemContribution {
                item_id: cover.item_id,
                gain,
                pnp_state: cover.pnp_state.clone(),
                depth_covered: cover.depth_corner_counts.len() > 0,
                pose_covered: cover.pose_bin.is_some(),
            },
        );
        i = i + 1;
    }
    proof {
        assert(covers.take(i as int) =~= covers);
        assert(out@ =~= contributions(covers, *criteria));
    }
    (out, counts)
}

/// Finishes an assessment from its counts.
fn conclude(
    criteria: &AutoCaptureAcceptanceCriteria,
    counts: CoverageCounts,
    corner_count: usize,
    candidate_gain: Option<RawGain>,
    item_contributions: Vec<AutoAdmissionItemContribution>,
    depth_ranges: Vec<AutoAdmissionDepthRange>,
    item_visualizations: Vec<AutoAdmissionItemVisualization>,
    Ghost(covers): Ghost<Seq<CoverageView>>,
) -> (a: AutoAdmissionAssessment)
    requires
        criteria.fault() is None,
        all_fit(covers, *criteria),
        counts.after(covers, *criteria),
    ensures
        totals(a, *criteria, covers),
        a.corner_count == corner_count,
        a.candidate_gain == candidate_gain,
        a.item_contributions == item_contributions,
        a.depth_ranges == depth_ranges,
        a.item_visualizations == item_visualizations,
{
    proof {
        lemma_bounds(*criteria);
        lemma_after_len(covers, *criteria);
    }
    let required_field_cells: usize = criteria.field_columns * criteria.field_rows;
    let field_cells: usize = count_occupied(&counts.field);
    let depth_bins: usize = count_occupied(&counts.depth);
    let pose_bins: usize = count_occupied(&counts.pose);
    let field_quota_filled: usize = capped_region_score(
        &counts.field,
        criteria.field_target_per_cell,
    );
    let required_field_quota: usize = capped_region_target(
        counts.field.len(),
        criteria.field_target_per_cell,
    );
    let depth_quota_filled: usize = capped_region_score(
        &counts.depth,
        criteria.depth_target_per_bin,
    );
    let required_depth_quota: usize = capped_region_target(
        counts.depth.len(),
        criteria.depth_target_per_bin,
    );
    let pose_quota_filled: usize = capped_region_score(&counts.pose, criteria.pose_target_per_bin);
    let required_pose_quota: usize = capped_region_target(
        counts.pose.len(),
        criteria.pose_target_per_bin,
    );
    let field_target_met: bool = field_quota_filled >= required_field_quota;
    let depth_target_met: bool = depth_quota_filled >= required_depth_quota;
    let pose_target_met: bool = pose_quota_filled >= required_pose_quota;
    AutoAdmissionAssessment {
        active_criteria: Some(*criteria),
        field_columns: criteria.field_columns,
        field_rows: criteria.field_rows,
        required_field_cells,
        field_cells,
        field_quota_filled,
        required_field_quota,
        depth_bins,
        required_depth_bins: criteria.pnp_depth_bins,
        depth_quota_filled,
        required_depth_quota,
        pose_bins,
        required_pose_bins: counts.pose.len(),
        pose_quota_filled,
        required_pose_quota,
        corner_count,
        candidate_gain,
        item_contributions,
        depth_ranges,
        item_visualizations,
        field_target_met,
        depth_target_met,
        pose_target_met,
        collection_target_met: field_target_met && depth_target_met && pose_target_met,
        field_counts: counts.field,
        depth_bin_counts: counts.depth,
        pose_bin_counts: counts.pose,
    }
}

/// Whether a detection counts in images of the given size under the given criteria.
pub open spec fn detection_counts(
    d: ChessboardDetection,
    m: DetectionMeasurement,
    size: CalibrationImageSize,
    c: AutoCaptureAcceptanceCriteria,
) -> bool {
    d.image_size == size && detection_inside(d.corners@, d.image_size) && spacing_kept(
        m.adjacent_distances@,
        c.min_adjacent_spacing_px,
    )
}

/// What a dataset item covers under the dataset's own binding; nothing when it does not count.
///
/// An item without usable pose evidence still covers field cells.
pub open spec fn dataset_cover(
    item: CalibrationDatasetItem,
    m: ItemMeasurement,
    board: BoardSpec,
    size: CalibrationImageSize,
    c: AutoCaptureAcceptanceCriteria,
    digest: Option<SnapshotHash>,
) -> Option<CoverageView> {
    match item.status {
        CalibrationItemStatus::Found(d) => if item.enabled && detection_counts(
            d,
            m.detection,
            size,
            c,
        ) {
            let field = field_coverage(c, m.detection.corner_positions@);
            match (digest, item.pnp_observation) {
                (None, _) => Some(
                    CoverageView {
                        item_id: item.id,
                        field,
                        depth: Seq::empty(),
                        pose_bin: None,
                        pnp_state: AutoAdmissionPnpState::MissingBinding,
                    },
                ),
                (Some(_), None) => Some(
                    CoverageView {
                        item_id: item.id,
                        field,
                        depth: Seq::empty(),
                        pose_bin: None,
                        pnp_state: AutoAdmissionPnpState::MissingObservation,
                    },
                ),
                (Some(digest), Some(o)) => match pnp_coverage(o, c, digest, board, m.pnp) {
                    Ok((depth, bin)) => Some(
                        CoverageView {
                            item_id: item.id,
                            field,
                            depth,
                            pose_bin: Some(bin as usize),
                            pnp_state: AutoAdmissionPnpState::Valid,
                        },
                    ),
                    Err(e) => Some(
                        CoverageView {
                            item_id: item.id,
                            field,
                            depth: Seq::empty(),
                            pose_bin: None,
                            pnp_state: gap_state(e),
                        },
                    ),
                },
            }
        } else {
            None
        },
        _ => None,
    }
}

/// The depth range of a dataset item, where it has one.
pub open spec fn dataset_depth_range(
    item: CalibrationDatasetItem,
    m: ItemMeasurement,
    board: BoardSpec,
    size: CalibrationImageSize,
    c: AutoCaptureAcceptanceCriteria,
    digest: Option<SnapshotHash>,
) -> Option<AutoAdmissionDepthRange> {
    match (dataset_cover(item, m, board, size, c, digest), digest, item.pnp_observation) {
        (Some(cover), Some(digest), Some(o)) => match depth_range(o, digest, board, m.pnp.pose) {
            Ok((minimum_depth, maximum_depth)) => Some(
                AutoAdmissionDepthRange {
                    item_id: item.id,
                    minimum_depth,
                    maximum_depth,
                    pnp_state: cover.pnp_state,
                    reprojection_rmse: o.reprojection_rmse,
                    max_reprojection_error: o.max_reprojection_error,
                },
            ),
            Err(_) => None,
        },
        _ => None,
    }
}

/// What a dataset item covers under active admission; nothing when it is of another source, does
/// not count, or lacks accepted evidence.
pub open spec fn admission_cover(
    item: CalibrationDatasetItem,
    m: ItemMeasurement,
    board: BoardSpec,
    baseline: AutoCaptureBaseline,
    binding: InitialIntrinsicsBinding,
) -> Option<CoverageView> {
    match (item.status, item.acquisition_key, item.admission_pnp_observation) {
        (CalibrationItemStatus::Found(d), Some(key), Some(o)) => if item.enabled && key@
            == baseline.acquisition_key@ && detection_counts(
            d,
            m.detection,
            binding.reference_image_size,
            baseline.criteria,
        ) {
            match pnp_coverage(o, baseline.criteria, binding.digest, baseline.board, m.admission_pnp) {
                Ok((depth, bin)) => Some(
                    CoverageView {
                        item_id: item.id,
                        field: field_coverage(baseline.criteria, m.detection.corner_positions@),
                        depth,
                        pose_bin: Some(bin as usize),
                        pnp_state: AutoAdmissionPnpState::Valid,
                    },
                ),
                Err(_) => None,
            }
        } else {
            None
        },
        _ => None,
    }
}

/// Checks a detection against image size, image bounds and corner spacing.
fn counts_under(
    detection: &ChessboardDetection,
    m: &DetectionMeasurement,
    size: CalibrationImageSize,
    criteria: &AutoCaptureAcceptanceCriteria,
) -> (r: bool)
    ensures
        r == detection_counts(*detection, *m, size, *criteria),
{
    detection.image_size == size && ensure_detection_inside_image(detection).is_ok()
        && ensure_min_adjacent_spacing(
        &m.adjacent_distances,
        criteria.min_adjacent_spacing_px,
    ).is_ok()
}

/// Finds what a dataset item covers under the dataset's own binding.
pub fn dataset_item_coverage(
    item: &CalibrationDatasetItem,
    m: &ItemMeasurement,
    board: BoardSpec,
    size: CalibrationImageSize,
    criteria: &AutoCaptureAcceptanceCriteria,
    digest: Option<SnapshotHash>,
) -> (r: Option<DatasetAdmissionItemCoverage>)
    requires
        criteria.fault() is None,
    ensures
        match dataset_cover(*item, *m, board, size, *criteria, digest) {
            Some(cover) => r is Some && r->Some_0@ == cover && cover.fits(*criteria),
            None => r is None,
        },
{
    let detection: &ChessboardDetection = match &item.status {
        CalibrationItemStatus::Found(d) => d,
        _ => {
            return None;
        },
    };
    if !item.enabled || !counts_under(detection, &m.detection, size, criteria) {
        return None;
    }
    proof {
        lemma_bounds(*criteria);
    }
    let field: Vec<(usize, usize)> = field_corner_counts(
        criteria,
        &m.detection.corner_positions,
    );
    let (depth, pose_bin, pnp_state): (Vec<(usize, usize)>, Option<usize>, AutoAdmissionPnpState) =
        match (digest, &item.pnp_observation) {
        (None, _) => (Vec::new(), None, AutoAdmissionPnpState::MissingBinding),
        (Some(_), None) => (Vec::new(), None, AutoAdmissionPnpState::MissingObservation),
        (Some(digest), Some(observation)) => match pnp_coverage_for_criteria(
            observation,
            criteria,
            digest,
            board,
            &m.pnp,
        ) {
            Ok((depth, bin)) => (depth, Some(bin), AutoAdmissionPnpState::Valid),
            Err(e) => (Vec::new(), None, pnp_state_from_coverage_error(e)),
        },
    };
    let cover: DatasetAdmissionItemCoverage = DatasetAdmissionItemCoverage {
        item_id: item.id,
        field_corner_counts: field,
        depth_corner_counts: depth,
        pose_bin,
        pnp_state,
    };
    proof {
        let want = dataset_cover(*item, *m, board, size, *criteria, digest)->Some_0;
        assert(cover@.depth =~= want.depth);
        assert(cover@ == want);
    }
    Some(cover)
}

/// Finds what a dataset item covers under active admission.
pub fn admission_item_coverage(
    item: &CalibrationDatasetItem,
    m: &ItemMeasurement,
    board: BoardSpec,
    baseline: &AutoCaptureBaseline,
    binding: &InitialIntrinsicsBinding,
) -> (r: Option<DatasetAdmissionItemCoverage>)
    requires
        baseline.criteria.fault() is None,
    ensures
        match admission_cover(*item, *m, board, *baseline, *binding) {
            Some(cover) => r is Some && r->Some_0@ == cover && cover.fits(baseline.criteria),
            None => r is None,
        },
{
    let same_source: bool = match &item.acquisition_key {
        Some(key) => key.eq_value(&baseline.acquisition_key),
        None => false,
    };
    if !item.enabled || !same_source {
        return None;
    }
    let detection: &ChessboardDetection = match &item.status {
        CalibrationItemStatus::Found(d) => d,
        _ => {
            return None;
        },
    };
    if !counts_under(detection, &m.detection, binding.reference_image_size, &baseline.criteria) {
        return None;
    }
    let observation: &PnPObservation = match &item.admission_pnp_observation {
        Some(o) => o,
        None => {
            return None;
        },
    };
    match pnp_coverage_for_criteria(
        observation,
        &baseline.criteria,
        binding.digest,
        baseline.board,
        &m.admission_pnp,
    ) {
        Ok((depth, bin)) => {
            proof {
                lemma_bounds(baseline.criteria);
            }
            let field: Vec<(usize, usize)> = field_corner_counts(
                &baseline.criteria,
                &m.detection.corner_positions,
            );
            Some(
                DatasetAdmissionItemCoverage {
                    item_id: item.id,
                    field_corner_counts: field,
                    depth_corner_counts: depth,
                    pose_bin: Some(bin),
                    pnp_state: AutoAdmissionPnpState::Valid,
                },
            )
        },
        Err(_) => None,
    }
}

/// What a dataset covers under its own binding, item by item.
pub open spec fn dataset_covers(
    items: Seq<CalibrationDatasetItem>,
    ms: Seq<ItemMeasurement>,
    board: BoardSpec,
    size: CalibrationImageSize,
    c: AutoCaptureAcceptanceCriteria,
    digest: Option<SnapshotHash>,
) -> Seq<CoverageView> {
    collected(items.len(), |i: int| dataset_cover(items[i], ms[i], board, size, c, digest))
}

/// The depth ranges of a dataset, for the items that have one.
pub open spec fn dataset_depth_ranges(
    items: Seq<CalibrationDatasetItem>,
    ms: Seq<ItemMeasurement>,
    board: BoardSpec,
    size: CalibrationImageSize,
    c: AutoCaptureAcceptanceCriteria,
    digest: Option<SnapshotHash>,
) -> Seq<AutoAdmissionDepthRange> {
    collected(items.len(), |i: int| dataset_depth_range(items[i], ms[i], board, size, c, digest))
}

/// What a dataset covers under active admission, item by item.
pub open spec fn admission_covers(
    items: Seq<CalibrationDatasetItem>,
    ms: Seq<ItemMeasurement>,
    board: BoardSpec,
    baseline: AutoCaptureBaseline,
    binding: InitialIntrinsicsBinding,
) -> Seq<CoverageView> {
    collected(items.len(), |i: int| admission_cover(items[i], ms[i], board, baseline, binding))
}

/// Whether visualizations show the given coverage.
pub open spec fn visualizes(
    shown: Seq<AutoAdmissionItemVisualization>,
    covers: Seq<CoverageView>,
) -> bool {
    shown.len() == covers.len() && forall|i: int|
        0 <= i < covers.len() ==> {
            &&& (#[trigger] shown[i]).item_id == covers[i].item_id
            &&& shown[i].field_cells@ == covers[i].field.map_values(
                |entry: (usize, usize)| entry.0,
            )
            &&& shown[i].pose_bin == covers[i].pose_bin
            &&& shown[i].pnp_state == covers[i].pnp_state
        }
}

/// What forbids a dataset assessment, if anything does.
pub open spec fn dataset_assessment_fault(
    board: BoardSpec,
    size: CalibrationImageSize,
    c: AutoCaptureAcceptanceCriteria,
    binding: Option<InitialIntrinsicsBinding>,
) -> Option<CalibrationSessionError> {
    match c.fault() {
        Some(f) => Some(CalibrationSessionError::InvalidAutoCaptureBaseline(f)),
        None => {
            let refused = match binding {
                None => None,
                Some(binding) => match binding.fault() {
                    Some(e) => Some(e),
                    None => if binding.reference_image_size != size {
                        Some(
                            CalibrationSessionError::RejectIncompatibleImageSize {
                                expected: binding.reference_image_size,
                                actual: size,
                            },
                        )
                    } else {
                        None
                    },
                },
            };
            match refused {
                Some(e) => Some(e),
                None => match board.fault() {
                    Some(e) => Some(CalibrationSessionError::InvalidData(e)),
                    None => None,
                },
            }
        },
    }
}

/// The digest of an optional binding.
pub open spec fn digest_of(binding: Option<InitialIntrinsicsBinding>) -> Option<SnapshotHash> {
    match binding {
        Some(binding) => Some(binding.digest),
        None => None,
    }
}

/// Assesses a dataset whatever source its items came from.
pub fn assess_dataset_acceptance(
    items: &Vec<CalibrationDatasetItem>,
    measurements: &Vec<ItemMeasurement>,
    board: BoardSpec,
    image_size: CalibrationImageSize,
    criteria: &AutoCaptureAcceptanceCriteria,
    pnp_binding: Option<&InitialIntrinsicsBinding>,
) -> (r: Result<AutoAdmissionAssessment, CalibrationSessionError>)
    requires
        measurements@.len() == items@.len(),
    ensures
        ({
            let binding = match pnp_binding {
                Some(b) => Some(*b),
                None => None,
            };
            let digest = digest_of(binding);
            let covers = dataset_covers(
                items@,
                measurements@,
                board,
                image_size,
                *criteria,
                digest,
            );
            match dataset_assessment_fault(board, image_size, *criteria, binding) {
                Some(e) => r == Err::<AutoAdmissionAssessment, CalibrationSessionError>(e),
                None => {
                    &&& r is Ok
                    &&& totals(r->Ok_0, *criteria, covers)
                    &&& all_fit(covers, *criteria)
                    &&& r->Ok_0.item_contributions@ == contributions(covers, *criteria)
                    &&& r->Ok_0.corner_count == board.corners()
                    &&& r->Ok_0.candidate_gain is None
                    &&& r->Ok_0.depth_ranges@ == dataset_depth_ranges(
                        items@,
                        measurements@,
                        board,
                        image_size,
                        *criteria,
                        digest,
                    )
                    &&& visualizes(r->Ok_0.item_visualizations@, covers)
                },
            }
        }),
{
    match criteria.validate() {
        Err(e) => {
            return Err(e);
        },
        Ok(()) => {},
    }
    let digest: Option<SnapshotHash> = match pnp_binding {
        Some(binding) => {
            match binding.validate() {
                Err(e) => {
                    return Err(e);
                },
                Ok(()) => {},
            }
            if binding.reference_image_size != image_size {
                return Err(
                    CalibrationSessionError::RejectIncompatibleImageSize {
                        expected: binding.reference_image_size,
                        actual: image_size,
                    },
                );
            }
            Some(binding.digest)
        },
        None => None,
    };
    let corner_count: usize = match board.corner_count() {
        Ok(n) => n,
        Err(e) => {
            return Err(CalibrationSessionError::InvalidData(e));
        },
    };
    let mut item_coverage: Vec<DatasetAdmissionItemCoverage> = Vec::new();
    let mut depth_ranges: Vec<AutoAdmissionDepthRange> = Vec::new();
    let mut item_visualizations: Vec<AutoAdmissionItemVisualization> = Vec::new();
    let ghost cover_at = |i: int|
        dataset_cover(items@[i], measurements@[i], board, image_size, *criteria, digest);
    let ghost range_at = |i: int|
        dataset_depth_range(items@[i], measurements@[i], board, image_size, *criteria, digest);
    let mut i: usize = 0;
    proof {
        assert(cover_views(item_coverage@) =~= collected(0, cover_at));
    }
    while i < items.len()
        invariant
            i <= items@.len(),
            measurements@.len() == items@.len(),
            criteria.fault() is None,
            cover_at == (|k: int|
                dataset_cover(items@[k], measurements@[k], board, image_size, *criteria, digest)),
            range_at == (|k: int|
                dataset_depth_range(
                    items@[k],
                    measurements@[k],
                    board,
                    image_size,
                    *criteria,
                    digest,
                )),
            cover_views(item_coverage@) == collected(i as nat, cover_at),
            all_fit(cover_views(item_coverage@), *criteria),
            depth_ranges@ == collected(i as nat, range_at),
            visualizes(item_visualizations@, cover_views(item_coverage@)),
        decreases items@.len() - i,
    {
        let item: &CalibrationDatasetItem = &items[i];
        let m: &ItemMeasurement = &measurements[i];
        let ghost earlier = cover_views(item_coverage@);
        match dataset_item_coverage(item, m, board, image_size, criteria, digest) {
            None => {
                proof {
                    assert(cover_at(i as int) is None);
                    assert(range_at(i as int) is None);
                }
            },
            Some(cover) => {
                match (digest, &item.pnp_observation) {
                    (Some(digest), Some(observation)) => {
                        match pnp_depth_range_for_dataset(observation, digest, board, &m.pnp.pose) {
                            Ok((minimum_depth, maximum_depth)) => {
                                depth_ranges.push(
                                    AutoAdmissionDepthRange {
                                        item_id: item.id,
                                        minimum_depth,
                                        maximum_depth,
                                        pnp_state: cover.pnp_state.clone(),
                                        reprojection_rmse: observation.reprojection_rmse,
                                        max_reprojection_error: observation.max_reprojection_error,
                                    },
                                );
                            },
                            Err(_) => {},
                        }
                    },
                    _ => {},
                }
                item_visualizations.push(
                    AutoAdmissionItemVisualization {
                        item_id: item.id,
                        field_cells: region_names(&cover.field_corner_counts),
                        pose_bin: cover.pose_bin,
                        pnp_state: cover.pnp_state.clone(),
                    },
                );
                let ghost added = cover@;
                item_coverage.push(cover);
                proof {
                    assert(cover_at(i as int) == Some(added));
                    assert(cover_views(item_coverage@) =~= earlier.push(added));
                    assert forall|j: int|
                        0 <= j < cover_views(item_coverage@).len() implies (
                    #[trigger] cover_views(item_coverage@)[j]).fits(*criteria) by {
                        if j < earlier.len() {
                            assert(cover_views(item_coverage@)[j] == earlier[j]);
                        }
                    }
                }
            },
        }
        i = i + 1;
    }
    let ghost covers = cover_views(item_coverage@);
    proof {
        assert(items@.len() == i);
    }
    let (item_contributions, counts) = target_capped_item_contributions(&item_coverage, criteria);
    Ok(
        conclude(
            criteria,
            counts,
            corner_count,
            None,
            item_contributions,
            depth_ranges,
            item_visualizations,
            Ghost(covers),
        ),
    )
}

/// A candidate for admission: its corners, its evidence and what was computed from them.
#[derive(Debug)]
pub struct CandidateEvidence<'a> {
    pub detection: &'a ChessboardDetection,
    pub observation: &'a PnPObservation,
    pub measurement: &'a DetectionMeasurement,
    pub pnp: &'a PnpMeasurement,
}

/// What a candidate covers, or why it is refused.
pub open spec fn candidate_cover(
    d: ChessboardDetection,
    o: PnPObservation,
    dm: DetectionMeasurement,
    pm: PnpMeasurement,
    board: BoardSpec,
    baseline: AutoCaptureBaseline,
    binding: InitialIntrinsicsBinding,
) -> Result<CoverageView, CalibrationSessionError> {
    match view_fault(d.corners@, board) {
        Some(e) => Err(CalibrationSessionError::InvalidData(e)),
        None => if d.image_size != binding.reference_image_size {
            Err(
                CalibrationSessionError::RejectIncompatibleImageSize {
                    expected: binding.reference_image_size,
                    actual: d.image_size,
                },
            )
        } else if !detection_inside(d.corners@, d.image_size) {
            Err(
                CalibrationSessionError::RejectInvalidCandidateGeometry(
                    GeometryFault::OutsideImage,
                ),
            )
        } else if !spacing_kept(
            dm.adjacent_distances@,
            baseline.criteria.min_adjacent_spacing_px,
        ) {
            Err(
                CalibrationSessionError::RejectInvalidCandidateGeometry(
                    GeometryFault::AdjacentSpacing {
                        minimum: shortest(dm.adjacent_distances@),
                        required: baseline.criteria.min_adjacent_spacing_px,
                    },
                ),
            )
        } else {
            match pnp_coverage(o, baseline.criteria, binding.digest, baseline.board, pm) {
                Err(e) => Err(e),
                Ok((depth, bin)) => Ok(
                    CoverageView {
                        item_id: CalibrationItemId(0),
                        field: field_coverage(baseline.criteria, dm.corner_positions@),
                        depth,
                        pose_bin: Some(bin as usize),
                        pnp_state: AutoAdmissionPnpState::Valid,
                    },
                ),
            }
        },
    }
}

/// Finds what a candidate covers, or why it is refused.
pub fn candidate_coverage(
    candidate: &CandidateEvidence,
    board: BoardSpec,
    baseline: &AutoCaptureBaseline,
    binding: &InitialIntrinsicsBinding,
) -> (r: Result<DatasetAdmissionItemCoverage, CalibrationSessionError>)
    requires
        baseline.criteria.fault() is None,
    ensures
        match candidate_cover(
            *candidate.detection,
            *candidate.observation,
            *candidate.measurement,
            *candidate.pnp,
            board,
            *baseline,
            *binding,
        ) {
            Ok(cover) => r is Ok && r->Ok_0@ == cover && cover.fits(baseline.criteria),
            Err(e) => r == Err::<DatasetAdmissionItemCoverage, CalibrationSessionError>(e),
        },
{
    match candidate.detection.validate(board) {
        Err(e) => {
            return Err(CalibrationSessionError::InvalidData(e));
        },
        Ok(()) => {},
    }
    if candidate.detection.image_size != binding.reference_image_size {
        return Err(
            CalibrationSessionError::RejectIncompatibleImageSize {
                expected: binding.reference_image_size,
                actual: candidate.detection.image_size,
            },
        );
    }
    match ensure_detection_inside_image(candidate.detection) {
        Err(e) => {
            return Err(e);
        },
        Ok(()) => {},
    }
    match ensure_min_adjacent_spacing(
        &candidate.measurement.adjacent_distances,
        baseline.criteria.min_adjacent_spacing_px,
    ) {
        Err(e) => {
            return Err(e);
        },
        Ok(()) => {},
    }
    match pnp_coverage_for_criteria(
        candidate.observation,
        &baseline.criteria,
        binding.digest,
        baseline.board,
        candidate.pnp,
    ) {
        Err(e) => Err(e),
        Ok((depth, bin)) => {
            proof {
                lemma_bounds(baseline.criteria);
            }
            let field: Vec<(usize, usize)> = field_corner_counts(
                &baseline.criteria,
                &candidate.measurement.corner_positions,
            );
            Ok(
                DatasetAdmissionItemCoverage {
                    item_id: CalibrationItemId(0),
                    field_corner_counts: field,
                    depth_corner_counts: depth,
                    pose_bin: Some(bin),
                    pnp_state: AutoAdmissionPnpState::Valid,
                },
            )
        },
    }
}

/// The coverage that an admission assessment counts: the dataset's, and the candidate's on top.
pub open spec fn with_candidate(
    covers: Seq<CoverageView>,
    candidate: Option<CoverageView>,
) -> Seq<CoverageView> {
    match candidate {
        Some(cover) => covers.push(cover),
        None => covers,
    }
}

/// Whether an admission assessment is right for the given dataset coverage and candidate.
pub open spec fn admission_assessed(
    a: AutoAdmissionAssessment,
    baseline: AutoCaptureBaseline,
    covers: Seq<CoverageView>,
    candidate: Option<CoverageView>,
) -> bool {
    &&& totals(a, baseline.criteria, with_candidate(covers, candidate))
    &&& a.item_contributions@ == contributions(covers, baseline.criteria)
    &&& a.corner_count == baseline.board.corners()
    &&& a.candidate_gain == (match candidate {
        Some(cover) => Some(gain_over(covers, cover, baseline.criteria)),
        None => None,
    })
    &&& a.depth_ranges@.len() == 0
    &&& a.item_visualizations@.len() == 0
}

/// Assesses a dataset under active admission, with a candidate on top when there is one.
pub fn assess_auto_admission_with(
    items: &Vec<CalibrationDatasetItem>,
    measurements: &Vec<ItemMeasurement>,
    board: BoardSpec,
    baseline: &AutoCaptureBaseline,
    binding: &InitialIntrinsicsBinding,
    candidate: Option<&CandidateEvidence>,
) -> (r: Result<AutoAdmissionAssessment, CalibrationSessionError>)
    requires
        measurements@.len() == items@.len(),
    ensures
        ({
            let covers = admission_covers(items@, measurements@, board, *baseline, *binding);
            match (baseline.fault(), binding.fault()) {
                (Some(e), _) => r == Err::<AutoAdmissionAssessment, CalibrationSessionError>(e),
                (None, Some(e)) => r == Err::<AutoAdmissionAssessment, CalibrationSessionError>(e),
                (None, None) => match candidate {
                    None => r is Ok && admission_assessed(r->Ok_0, *baseline, covers, None),
                    Some(evidence) => match candidate_cover(
                        *evidence.detection,
                        *evidence.observation,
                        *evidence.measurement,
                        *evidence.pnp,
                        board,
                        *baseline,
                        *binding,
                    ) {
                        Err(e) => r == Err::<AutoAdmissionAssessment, CalibrationSessionError>(e),
                        Ok(cover) => r is Ok && admission_assessed(
                            r->Ok_0,
                            *baseline,
                            covers,
                            Some(cover),
                        ),
                    },
                },
            }
        }),
{
    match baseline.validate() {
        Err(e) => {
            return Err(e);
        },
        Ok(()) => {},
    }
    match binding.validate() {
        Err(e) => {
            return Err(e);
        },
        Ok(()) => {},
    }
    let criteria: &AutoCaptureAcceptanceCriteria = &baseline.criteria;
    let mut item_coverage: Vec<DatasetAdmissionItemCoverage> = Vec::new();
    let ghost cover_at = |i: int|
        admission_cover(items@[i], measurements@[i], board, *baseline, *binding);
    let mut i: usize = 0;
    proof {
        assert(cover_views(item_coverage@) =~= collected(0, cover_at));
    }
    while i < items.len()
        invariant
            i <= items@.len(),
            measurements@.len() == items@.len(),
            baseline.criteria.fault() is None,
            *criteria == baseline.criteria,
            cover_at == (|k: int|
                admission_cover(items@[k], measurements@[k], board, *baseline, *binding)),
            cover_views(item_coverage@) == collected(i as nat, cover_at),
            all_fit(cover_views(item_coverage@), *criteria),
        decreases items@.len() - i,
    {
        let ghost earlier = cover_views(item_coverage@);
        match admission_item_coverage(&items[i], &measurements[i], board, baseline, binding) {
            None => {
                proof {
                    assert(cover_at(i as int) is None);
                }
            },
            Some(cover) => {
                let ghost added = cover@;
                item_coverage.push(cover);
                proof {
                    assert(cover_at(i as int) == Some(added));
                    assert(cover_views(item_coverage@) =~= earlier.push(added));
                    assert forall|j: int|
                        0 <= j < cover_views(item_coverage@).len() implies (
                    #[trigger] cover_views(item_coverage@)[j]).fits(*criteria) by {
                        if j < earlier.len() {
                            assert(cover_views(item_coverage@)[j] == earlier[j]);
                        }
                    }
                }
            },
        }
        i = i + 1;
    }
    let ghost covers = cover_views(item_coverage@);
    let (item_contributions, mut counts) = target_capped_item_contributions(
        &item_coverage,
        criteria,
    );
    let corner_count: usize = match baseline.board.corner_count() {
        Ok(n) => n,
        Err(e) => {
            return Err(CalibrationSessionError::InvalidData(e));
        },
    };
    match candidate {
        None => Ok(
            conclude(
                criteria,
                counts,
                corner_count,
                None,
                item_contributions,
                Vec::new(),
                Vec::new(),
                Ghost(covers),
            ),
        ),
        Some(evidence) => {
            let cover: DatasetAdmissionItemCoverage = match candidate_coverage(
                evidence,
                board,
                baseline,
                binding,
            ) {
                Ok(cover) => cover,
                Err(e) => {
                    return Err(e);
                },
            };
            let gain: RawGain = counts.take_in(&cover, criteria, Ghost(covers));
            proof {
                assert forall|j: int| 0 <= j < covers.push(cover@).len() implies (
                #[trigger] covers.push(cover@)[j]).fits(*criteria) by {
                    if j < covers.len() {
                        assert(covers.push(cover@)[j] == covers[j]);
                    }
                }
            }
            Ok(
                conclude(
                    criteria,
                    counts,
                    corner_count,
                    Some(gain),
                    item_contributions,
                    Vec::new(),
                    Vec::new(),
                    Ghost(covers.push(cover@)),
                ),
            )
        },
    }
}

} // verus!
