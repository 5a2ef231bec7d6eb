//! Laws of coverage: what the counts of field cells, depth bins and pose bins say of the corners and
//! views they were made from.
use crate::calibration::admission::{
    AutoCaptureAcceptanceCriteria, AutoCaptureBaseline, InitialIntrinsicsBinding,
};
use crate::calibration::assess::{
    admission_assessed, admission_cover, admission_covers, candidate_cover, collected,
    contributions, dataset_assessment_fault, dataset_cover, dataset_covers, dataset_depth_range,
    dataset_depth_ranges, depth_after, detection_counts, digest_of, field_after, gain_over,
    pose_after, totals, visualizes, AutoAdmissionAssessment, AutoAdmissionItemVisualization,
    CoverageView, DetectionMeasurement, ItemMeasurement,
};
use crate::calibration::coverage::{
    accumulated, capped_total, lemma_accumulated_len, occupied, occupied_count, ones, saturated,
    within, zeros,
};
use crate::calibration::error::CalibrationSessionError;
use crate::calibration::item::CalibrationDatasetItem;
use crate::calibration::pnp::{
    depth_coverage, depth_hits, depth_range, field_cell, field_coverage, first_behind, gap_state,
    least, neighbours, neighbours_of, pnp_coverage, pose_bin, pose_features, shortest, spacing_kept,
    CornerDepth, PnPGeometry, PnPObservation, PnpMeasurement, PoseMeasurement,
};
use crate::digest::SnapshotHash;
use crate::ieee::{nearest32, Real32, Real64};
use crate::model::{
    view_fault, BoardSpec, CalibrationImageSize, CalibrationPoint, ChessboardDetection,
};
use vstd::prelude::*;

verus! {

/// The number of members that have a property.
pub open spec fn how_many<A>(list: Seq<A>, p: spec_fn(A) -> bool) -> nat
    decreases list.len(),
{
    if list.len() == 0 {
        0
    } else {
        how_many(list.drop_last(), p) + if p(list.last()) {
            1nat
        } else {
            0nat
        }
    }
}

/// What the counts of some regions add up to.
pub open spec fn total_of(regions: Seq<(usize, usize)>) -> nat
    decreases regions.len(),
{
    if regions.len() == 0 {
        0
    } else {
        total_of(regions.drop_last()) + regions.last().1 as nat
    }
}

/// What counts add up to.
pub open spec fn sum_of(counts: Seq<usize>) -> nat
    decreases counts.len(),
{
    if counts.len() == 0 {
        0
    } else {
        sum_of(counts.drop_last()) + counts.last() as nat
    }
}

/// What some increments add to one region.
pub open spec fn added_to(increments: Seq<(usize, usize)>, region: int) -> nat
    decreases increments.len(),
{
    if increments.len() == 0 {
        0
    } else {
        added_to(increments.drop_last(), region) + if increments.last().0 == region {
            increments.last().1 as nat
        } else {
            0nat
        }
    }
}

/// Regions that are listed once each, in ascending order.
pub open spec fn ascending(regions: Seq<(usize, usize)>) -> bool {
    forall|i: int, j: int|
        0 <= i < j < regions.len() ==> (#[trigger] regions[i]).0 < (#[trigger] regions[j]).0
}

proof fn lemma_how_many_bound<A>(list: Seq<A>, p: spec_fn(A) -> bool)
    ensures
        how_many(list, p) <= list.len(),
    decreases list.len(),
{
    if list.len() > 0 {
        lemma_how_many_bound(list.drop_last(), p);
    }
}

proof fn lemma_how_many_all<A>(list: Seq<A>, p: spec_fn(A) -> bool)
    requires
        forall|i: int| 0 <= i < list.len() ==> p(#[trigger] list[i]),
    ensures
        how_many(list, p) == list.len(),
    decreases list.len(),
{
    if list.len() > 0 {
        let init = list.drop_last();
        assert forall|i: int| 0 <= i < init.len() implies p(#[trigger] init[i]) by {
            assert(init[i] == list[i]);
        }
        assert(p(list[list.len() - 1]));
        lemma_how_many_all(init, p);
    }
}

proof fn lemma_how_many_none<A>(list: Seq<A>, p: spec_fn(A) -> bool)
    ensures
        how_many(list, p) == 0 <==> (forall|i: int| 0 <= i < list.len() ==> !p(#[trigger] list[i])),
    decreases list.len(),
{
    if list.len() > 0 {
        let init = list.drop_last();
        lemma_how_many_none(init, p);
        assert forall|i: int| 0 <= i < init.len() implies init[i] == list[i] by {}
        assert(list.last() == list[list.len() - 1]);
        if how_many(list, p) == 0 {
            assert forall|i: int| 0 <= i < list.len() implies !p(#[trigger] list[i]) by {
                if i < init.len() {
                    assert(!p(init[i]));
                }
            }
        }
        if forall|i: int| 0 <= i < list.len() ==> !p(#[trigger] list[i]) {
            assert forall|i: int| 0 <= i < init.len() implies !p(#[trigger] init[i]) by {
                assert(!p(list[i]));
            }
        }
    }
}

/// What a list of regions says of the counts it was made from.
proof fn lemma_occupied(counts: Seq<usize>)
    requires
        counts.len() <= usize::MAX,
    ensures
        ascending(occupied(counts)),
        forall|k: int|
            0 <= k < occupied(counts).len() ==> {
                let (region, n) = #[trigger] occupied(counts)[k];
                region < counts.len() && counts[region as int] == n && n > 0
            },
        forall|region: int|
            0 <= region < counts.len() && #[trigger] counts[region] > 0 ==> occupied(
                counts,
            ).contains((region as usize, counts[region])),
        total_of(occupied(counts)) == sum_of(counts),
        occupied_count(counts) == occupied(counts).len(),
    decreases counts.len(),
{
    if counts.len() > 0 {
        let init = counts.drop_last();
        lemma_occupied(init);
        let earlier = occupied(init);
        let all = occupied(counts);
        assert forall|k: int| 0 <= k < all.len() implies {
            let (region, n) = #[trigger] all[k];
            region < counts.len() && counts[region as int] == n && n > 0
        } by {
            if k < earlier.len() {
                assert(all[k] == earlier[k]);
                assert(init[earlier[k].0 as int] == counts[earlier[k].0 as int]);
            }
        }
        assert forall|i: int, j: int| 0 <= i < j < all.len() implies (#[trigger] all[i]).0 < (
        #[trigger] all[j]).0 by {
            assert(all[i] == earlier[i]);
            if j < earlier.len() {
                assert(all[j] == earlier[j]);
            } else {
                let (region, n) = earlier[i];
                assert(region < init.len());
            }
        }
        assert forall|region: int|
            0 <= region < counts.len() && #[trigger] counts[region] > 0 implies all.contains(
            (region as usize, counts[region]),
        ) by {
            if region < init.len() {
                assert(init[region] == counts[region]);
                assert(earlier.contains((region as usize, init[region])));
                let k = choose|k: int|
                    0 <= k < earlier.len() && earlier[k] == (region as usize, init[region]);
                assert(all[k] == (region as usize, counts[region]));
            } else {
                assert(all[all.len() - 1] == (region as usize, counts[region]));
            }
        }
        if counts.last() != 0 {
            assert(all.drop_last() =~= earlier);
        }
    }
}

proof fn lemma_sum_update(counts: Seq<usize>, region: int, value: usize)
    requires
        0 <= region < counts.len(),
    ensures
        sum_of(counts.update(region, value)) == sum_of(counts) + value - counts[region],
        counts[region] <= sum_of(counts),
    decreases counts.len(),
{
    let updated = counts.update(region, value);
    if region == counts.len() - 1 {
        assert(updated.drop_last() =~= counts.drop_last());
    } else {
        assert(updated.drop_last() =~= counts.drop_last().update(region, value));
        lemma_sum_update(counts.drop_last(), region, value);
    }
}

proof fn lemma_zero_sum(n: nat)
    ensures
        sum_of(zeros(n)) == 0,
    decreases n,
{
    if n > 0 {
        assert(zeros(n).drop_last() =~= zeros((n - 1) as nat));
        lemma_zero_sum((n - 1) as nat);
    }
}

/// How often a region was hit.
spec fn hits_of(hits: Seq<usize>, region: int) -> nat {
    how_many(hits, |hit: usize| hit == region)
}

proof fn lemma_hits_bound(hits: Seq<usize>, region: int)
    ensures
        hits_of(hits, region) <= hits.len(),
    decreases hits.len(),
{
    if hits.len() > 0 {
        lemma_hits_bound(hits.drop_last(), region);
    }
}

/// Counting some hits, one by one.
proof fn lemma_counted(hits: Seq<usize>, n: nat)
    requires
        forall|i: int| 0 <= i < hits.len() ==> (#[trigger] hits[i]) < n,
        hits.len() <= usize::MAX,
    ensures
        accumulated(zeros(n), ones(hits)).len() == n,
        sum_of(accumulated(zeros(n), ones(hits))) == hits.len(),
        forall|region: int|
            0 <= region < n ==> #[trigger] accumulated(zeros(n), ones(hits))[region] == hits_of(
                hits,
                region,
            ),
    decreases hits.len(),
{
    if hits.len() == 0 {
        assert(ones(hits) =~= Seq::<(usize, usize)>::empty());
        lemma_zero_sum(n);
    } else {
        let init = hits.drop_last();
        assert forall|i: int| 0 <= i < init.len() implies (#[trigger] init[i]) < n by {
            assert(init[i] == hits[i]);
        }
        lemma_counted(init, n);
        assert(ones(hits).drop_last() =~= ones(init));
        let last = hits.last();
        assert(last == hits[hits.len() - 1]);
        assert(ones(hits).last() == (last, 1usize));
        let before = accumulated(zeros(n), ones(init));
        let after = accumulated(zeros(n), ones(hits));
        let here: int = last as int;
        assert(before[here] == hits_of(init, here));
        lemma_hits_bound(init, here);
        assert(after == before.update(last as int, (before[last as int] + 1) as usize));
        lemma_sum_update(before, last as int, (before[last as int] + 1) as usize);
        assert forall|region: int| 0 <= region < n implies #[trigger] after[region] == hits_of(
            hits,
            region,
        ) by {
            assert(before[region] == hits_of(init, region));
        }
    }
}

/// The number of corners whose depth is at least the least and at most the largest accepted depth.
pub open spec fn corners_in_range(
    c: AutoCaptureAcceptanceCriteria,
    depths: Seq<CornerDepth>,
) -> nat {
    how_many(
        depths,
        |d: CornerDepth| c.pnp_depth_min.at_most(d.depth) && d.depth.at_most(c.pnp_depth_max),
    )
}

/// The number of corners in the accepted range that scale to a bin; those past the last bin count in
/// the last one.
pub open spec fn corners_in_bin(
    c: AutoCaptureAcceptanceCriteria,
    depths: Seq<CornerDepth>,
    bin: int,
) -> nat {
    how_many(
        depths,
        |d: CornerDepth|
            c.pnp_depth_min.at_most(d.depth) && d.depth.at_most(c.pnp_depth_max) && (if d.bin
                < c.pnp_depth_bins {
                d.bin as int
            } else {
                c.pnp_depth_bins - 1
            }) == bin,
    )
}

proof fn lemma_depth_hits(c: AutoCaptureAcceptanceCriteria, depths: Seq<CornerDepth>, bin: int)
    requires
        c.pnp_depth_bins >= 1,
    ensures
        depth_hits(c, depths).len() == corners_in_range(c, depths),
        forall|i: int| 0 <= i < depth_hits(c, depths).len() ==> (#[trigger] depth_hits(
            c,
            depths,
        )[i]) < c.pnp_depth_bins,
        hits_of(depth_hits(c, depths), bin) == corners_in_bin(c, depths, bin),
    decreases depths.len(),
{
    if depths.len() > 0 {
        let init = depths.drop_last();
        lemma_depth_hits(c, init, bin);
        let earlier = depth_hits(c, init);
        let all = depth_hits(c, depths);
        if c.pnp_depth_min.at_most(depths.last().depth) && depths.last().depth.at_most(
            c.pnp_depth_max,
        ) {
            assert(all.drop_last() =~= earlier);
            assert forall|i: int| 0 <= i < all.len() implies (#[trigger] all[i])
                < c.pnp_depth_bins by {
                if i < earlier.len() {
                    assert(all[i] == earlier[i]);
                }
            }
        }
    }
}

/// The corners of a view are counted in depth bins exactly as far as they lie in the accepted
/// range: the counts of all bins add up to the number of corners whose depth is at least the least
/// and at most the largest accepted depth. Every listed bin holds the corners that scale to it, those
/// past the last bin in the last one. A view that lies wholly outside the range covers nothing.
pub proof fn law_depth_bins_hold_the_corners_in_range(
    c: AutoCaptureAcceptanceCriteria,
    board: BoardSpec,
    m: PnpMeasurement,
)
    requires
        c.pnp_depth_bins >= 1,
        m.corner_depths@.len() <= usize::MAX,
        depth_coverage(c, board, m) is Ok,
    ensures
        ({
            let regions = depth_coverage(c, board, m)->Ok_0;
            &&& total_of(regions) == corners_in_range(c, m.corner_depths@)
            &&& ascending(regions)
            &&& within(regions, c.pnp_depth_bins as nat)
            &&& forall|k: int|
                0 <= k < regions.len() ==> (#[trigger] regions[k]).1 > 0 && regions[k].1
                    == corners_in_bin(c, m.corner_depths@, regions[k].0 as int)
            &&& (forall|i: int|
                0 <= i < m.corner_depths@.len() ==> {
                    ||| (#[trigger] m.corner_depths@[i]).depth.below(c.pnp_depth_min)
                    ||| c.pnp_depth_max.below(m.corner_depths@[i].depth)
                }) ==> regions.len() == 0
        }),
{
    let depths = m.corner_depths@;
    let hits = depth_hits(c, depths);
    let n = c.pnp_depth_bins as nat;
    let range = |d: CornerDepth|
        c.pnp_depth_min.at_most(d.depth) && d.depth.at_most(c.pnp_depth_max);
    lemma_depth_hits(c, depths, 0);
    lemma_how_many_bound(depths, range);
    lemma_counted(hits, n);
    let counts = accumulated(zeros(n), ones(hits));
    lemma_occupied(counts);
    let regions = occupied(counts);
    assert forall|k: int| 0 <= k < regions.len() implies (#[trigger] regions[k]).1 > 0
        && regions[k].1 == corners_in_bin(c, depths, regions[k].0 as int) by {
        let (region, count) = regions[k];
        assert(counts[region as int] == count);
        lemma_depth_hits(c, depths, region as int);
    }
    assert forall|k: int| 0 <= k < regions.len() implies (#[trigger] regions[k]).0 < n by {
        let (region, count) = regions[k];
    }
    if forall|i: int|
        0 <= i < depths.len() ==> {
            ||| (#[trigger] depths[i]).depth.below(c.pnp_depth_min)
            ||| c.pnp_depth_max.below(depths[i].depth)
        } {
        lemma_how_many_none(depths, range);
        assert(total_of(regions) == 0);
        if regions.len() > 0 {
            let (region, count) = regions[regions.len() - 1];
            assert(count > 0);
            assert(false);
        }
    }
}

/// Whether a corner is in front of the camera.
pub open spec fn in_front(depth: Real64) -> bool {
    depth.finite() && (Real64 { bits: 0 }).below(depth)
}

proof fn lemma_first_behind(depths: Seq<CornerDepth>)
    ensures
        match first_behind(depths) {
            None => forall|i: int| 0 <= i < depths.len() ==> in_front((#[trigger] depths[i]).depth),
            Some(depth) => exists|i: int|
                0 <= i < depths.len() && (#[trigger] depths[i]).depth == depth && !in_front(depth)
                    && forall|j: int| 0 <= j < i ==> in_front((#[trigger] depths[j]).depth),
        },
    decreases depths.len(),
{
    if depths.len() > 0 {
        let init = depths.drop_last();
        lemma_first_behind(init);
        match first_behind(init) {
            None => {
                assert forall|i: int| 0 <= i < depths.len() - 1 implies in_front(
                    (#[trigger] depths[i]).depth,
                ) by {
                    assert(init[i] == depths[i]);
                }
                assert(depths[depths.len() - 1] == depths.last());
            },
            Some(depth) => {
                let i = choose|i: int|
                    0 <= i < init.len() && (#[trigger] init[i]).depth == depth && !in_front(depth)
                        && forall|j: int| 0 <= j < i ==> in_front((#[trigger] init[j]).depth);
                assert(depths[i].depth == depth);
                assert forall|j: int| 0 <= j < i implies in_front((#[trigger] depths[j]).depth) by {
                    assert(init[j] == depths[j]);
                }
            },
        }
    }
}

/// A view has depth coverage exactly where the board is usable, its rotation has a length, and every
/// corner is in front of the camera; it is the first corner that is not which the refusal names.
pub proof fn law_depth_coverage_needs_every_corner_in_front(
    c: AutoCaptureAcceptanceCriteria,
    board: BoardSpec,
    m: PnpMeasurement,
)
    ensures
        depth_coverage(c, board, m) is Ok <==> board.inner_cols >= 2 && board.inner_rows >= 2
            && in_front(board.square_size) && m.pose.rotation_magnitude.finite() && (forall|i: int|
            0 <= i < m.corner_depths@.len() ==> in_front((#[trigger] m.corner_depths@[i]).depth)),
{
    lemma_first_behind(m.corner_depths@);
}

proof fn lemma_mapped_hits(c: AutoCaptureAcceptanceCriteria, positions: Seq<(usize, usize)>, cell: int)
    requires
        1 <= c.field_columns <= 32,
        1 <= c.field_rows <= 32,
    ensures
        hits_of(positions.map_values(|p: (usize, usize)| field_cell(c, p)), cell)
            == corners_in_cell(c, positions, cell),
    decreases positions.len(),
{
    let f = |p: (usize, usize)| field_cell(c, p);
    let hits = positions.map_values(f);
    if positions.len() > 0 {
        let init = positions.drop_last();
        lemma_mapped_hits(c, init, cell);
        assert(hits.drop_last() =~= init.map_values(f));
        lemma_cell(c, positions.last());
    }
}

proof fn lemma_cell(c: AutoCaptureAcceptanceCriteria, p: (usize, usize))
    requires
        1 <= c.field_columns <= 32,
        1 <= c.field_rows <= 32,
    ensures
        field_cell(c, p) == least_of(p.1, (c.field_rows - 1) as usize) * c.field_columns + least_of(
            p.0,
            (c.field_columns - 1) as usize,
        ),
        0 <= field_cell(c, p) < c.field_columns * c.field_rows <= 1024,
{
    let row = least_of(p.1, (c.field_rows - 1) as usize);
    let col = least_of(p.0, (c.field_columns - 1) as usize);
    let cols = c.field_columns as int;
    let rows = c.field_rows as int;
    assert(0 <= row * cols + col < cols * rows && cols * rows <= 1024) by (nonlinear_arith)
        requires
            0 <= row,
            row + 1 <= rows,
            0 <= col < cols,
            cols <= 32,
            rows <= 32,
    ;
}

/// The smaller of two numbers.
pub open spec fn least_of(a: usize, b: usize) -> int {
    if a <= b {
        a as int
    } else {
        b as int
    }
}

/// The number of corners whose column and row are those of a field cell; a position past the last
/// column or row counts in the last one.
pub open spec fn corners_in_cell(
    c: AutoCaptureAcceptanceCriteria,
    positions: Seq<(usize, usize)>,
    cell: int,
) -> nat {
    how_many(
        positions,
        |p: (usize, usize)|
            least_of(p.1, (c.field_rows - 1) as usize) * c.field_columns + least_of(
                p.0,
                (c.field_columns - 1) as usize,
            ) == cell,
    )
}

/// Every corner is counted in one field cell: the counts add up to the number of corners, and a
/// listed cell holds the corners of its column and row.
pub proof fn law_field_cells_hold_every_corner(
    c: AutoCaptureAcceptanceCriteria,
    positions: Seq<(usize, usize)>,
)
    requires
        1 <= c.field_columns <= 32,
        1 <= c.field_rows <= 32,
        positions.len() <= usize::MAX,
    ensures
        ({
            let regions = field_coverage(c, positions);
            &&& total_of(regions) == positions.len()
            &&& ascending(regions)
            &&& within(regions, (c.field_columns * c.field_rows) as nat)
            &&& forall|k: int|
                0 <= k < regions.len() ==> (#[trigger] regions[k]).1 > 0 && regions[k].1
                    == corners_in_cell(c, positions, regions[k].0 as int)
        }),
{
    let n = (c.field_columns * c.field_rows) as nat;
    lemma_cell(c, (0usize, 0usize));
    let f = |p: (usize, usize)| field_cell(c, p);
    let hits = positions.map_values(f);
    assert forall|i: int| 0 <= i < hits.len() implies (#[trigger] hits[i]) < n by {
        lemma_cell(c, positions[i]);
    }
    lemma_counted(hits, n);
    let counts = accumulated(zeros(n), ones(hits));
    lemma_occupied(counts);
    let regions = occupied(counts);
    assert forall|k: int| 0 <= k < regions.len() implies (#[trigger] regions[k]).1 > 0
        && regions[k].1 == corners_in_cell(c, positions, regions[k].0 as int) by {
        let (region, count) = regions[k];
        assert(counts[region as int] == count);
        lemma_mapped_hits(c, positions, region as int);
    }
    assert forall|k: int| 0 <= k < regions.len() implies (#[trigger] regions[k]).0 < n by {
        let (region, count) = regions[k];
    }
}

/// A view has a pose bin exactly where its tilt is a number from zero to the largest accepted tilt
/// and its azimuth is finite. Where there is a centre bin it is bin zero, and it takes exactly the
/// tilts below the dead band. The other bins tell tilt and azimuth apart: from the bin both can be
/// read back.
pub proof fn law_pose_bins_tell_tilt_and_azimuth(
    c: AutoCaptureAcceptanceCriteria,
    g: PnPGeometry,
    m: PnpMeasurement,
)
    requires
        c.pnp_tilt_bins >= 1,
        c.pnp_azimuth_sectors >= 1,
        !c.pnp_tilt_max_deg.nan(),
    ensures
        pose_bin(c, g, m) is Ok <==> g.tilt_degrees.finite() && g.azimuth_degrees.finite() && (
        Real64 { bits: 0 }).at_most(g.tilt_degrees) && g.tilt_degrees.at_most(c.pnp_tilt_max_deg),
        pose_bin(c, g, m) is Ok ==> {
            let bin = pose_bin(c, g, m)->Ok_0;
            let centre = (Real64 { bits: 0 }).below(c.pnp_tilt_deadband_deg);
            let offset: int = if centre {
                1
            } else {
                0
            };
            if centre && g.tilt_degrees.below(c.pnp_tilt_deadband_deg) {
                bin == 0
            } else {
                &&& bin >= offset
                &&& (bin - offset) / (c.pnp_azimuth_sectors as int) == least_of(
                    m.tilt_bin,
                    (c.pnp_tilt_bins - 1) as usize,
                )
                &&& (bin - offset) % (c.pnp_azimuth_sectors as int) == least_of(
                    m.azimuth_sector,
                    (c.pnp_azimuth_sectors - 1) as usize,
                )
            }
        },
{
    if pose_bin(c, g, m) is Ok {
        let t = least_of(m.tilt_bin, (c.pnp_tilt_bins - 1) as usize);
        let s = least_of(m.azimuth_sector, (c.pnp_azimuth_sectors - 1) as usize);
        let n = c.pnp_azimuth_sectors as int;
        vstd::arithmetic::div_mod::lemma_fundamental_div_mod_converse(t * n + s, n, t, s);
        assert(t * n >= 0) by (nonlinear_arith)
            requires
                n >= 0,
                t >= 0,
        ;
    }
}

/// Evidence counts only where it was taken under the present binding, its figures are numbers that
/// are not negative, and neither its mean nor its largest error is above what is accepted. What it
/// then covers are the depth bins and the pose bin of its view.
pub proof fn law_accepted_evidence_keeps_its_limits(
    o: PnPObservation,
    c: AutoCaptureAcceptanceCriteria,
    digest: SnapshotHash,
    board: BoardSpec,
    m: PnpMeasurement,
)
    ensures
        pnp_coverage(o, c, digest, board, m) is Ok ==> {
            &&& o.binding_digest == digest
            &&& o.reprojection_rmse.finite() && o.max_reprojection_error.finite()
            &&& (Real64 { bits: 0 }).at_most(o.reprojection_rmse)
            &&& (Real64 { bits: 0 }).at_most(o.max_reprojection_error)
            &&& !c.pnp_max_rmse_px.below(o.reprojection_rmse)
            &&& !c.pnp_max_error_px.below(o.max_reprojection_error)
            &&& pnp_coverage(o, c, digest, board, m)->Ok_0.0 == depth_coverage(c, board, m)->Ok_0
            &&& forall|i: int|
                0 <= i < m.corner_depths@.len() ==> in_front((#[trigger] m.corner_depths@[i]).depth)
            &&& m.pose.tilt_degrees.at_most(c.pnp_tilt_max_deg) || c.pnp_tilt_max_deg.nan()
        },
        o.binding_digest != digest ==> pnp_coverage(o, c, digest, board, m) is Err,
{
    lemma_first_behind(m.corner_depths@);
}

/// The features of a pose: the nearest and the farthest of its outermost corners bound its depth
/// range, all of them in front of the camera.
pub proof fn law_depth_range_bounds_the_outer_corners(
    rotation: Seq<Real64>,
    translation: Seq<Real64>,
    board: BoardSpec,
    m: PoseMeasurement,
)
    requires
        pose_features(rotation, translation, board, m) is Ok,
    ensures
        ({
            let g = pose_features(rotation, translation, board, m)->Ok_0;
            &&& in_front(g.minimum_board_depth)
            &&& forall|i: int|
                0 <= i < 4 && !(#[trigger] m.boundary_depths@[i]).nan() ==> {
                    &&& g.minimum_board_depth.at_most(m.boundary_depths@[i])
                    &&& m.boundary_depths@[i].at_most(g.maximum_board_depth)
                }
            &&& exists|i: int| 0 <= i < 4 && #[trigger] m.boundary_depths@[i] == g.minimum_board_depth
            &&& exists|i: int| 0 <= i < 4 && #[trigger] m.boundary_depths@[i] == g.maximum_board_depth
            &&& g.depth == translation[2]
            &&& g.tilt_degrees == m.tilt_degrees
            &&& g.azimuth_degrees == m.azimuth_degrees
        }),
{
    let d = m.boundary_depths@;
    assert forall|i: int| 0 <= i < 4 && !(#[trigger] d[i]).nan() implies {
        let g = pose_features(rotation, translation, board, m)->Ok_0;
        &&& g.minimum_board_depth.at_most(d[i])
        &&& d[i].at_most(g.maximum_board_depth)
    } by {
        assert(i == 0 || i == 1 || i == 2 || i == 3);
    }
    let g = pose_features(rotation, translation, board, m)->Ok_0;
    assert(d[0] == g.minimum_board_depth || d[1] == g.minimum_board_depth || d[2]
        == g.minimum_board_depth || d[3] == g.minimum_board_depth);
    assert(d[0] == g.maximum_board_depth || d[1] == g.maximum_board_depth || d[2]
        == g.maximum_board_depth || d[3] == g.maximum_board_depth);
}

proof fn lemma_shortest(distances: Seq<Real32>)
    ensures
        !shortest(distances).nan(),
        forall|i: int|
            0 <= i < distances.len() && !(#[trigger] distances[i]).nan() ==> shortest(
                distances,
            ).at_most(distances[i]),
        shortest(distances).finite() ==> distances.contains(shortest(distances)),
    decreases distances.len(),
{
    if distances.len() > 0 {
        let init = distances.drop_last();
        lemma_shortest(init);
        assert forall|i: int| 0 <= i < distances.len() && !(#[trigger] distances[i]).nan() implies
            shortest(distances).at_most(distances[i]) by {
            if i < init.len() {
                assert(init[i] == distances[i]);
            }
        }
        if shortest(distances).finite() {
            if shortest(distances) == distances.last() {
                assert(distances[distances.len() - 1] == shortest(distances));
            } else {
                assert(init.contains(shortest(init)));
                let k = choose|k: int| 0 <= k < init.len() && init[k] == shortest(init);
                assert(distances[k] == shortest(distances));
            }
        }
    }
}

/// Corners keep their distance exactly where some distance is finite and none that is a number is
/// below the least one; the distance that a refusal names is one of them, and the smallest.
pub proof fn law_spacing_is_that_of_the_closest_corners(distances: Seq<Real32>, minimum: Real32)
    requires
        !minimum.nan(),
    ensures
        spacing_kept(distances, minimum) ==> forall|i: int|
            0 <= i < distances.len() && !(#[trigger] distances[i]).nan() ==> minimum.at_most(
                distances[i],
            ),
        spacing_kept(distances, minimum) ==> distances.len() > 0,
        (exists|i: int| 0 <= i < distances.len() && (#[trigger] distances[i]).below(minimum))
            ==> !spacing_kept(distances, minimum),
        shortest(distances).finite() && !spacing_kept(distances, minimum) ==> distances.contains(
            shortest(distances),
        ) && shortest(distances).below(minimum),
{
    lemma_shortest(distances);
}

/// What a detection needs to count: its image has the expected size, every corner is a point inside
/// the image, and no two neighbours are closer than accepted.
pub proof fn law_counting_detections_lie_inside_their_image(
    d: ChessboardDetection,
    m: DetectionMeasurement,
    size: CalibrationImageSize,
    c: AutoCaptureAcceptanceCriteria,
)
    ensures
        detection_counts(d, m, size, c) ==> {
            &&& d.image_size == size
            &&& forall|i: int|
                0 <= i < d.corners@.len() ==> inside((#[trigger] d.corners@[i]), size)
            &&& spacing_kept(m.adjacent_distances@, c.min_adjacent_spacing_px)
        },
        (exists|i: int| 0 <= i < d.corners@.len() && !inside((#[trigger] d.corners@[i]), size))
            ==> !detection_counts(d, m, size, c),
        d.image_size != size ==> !detection_counts(d, m, size, c),
{
    if exists|i: int| 0 <= i < d.corners@.len() && !inside((#[trigger] d.corners@[i]), size) {
        let i = choose|i: int|
            0 <= i < d.corners@.len() && !inside((#[trigger] d.corners@[i]), size);
        assert(!crate::calibration::pnp::point_inside(d.corners@[i], size));
    }
}

/// Whether a point lies in an image: neither coordinate is negative, and each is below the extent.
pub open spec fn inside(p: CalibrationPoint, size: CalibrationImageSize) -> bool {
    &&& (Real32 { bits: 0 }).at_most(p.x) && p.x.below(nearest32(size.width as int))
    &&& (Real32 { bits: 0 }).at_most(p.y) && p.y.below(nearest32(size.height as int))
    &&& p.x.finite() && p.y.finite()
}

/// An item takes part in the assessment of a dataset exactly where it is enabled and has a detection
/// that counts. It covers the field cells of its corners whatever its evidence is worth; depth bins
/// and a pose bin it covers only with valid evidence.
pub proof fn law_only_enabled_detections_cover(
    item: CalibrationDatasetItem,
    m: ItemMeasurement,
    board: BoardSpec,
    size: CalibrationImageSize,
    c: AutoCaptureAcceptanceCriteria,
    digest: Option<SnapshotHash>,
)
    ensures
        dataset_cover(item, m, board, size, c, digest) is Some <==> {
            &&& item.enabled
            &&& item.status is Found
            &&& detection_counts(item.status->Found_0, m.detection, size, c)
        },
        match dataset_cover(item, m, board, size, c, digest) {
            None => true,
            Some(cover) => {
                &&& cover.item_id == item.id
                &&& cover.field == field_coverage(c, m.detection.corner_positions@)
                &&& cover.pnp_state is Valid <==> cover.pose_bin is Some
                &&& !(cover.pnp_state is Valid) ==> cover.depth.len() == 0
                &&& digest is None <==> cover.pnp_state is MissingBinding
                &&& cover.pnp_state is MissingObservation <==> digest is Some
                    && item.pnp_observation is None
                &&& cover.pnp_state is Valid ==> {
                    let o = item.pnp_observation->Some_0;
                    &&& digest == Some(o.binding_digest)
                    &&& item.pnp_observation is Some
                    &&& !c.pnp_max_rmse_px.below(o.reprojection_rmse)
                    &&& !c.pnp_max_error_px.below(o.max_reprojection_error)
                    &&& Ok::<_, crate::calibration::error::CalibrationSessionError>(cover.depth)
                        == depth_coverage(c, board, m.pnp)
                }
                &&& cover.pnp_state is BindingGap <==> digest is Some && item.pnp_observation is Some
                    && item.pnp_observation->Some_0.binding_digest != digest->Some_0
                &&& cover.pnp_state is RmseReprojectionGap ==> c.pnp_max_rmse_px.below(
                    item.pnp_observation->Some_0.reprojection_rmse,
                )
                &&& cover.pnp_state is MaxReprojectionGap ==> c.pnp_max_error_px.below(
                    item.pnp_observation->Some_0.max_reprojection_error,
                ) && !c.pnp_max_rmse_px.below(item.pnp_observation->Some_0.reprojection_rmse)
            },
        },
{
}

/// Under active admission an item takes part only where it is enabled, comes from the source that is
/// admitted, has a detection that counts, and valid evidence under the admitted binding. What its
/// evidence under the dataset's own binding is decides nothing.
pub proof fn law_only_admitted_sources_cover(
    item: CalibrationDatasetItem,
    m: ItemMeasurement,
    board: BoardSpec,
    baseline: AutoCaptureBaseline,
    binding: InitialIntrinsicsBinding,
    other: Option<PnPObservation>,
)
    ensures
        match admission_cover(item, m, board, baseline, binding) {
            None => true,
            Some(cover) => {
                let o = item.admission_pnp_observation->Some_0;
                &&& cover.item_id == item.id
                &&& item.enabled
                &&& item.status is Found
                &&& item.acquisition_key is Some && item.acquisition_key->Some_0@
                    == baseline.acquisition_key@
                &&& detection_counts(
                    item.status->Found_0,
                    m.detection,
                    binding.reference_image_size,
                    baseline.criteria,
                )
                &&& item.admission_pnp_observation is Some
                &&& o.binding_digest == binding.digest
                &&& !baseline.criteria.pnp_max_rmse_px.below(o.reprojection_rmse)
                &&& !baseline.criteria.pnp_max_error_px.below(o.max_reprojection_error)
                &&& cover.pnp_state is Valid && cover.pose_bin is Some
                &&& cover.field == field_coverage(
                    baseline.criteria,
                    m.detection.corner_positions@,
                )
                &&& Ok::<_, crate::calibration::error::CalibrationSessionError>(cover.depth)
                    == depth_coverage(baseline.criteria, baseline.board, m.admission_pnp)
            },
        },
        !item.enabled || !(item.status is Found) || item.acquisition_key is None
            || item.admission_pnp_observation is None ==> admission_cover(
            item,
            m,
            board,
            baseline,
            binding,
        ) is None,
        admission_cover(
            CalibrationDatasetItem { pnp_observation: other, ..item },
            m,
            board,
            baseline,
            binding,
        ) == admission_cover(item, m, board, baseline, binding),
        item.enabled && item.status is Found && item.acquisition_key is Some
            && item.acquisition_key->Some_0@ == baseline.acquisition_key@
            && item.admission_pnp_observation is Some && detection_counts(
            item.status->Found_0,
            m.detection,
            binding.reference_image_size,
            baseline.criteria,
        ) && pnp_coverage(
            item.admission_pnp_observation->Some_0,
            baseline.criteria,
            binding.digest,
            baseline.board,
            m.admission_pnp,
        ) is Ok ==> admission_cover(item, m, board, baseline, binding) is Some,
{
}

/// A candidate is assessed only where it shows the whole board, in an image of the reference size,
/// with every corner inside it and no two neighbours too close, and with valid evidence under the
/// admitted binding.
pub proof fn law_only_complete_candidates_cover(
    d: ChessboardDetection,
    o: PnPObservation,
    dm: DetectionMeasurement,
    pm: PnpMeasurement,
    board: BoardSpec,
    baseline: AutoCaptureBaseline,
    binding: InitialIntrinsicsBinding,
)
    ensures
        match candidate_cover(d, o, dm, pm, board, baseline, binding) {
            Err(_) => true,
            Ok(cover) => {
                &&& d.corners@.len() == board.inner_cols * board.inner_rows
                &&& d.image_size == binding.reference_image_size
                &&& forall|i: int|
                    0 <= i < d.corners@.len() ==> inside((#[trigger] d.corners@[i]), d.image_size)
                &&& spacing_kept(
                    dm.adjacent_distances@,
                    baseline.criteria.min_adjacent_spacing_px,
                )
                &&& o.binding_digest == binding.digest
                &&& !baseline.criteria.pnp_max_rmse_px.below(o.reprojection_rmse)
                &&& !baseline.criteria.pnp_max_error_px.below(o.max_reprojection_error)
                &&& cover.pose_bin is Some
                &&& cover.field == field_coverage(baseline.criteria, dm.corner_positions@)
                &&& Ok::<_, crate::calibration::error::CalibrationSessionError>(cover.depth)
                    == depth_coverage(baseline.criteria, baseline.board, pm)
            },
        },
{
}

proof fn lemma_accumulated_at(counts: Seq<usize>, increments: Seq<(usize, usize)>, region: int)
    requires
        within(increments, counts.len()),
        0 <= region < counts.len(),
    ensures
        accumulated(counts, increments)[region] == saturated(
            counts[region] as int,
            added_to(increments, region) as int,
        ),
    decreases increments.len(),
{
    if increments.len() > 0 {
        let init = increments.drop_last();
        assert(within(init, counts.len())) by {
            assert forall|i: int| 0 <= i < init.len() implies (#[trigger] init[i]).0
                < counts.len() by {
                assert(init[i] == increments[i]);
            }
        }
        lemma_accumulated_at(counts, init, region);
        lemma_accumulated_len(counts, init);
        assert(increments.last() == increments[increments.len() - 1]);
    }
}

/// What some items add to one field cell.
pub open spec fn field_added(covers: Seq<CoverageView>, region: int) -> nat
    decreases covers.len(),
{
    if covers.len() == 0 {
        0
    } else {
        field_added(covers.drop_last(), region) + added_to(covers.last().field, region)
    }
}

/// What some items add to one depth bin.
pub open spec fn depth_added(covers: Seq<CoverageView>, region: int) -> nat
    decreases covers.len(),
{
    if covers.len() == 0 {
        0
    } else {
        depth_added(covers.drop_last(), region) + added_to(covers.last().depth, region)
    }
}

/// The number of items whose view lies in one pose bin.
pub open spec fn views_in(covers: Seq<CoverageView>, region: int) -> nat
    decreases covers.len(),
{
    if covers.len() == 0 {
        0
    } else {
        views_in(covers.drop_last(), region) + match covers.last().pose_bin {
            Some(bin) => if bin == region {
                1nat
            } else {
                0nat
            },
            None => 0nat,
        }
    }
}

proof fn lemma_after_at(covers: Seq<CoverageView>, c: AutoCaptureAcceptanceCriteria, f: int, d: int, p: int)
    requires
        crate::calibration::assess::all_fit(covers, c),
        0 <= f < c.cells(),
        0 <= d < c.pnp_depth_bins,
        0 <= p < c.pose_bins(),
    ensures
        field_after(covers, c.cells() as nat)[f] == saturated(field_added(covers, f) as int, 0),
        depth_after(covers, c.pnp_depth_bins as nat)[d] == saturated(
            depth_added(covers, d) as int,
            0,
        ),
        pose_after(covers, c.pose_bins() as nat)[p] == saturated(views_in(covers, p) as int, 0),
    decreases covers.len(),
{
    if covers.len() > 0 {
        let earlier = covers.drop_last();
        let last = covers.last();
        assert(crate::calibration::assess::all_fit(earlier, c)) by {
            assert forall|i: int| 0 <= i < earlier.len() implies (#[trigger] earlier[i]).fits(
                c,
            ) by {
                assert(earlier[i] == covers[i]);
            }
        }
        assert(last == covers[covers.len() - 1]);
        assert(last.fits(c));
        lemma_after_at(earlier, c, f, d, p);
        crate::calibration::assess::lemma_after_len(earlier, c);
        lemma_accumulated_at(field_after(earlier, c.cells() as nat), last.field, f);
        lemma_accumulated_at(depth_after(earlier, c.pnp_depth_bins as nat), last.depth, d);
        lemma_accumulated_at(pose_after(earlier, c.pose_bins() as nat), last.pose(), p);
        reveal_with_fuel(added_to, 2);
        if last.pose_bin is Some {
            assert(last.pose().drop_last() =~= Seq::<(usize, usize)>::empty());
        }
    }
}

/// The counts of an assessment are sums over the items it covers: a field cell and a depth bin hold
/// the corners of all items, a pose bin the views that lie in it. A region counts as occupied where
/// its count is not zero, and the collection is complete where all three targets are met.
pub proof fn law_assessment_sums_up_its_items(
    a: AutoAdmissionAssessment,
    c: AutoCaptureAcceptanceCriteria,
    covers: Seq<CoverageView>,
    f: int,
    d: int,
    p: int,
)
    requires
        crate::calibration::assess::all_fit(covers, c),
        totals(a, c, covers),
        0 <= f < c.field_columns * c.field_rows,
        c.field_columns * c.field_rows <= usize::MAX,
        0 <= d < c.pnp_depth_bins,
        0 <= p < c.pose_bins() <= usize::MAX,
    ensures
        field_added(covers, f) <= usize::MAX ==> a.field_counts@[f] == field_added(covers, f),
        depth_added(covers, d) <= usize::MAX ==> a.depth_bin_counts@[d] == depth_added(covers, d),
        views_in(covers, p) <= usize::MAX ==> a.pose_bin_counts@[p] == views_in(covers, p),
        a.field_counts@.len() == c.field_columns * c.field_rows,
        a.depth_bin_counts@.len() == c.pnp_depth_bins,
        a.field_cells == occupied(a.field_counts@).len(),
        a.depth_bins == occupied(a.depth_bin_counts@).len(),
        a.pose_bins == occupied(a.pose_bin_counts@).len(),
        a.collection_target_met <==> a.field_target_met && a.depth_target_met && a.pose_target_met,
        a.required_field_cells == c.field_columns * c.field_rows,
        a.required_depth_bins == c.pnp_depth_bins,
        a.required_pose_bins == a.pose_bin_counts@.len(),
        (Real64 { bits: 0 }).below(c.pnp_tilt_deadband_deg) ==> a.required_pose_bins
            == c.pnp_tilt_bins * c.pnp_azimuth_sectors + 1,
        !(Real64 { bits: 0 }).below(c.pnp_tilt_deadband_deg) ==> a.required_pose_bins
            == c.pnp_tilt_bins * c.pnp_azimuth_sectors,
{
    lemma_after_at(covers, c, f, d, p);
    crate::calibration::assess::lemma_after_len(covers, c);
    lemma_occupied(a.field_counts@);
    lemma_occupied(a.depth_bin_counts@);
    lemma_occupied(a.pose_bin_counts@);
}

proof fn lemma_collected<T>(n: nat, f: spec_fn(int) -> Option<T>)
    ensures
        forall|k: int|
            0 <= k < collected(n, f).len() ==> exists|i: int|
                0 <= i < n && #[trigger] f(i) == Some(#[trigger] collected(n, f)[k]),
        forall|i: int|
            0 <= i < n && (#[trigger] f(i)) is Some ==> collected(n, f).contains(f(i)->Some_0),
        collected(n, f).len() <= n,
    decreases n,
{
    if n > 0 {
        let m = (n - 1) as nat;
        lemma_collected(m, f);
        let earlier = collected(m, f);
        let all = collected(n, f);
        assert forall|k: int| 0 <= k < all.len() implies exists|i: int|
            0 <= i < n && #[trigger] f(i) == Some(#[trigger] all[k]) by {
            if k < earlier.len() {
                assert(all[k] == earlier[k]);
                let i = choose|i: int| 0 <= i < m && #[trigger] f(i) == Some(earlier[k]);
                assert(f(i) == Some(all[k]));
            } else {
                assert(f(m as int) == Some(all[k]));
            }
        }
        assert forall|i: int| 0 <= i < n && (#[trigger] f(i)) is Some implies all.contains(
            f(i)->Some_0,
        ) by {
            if i < m {
                assert(earlier.contains(f(i)->Some_0));
                let k = choose|k: int| 0 <= k < earlier.len() && earlier[k] == f(i)->Some_0;
                assert(all[k] == f(i)->Some_0);
            } else {
                assert(all[all.len() - 1] == f(i)->Some_0);
            }
        }
    }
}

/// The coverage of a dataset comes from its enabled detections: every cover is that of one such
/// item, and every such item that counts has its cover.
pub proof fn law_dataset_covers_are_its_enabled_detections(
    items: Seq<CalibrationDatasetItem>,
    ms: Seq<ItemMeasurement>,
    board: BoardSpec,
    size: CalibrationImageSize,
    c: AutoCaptureAcceptanceCriteria,
    digest: Option<SnapshotHash>,
)
    ensures
        ({
            let covers = dataset_covers(items, ms, board, size, c, digest);
            &&& forall|k: int|
                0 <= k < covers.len() ==> exists|i: int|
                    0 <= i < items.len() && (#[trigger] items[i]).id == (
                    #[trigger] covers[k]).item_id && items[i].enabled && items[i].status is Found
                        && items[i].status->Found_0.image_size == size && covers[k].field
                        == field_coverage(c, ms[i].detection.corner_positions@)
            &&& forall|i: int|
                0 <= i < items.len() && (#[trigger] items[i]).enabled && items[i].status is Found
                    && detection_counts(items[i].status->Found_0, ms[i].detection, size, c)
                    ==> exists|k: int|
                    0 <= k < covers.len() && (#[trigger] covers[k]).item_id == items[i].id
        }),
{
    let f = |i: int| dataset_cover(items[i], ms[i], board, size, c, digest);
    let covers = dataset_covers(items, ms, board, size, c, digest);
    lemma_collected(items.len(), f);
    assert(covers == collected(items.len(), f));
    assert forall|k: int| 0 <= k < covers.len() implies exists|i: int|
        0 <= i < items.len() && (#[trigger] items[i]).id == (#[trigger] covers[k]).item_id
            && items[i].enabled && items[i].status is Found && items[i].status->Found_0.image_size
            == size && covers[k].field == field_coverage(
            c,
            ms[i].detection.corner_positions@,
        ) by {
        let i = choose|i: int| 0 <= i < items.len() && #[trigger] f(i) == Some(covers[k]);
        assert(items[i].id == covers[k].item_id);
    }
    assert forall|i: int|
        0 <= i < items.len() && (#[trigger] items[i]).enabled && items[i].status is Found
            && detection_counts(items[i].status->Found_0, ms[i].detection, size, c) implies exists|
        k: int,
    | 0 <= k < covers.len() && (#[trigger] covers[k]).item_id == items[i].id by {
        assert(f(i) is Some);
        let k = choose|k: int| 0 <= k < covers.len() && covers[k] == f(i)->Some_0;
        assert(covers[k].item_id == items[i].id);
    }
}

/// What fills a quota is summed up region by region, each up to its target and no further.
pub proof fn law_quotas_fill_up_to_the_target(counts: Seq<usize>, count: usize, target: usize)
    ensures
        capped_total(Seq::<usize>::empty(), target) == 0,
        count <= target ==> capped_total(counts.push(count), target) == capped_total(counts, target)
            + count,
        count > target ==> capped_total(counts.push(count), target) == capped_total(counts, target)
            + target,
{
    assert(counts.push(count).drop_last() =~= counts);
}

/// An assessment states the criteria it was made by, the quotas they set, how far each is filled, and
/// that a target is met exactly where its quota is filled.
pub proof fn law_assessment_states_its_quotas(
    a: AutoAdmissionAssessment,
    c: AutoCaptureAcceptanceCriteria,
    covers: Seq<CoverageView>,
)
    requires
        totals(a, c, covers),
    ensures
        a.active_criteria == Some(c),
        a.field_columns == c.field_columns && a.field_rows == c.field_rows,
        a.required_field_quota == (c.field_columns * c.field_rows) * c.field_target_per_cell,
        a.required_depth_quota == c.pnp_depth_bins * c.depth_target_per_bin,
        a.required_pose_quota == a.required_pose_bins * c.pose_target_per_bin,
        capped_total(a.field_counts@, c.field_target_per_cell) <= usize::MAX ==> a.field_quota_filled
            == capped_total(a.field_counts@, c.field_target_per_cell),
        capped_total(a.depth_bin_counts@, c.depth_target_per_bin) <= usize::MAX
            ==> a.depth_quota_filled == capped_total(a.depth_bin_counts@, c.depth_target_per_bin),
        capped_total(a.pose_bin_counts@, c.pose_target_per_bin) <= usize::MAX ==> a.pose_quota_filled
            == capped_total(a.pose_bin_counts@, c.pose_target_per_bin),
        a.field_target_met <==> a.field_quota_filled >= a.required_field_quota,
        a.depth_target_met <==> a.depth_quota_filled >= a.required_depth_quota,
        a.pose_target_met <==> a.pose_quota_filled >= a.required_pose_quota,
{
}

/// The contribution of an item is what it gains over the items before it, and says which item it is
/// of and what it covers.
pub proof fn law_contributions_are_gains_over_earlier_items(
    covers: Seq<CoverageView>,
    c: AutoCaptureAcceptanceCriteria,
    i: int,
)
    requires
        0 <= i < covers.len(),
    ensures
        ({
            let all = contributions(covers, c);
            &&& all.len() == covers.len()
            &&& all[i].item_id == covers[i].item_id
            &&& all[i].gain == gain_over(covers.take(i), covers[i], c)
            &&& all[i].pnp_state == covers[i].pnp_state
            &&& all[i].depth_covered <==> covers[i].depth.len() > 0
            &&& all[i].pose_covered <==> covers[i].pose_bin is Some
        }),
{
}

/// An assessment counts a candidate on top of the dataset, states what it gains over it, and lists
/// what the items of the dataset contribute without it.
pub proof fn law_candidate_is_assessed_on_top(
    a: AutoAdmissionAssessment,
    baseline: AutoCaptureBaseline,
    covers: Seq<CoverageView>,
    candidate: CoverageView,
)
    ensures
        admission_assessed(a, baseline, covers, Some(candidate)) ==> {
            &&& totals(a, baseline.criteria, covers.push(candidate))
            &&& a.candidate_gain == Some(gain_over(covers, candidate, baseline.criteria))
            &&& a.item_contributions@.len() == covers.len()
            &&& a.item_contributions@ == contributions(covers, baseline.criteria)
            &&& a.corner_count == baseline.board.inner_cols * baseline.board.inner_rows
        },
        admission_assessed(a, baseline, covers, None) ==> {
            &&& totals(a, baseline.criteria, covers)
            &&& a.candidate_gain is None
            &&& a.item_contributions@ == contributions(covers, baseline.criteria)
            &&& a.corner_count == baseline.board.inner_cols * baseline.board.inner_rows
        },
{
}

/// What is shown of an item is what it covers: the cells it adds to, in order, and the bin of its
/// pose.
pub proof fn law_items_are_shown_as_they_cover(
    shown: Seq<AutoAdmissionItemVisualization>,
    covers: Seq<CoverageView>,
    i: int,
    k: int,
)
    requires
        visualizes(shown, covers),
        0 <= i < covers.len(),
    ensures
        shown.len() == covers.len(),
        shown[i].item_id == covers[i].item_id,
        shown[i].pose_bin == covers[i].pose_bin,
        shown[i].pnp_state == covers[i].pnp_state,
        shown[i].field_cells@.len() == covers[i].field.len(),
        0 <= k < covers[i].field.len() ==> shown[i].field_cells@[k] == covers[i].field[k].0,
{
}

/// Whether two positions of a board lie side by side or one below the other.
pub open spec fn adjacent(cols: int, rows: int, a: int, b: int) -> bool {
    &&& 0 <= a < cols * rows
    &&& a % cols + 1 < cols && b == a + 1 || a / cols + 1 < rows && b == a + cols
}

proof fn lemma_neighbours(cols: int, rows: int, n: nat, a: usize, b: usize)
    requires
        cols > 0,
        rows > 0,
        n <= cols * rows,
        cols * rows <= usize::MAX,
    ensures
        neighbours(cols, rows, n).contains((a, b)) <==> a < n && adjacent(
            cols,
            rows,
            a as int,
            b as int,
        ),
    decreases n,
{
    if n > 0 {
        lemma_neighbours(cols, rows, (n - 1) as nat, a, b);
        let before = neighbours(cols, rows, (n - 1) as nat);
        let more = neighbours_of(cols, rows, n - 1);
        let all = neighbours(cols, rows, n);
        let index = n - 1;
        lemma_below_fits(cols, rows, index);
        let right = (index as usize, (index + 1) as usize);
        let below = (index as usize, (index + cols) as usize);
        assert(more.len() <= 2);
        assert(index % cols + 1 < cols ==> more[0] == right);
        assert(index / cols + 1 < rows ==> more.last() == below && more.len() > 0);
        if all.contains((a, b)) {
            let k = choose|k: int| 0 <= k < all.len() && all[k] == (a, b);
            if k < before.len() {
                assert(before[k] == (a, b));
                assert(before.contains((a, b)));
            } else {
                assert(more[k - before.len()] == (a, b));
            }
        }
        if a < n && adjacent(cols, rows, a as int, b as int) {
            if a < n - 1 {
                assert(before.contains((a, b)));
                let k = choose|k: int| 0 <= k < before.len() && before[k] == (a, b);
                assert(all[k] == (a, b));
            } else if index % cols + 1 < cols && b == a + 1 {
                assert(all[before.len() as int] == more[0]);
            } else {
                assert(all[all.len() - 1] == more.last());
            }
        }
    }
}

proof fn lemma_below_fits(cols: int, rows: int, index: int)
    requires
        cols > 0,
        rows > 0,
        0 <= index < cols * rows,
    ensures
        index % cols + 1 < cols ==> index + 1 < cols * rows,
        index / cols + 1 < rows ==> index + cols < cols * rows,
{
    vstd::arithmetic::div_mod::lemma_fundamental_div_mod(index, cols);
    let q = index / cols;
    let r = index % cols;
    assert(0 <= q < rows) by {
        vstd::arithmetic::div_mod::lemma_div_pos_is_pos(index, cols);
        if q >= rows {
            assert(cols * q >= cols * rows) by (nonlinear_arith)
                requires
                    q >= rows,
                    cols > 0,
            ;
        }
    }
    assert(cols * q + cols <= cols * rows) by (nonlinear_arith)
        requires
            q < rows,
            cols > 0,
    ;
    if q + 1 < rows {
        assert(cols * q + 2 * cols <= cols * rows) by (nonlinear_arith)
            requires
                q + 1 < rows,
                cols > 0,
        ;
    }
}

/// Spacing is measured between exactly the corners that lie side by side in a row or one below the
/// other in a column.
pub proof fn law_spacing_is_between_adjacent_corners(cols: int, rows: int, a: usize, b: usize)
    requires
        cols > 0,
        rows > 0,
        cols * rows <= usize::MAX,
    ensures
        neighbours(cols, rows, (cols * rows) as nat).contains((a, b)) <==> adjacent(
            cols,
            rows,
            a as int,
            b as int,
        ),
{
    assert(cols * rows > 0) by (nonlinear_arith)
        requires
            cols > 0,
            rows > 0,
    ;
    lemma_neighbours(cols, rows, (cols * rows) as nat, a, b);
}

/// Evidence has a depth range where it is bound to the digest that is in force, its errors are not
/// negative, and all that was derived is finite; the range is that of the pose.
pub proof fn law_depth_range_needs_bound_evidence(
    o: PnPObservation,
    digest: SnapshotHash,
    board: BoardSpec,
    m: PoseMeasurement,
)
    ensures
        o.binding_digest != digest ==> depth_range(o, digest, board, m) is Err,
        depth_range(o, digest, board, m) matches Ok(range) ==> {
            &&& o.binding_digest == digest
            &&& o.reprojection_rmse.finite() && (Real64 { bits: 0 }).at_most(o.reprojection_rmse)
            &&& o.max_reprojection_error.finite() && (Real64 { bits: 0 }).at_most(
                o.max_reprojection_error,
            )
            &&& o.features(board, m) is Ok
            &&& range.0 == o.features(board, m)->Ok_0.minimum_board_depth
            &&& range.1 == o.features(board, m)->Ok_0.maximum_board_depth
        },
{
}

/// Regions are counted as occupied where they hold anything, one for one, and listed with what they
/// hold.
pub proof fn law_occupied_regions_hold_something(counts: Seq<usize>, count: usize)
    requires
        counts.len() < usize::MAX,
    ensures
        occupied_count(Seq::<usize>::empty()) == 0,
        count == 0 ==> occupied_count(counts.push(count)) == occupied_count(counts)
            && occupied(counts.push(count)) == occupied(counts),
        count > 0 ==> occupied_count(counts.push(count)) == occupied_count(counts) + 1 && occupied(
            counts.push(count),
        ) == occupied(counts).push((counts.len() as usize, count)),
        occupied(Seq::<usize>::empty()).len() == 0,
{
    assert(counts.push(count).drop_last() =~= counts);
}

/// A pose is usable exactly where the board is one, all its figures are finite, and the outer corners
/// lie in front of the camera.
pub proof fn law_usable_poses_are_finite_and_in_front(
    rotation: Seq<Real64>,
    translation: Seq<Real64>,
    board: BoardSpec,
    m: PoseMeasurement,
)
    ensures
        pose_features(rotation, translation, board, m) is Ok <==> {
            &&& board.fault() is None
            &&& forall|i: int| 0 <= i < rotation.len() ==> (#[trigger] rotation[i]).finite()
            &&& forall|i: int| 0 <= i < translation.len() ==> (#[trigger] translation[i]).finite()
            &&& m.rotation_magnitude.finite()
            &&& forall|i: int|
                0 <= i < 4 && !(#[trigger] m.boundary_depths@[i]).nan() ==> (Real64 {
                    bits: 0,
                }).below(m.boundary_depths@[i])
            &&& exists|i: int| 0 <= i < 4 && (#[trigger] m.boundary_depths@[i]).finite()
            &&& m.tilt_degrees.finite() && m.azimuth_degrees.finite()
        },
{
    let d = m.boundary_depths@;
    assert(least(d).finite() && least(d).key() > 0 ==> {
        &&& !d[0].nan() ==> d[0].key() > 0
        &&& !d[1].nan() ==> d[1].key() > 0
        &&& !d[2].nan() ==> d[2].key() > 0
        &&& !d[3].nan() ==> d[3].key() > 0
        &&& least(d) == d[0] || least(d) == d[1] || least(d) == d[2] || least(d) == d[3]
    });
    if (forall|i: int|
        0 <= i < 4 && !(#[trigger] d[i]).nan() ==> (Real64 { bits: 0 }).below(d[i])) && (exists|i: int|
        0 <= i < 4 && (#[trigger] d[i]).finite()) {
        assert(!d[0].nan() ==> d[0].key() > 0);
        assert(!d[1].nan() ==> d[1].key() > 0);
        assert(!d[2].nan() ==> d[2].key() > 0);
        assert(!d[3].nan() ==> d[3].key() > 0);
        let i = choose|i: int| 0 <= i < 4 && (#[trigger] d[i]).finite();
        assert(i == 0 || i == 1 || i == 2 || i == 3);
        assert(least(d).finite() && least(d).key() > 0);
    }
}

/// Evidence is usable exactly where its errors are finite and not negative, what was derived is
/// finite, and its pose is usable.
pub proof fn law_usable_evidence_is_finite(o: PnPObservation, board: BoardSpec, m: PoseMeasurement)
    ensures
        o.features(board, m) is Ok <==> {
            &&& o.reprojection_rmse.finite() && (Real64 { bits: 0 }).at_most(o.reprojection_rmse)
            &&& o.max_reprojection_error.finite() && (Real64 { bits: 0 }).at_most(
                o.max_reprojection_error,
            )
            &&& o.depth.finite() && o.minimum_board_depth.finite() && o.maximum_board_depth.finite()
            &&& o.tilt_degrees.finite() && o.azimuth_degrees.finite()
            &&& pose_features(o.rotation_vector@, o.translation_vector@, board, m) is Ok
        },
{
}

/// Evidence covers exactly where it is bound to the digest, usable, within both limits, and neither
/// its depths nor its pose stand against it.
pub proof fn law_evidence_within_its_limits_covers(
    o: PnPObservation,
    c: AutoCaptureAcceptanceCriteria,
    digest: SnapshotHash,
    board: BoardSpec,
    m: PnpMeasurement,
)
    ensures
        pnp_coverage(o, c, digest, board, m) is Ok <==> {
            &&& o.binding_digest == digest
            &&& o.features(board, m.pose) is Ok
            &&& !c.pnp_max_rmse_px.below(o.reprojection_rmse)
            &&& !c.pnp_max_error_px.below(o.max_reprojection_error)
            &&& depth_coverage(c, board, m) is Ok
            &&& pose_bin(c, o.features(board, m.pose)->Ok_0, m) is Ok
        },
        pnp_coverage(o, c, digest, board, m) matches Ok(covered) ==> depth_coverage(c, board, m)
            == Ok::<_, CalibrationSessionError>(covered.0) && pose_bin(
            c,
            o.features(board, m.pose)->Ok_0,
            m,
        ) == Ok::<_, CalibrationSessionError>(covered.1),
{
}

/// A detection counts exactly where it is of the size, every corner lies inside the image, and the
/// closest corners are far enough apart.
pub proof fn law_detections_inside_and_spaced_count(
    d: ChessboardDetection,
    m: DetectionMeasurement,
    size: CalibrationImageSize,
    c: AutoCaptureAcceptanceCriteria,
)
    ensures
        detection_counts(d, m, size, c) <==> {
            &&& d.image_size == size
            &&& forall|i: int|
                0 <= i < d.corners@.len() ==> inside((#[trigger] d.corners@[i]), size)
            &&& spacing_kept(m.adjacent_distances@, c.min_adjacent_spacing_px)
        },
{
    assert(forall|i: int|
        0 <= i < d.corners@.len() ==> (inside((#[trigger] d.corners@[i]), d.image_size)
            <==> crate::calibration::pnp::point_inside(d.corners@[i], d.image_size)));
}

/// Corners are far enough apart where some distance is finite and every distance that is a number is
/// at least the least one.
pub proof fn law_spaced_corners_keep_their_distance(distances: Seq<Real32>, minimum: Real32)
    requires
        minimum.finite(),
    ensures
        (forall|i: int|
            0 <= i < distances.len() && !(#[trigger] distances[i]).nan() ==> minimum.at_most(
                distances[i],
            )) && (exists|i: int| 0 <= i < distances.len() && (#[trigger] distances[i]).finite())
            ==> spacing_kept(distances, minimum),
{
    if (forall|i: int|
        0 <= i < distances.len() && !(#[trigger] distances[i]).nan() ==> minimum.at_most(
            distances[i],
        )) && (exists|i: int| 0 <= i < distances.len() && (#[trigger] distances[i]).finite()) {
        lemma_shortest_kept(distances, minimum);
    }
}

proof fn lemma_shortest_kept(distances: Seq<Real32>, minimum: Real32)
    requires
        minimum.finite(),
        forall|i: int|
            0 <= i < distances.len() && !(#[trigger] distances[i]).nan() ==> minimum.at_most(
                distances[i],
            ),
    ensures
        minimum.at_most(shortest(distances)),
        (exists|i: int| 0 <= i < distances.len() && (#[trigger] distances[i]).finite()) ==> shortest(
            distances,
        ).finite(),
    decreases distances.len(),
{
    if distances.len() > 0 {
        let init = distances.drop_last();
        assert(forall|i: int| 0 <= i < init.len() ==> init[i] == distances[i]);
        assert forall|i: int| 0 <= i < init.len() && !(#[trigger] init[i]).nan() implies
            minimum.at_most(init[i]) by {
            assert(minimum.at_most(distances[i]));
        }
        lemma_shortest_kept(init, minimum);
        let last = distances.last();
        assert(last == distances[distances.len() - 1]);
        if exists|i: int| 0 <= i < distances.len() && (#[trigger] distances[i]).finite() {
            let i = choose|i: int| 0 <= i < distances.len() && (#[trigger] distances[i]).finite();
            if i < init.len() {
                assert(init[i].finite());
            }
        }
    }
}

/// A candidate covers exactly where it holds every corner of the board, is of the reference size, lies
/// inside it and spaced, and its evidence covers; it then covers what that evidence and its corners
/// do.
pub proof fn law_complete_candidates_cover(
    d: ChessboardDetection,
    o: PnPObservation,
    dm: DetectionMeasurement,
    pm: PnpMeasurement,
    board: BoardSpec,
    baseline: AutoCaptureBaseline,
    binding: InitialIntrinsicsBinding,
)
    ensures
        candidate_cover(d, o, dm, pm, board, baseline, binding) is Ok <==> {
            &&& view_fault(d.corners@, board) is None
            &&& detection_counts(d, dm, binding.reference_image_size, baseline.criteria)
            &&& pnp_coverage(o, baseline.criteria, binding.digest, baseline.board, pm) is Ok
        },
        d.image_size != binding.reference_image_size && view_fault(d.corners@, board) is None
            ==> candidate_cover(d, o, dm, pm, board, baseline, binding) == Err::<
            CoverageView,
            CalibrationSessionError,
        >(
            CalibrationSessionError::RejectIncompatibleImageSize {
                expected: binding.reference_image_size,
                actual: d.image_size,
            },
        ),
{
}

/// An item of a dataset that counts covers its field whatever its evidence is; depths and pose it
/// covers where its evidence does, and otherwise its state says what is missing.
pub proof fn law_counting_items_say_what_is_missing(
    item: CalibrationDatasetItem,
    m: ItemMeasurement,
    board: BoardSpec,
    size: CalibrationImageSize,
    c: AutoCaptureAcceptanceCriteria,
    digest: Option<SnapshotHash>,
)
    ensures
        dataset_cover(item, m, board, size, c, digest) is Some <==> item.enabled && item.status
            is Found && detection_counts(item.status->Found_0, m.detection, size, c),
        dataset_cover(item, m, board, size, c, digest) matches Some(cover) ==> {
            &&& cover.item_id == item.id
            &&& cover.field == field_coverage(c, m.detection.corner_positions@)
            &&& digest is None ==> cover.pnp_state is MissingBinding
            &&& digest is Some && item.pnp_observation is None ==> cover.pnp_state
                is MissingObservation
            &&& cover.pnp_state is Valid <==> cover.pose_bin is Some
            &&& !(cover.pnp_state is Valid) ==> cover.depth.len() == 0
            &&& digest is Some && item.pnp_observation is Some ==> (cover.pnp_state is Valid
                <==> pnp_coverage(
                item.pnp_observation->Some_0,
                c,
                digest->Some_0,
                board,
                m.pnp,
            ) is Ok)
            &&& cover.pnp_state is Valid ==> pnp_coverage(
                item.pnp_observation->Some_0,
                c,
                digest->Some_0,
                board,
                m.pnp,
            )->Ok_0.0 == cover.depth
        },
{
}

/// What stands against evidence is told by its sort: another binding, a large error, a depth or an
/// angle; anything else as it is.
pub proof fn law_gaps_are_told_by_their_sort(error: CalibrationSessionError)
    ensures
        ({
            let state = gap_state(error);
            &&& state is BindingGap <==> error is RejectAutoAdmissionBindingMismatch
            &&& state is RmseReprojectionGap <==> error is RejectInvalidPnP
                && error->RejectInvalidPnP_0 is Rmse
            &&& state is MaxReprojectionGap <==> error is RejectInvalidPnP
                && error->RejectInvalidPnP_0 is MaxError
            &&& state is DepthGap <==> error is RejectInvalidPnP && (error->RejectInvalidPnP_0
                is BoardBehindCamera || error->RejectInvalidPnP_0 is CornerBehindCamera)
            &&& state is PoseGap <==> error is RejectInvalidPnP && (error->RejectInvalidPnP_0
                is Tilt || error->RejectInvalidPnP_0 is NormalAngles)
            &&& state is Invalid ==> state->Invalid_0 == error
            &&& !(state is Valid) && !(state is MissingBinding) && !(state is MissingObservation)
        }),
{
}

/// What is collected are the values that are there, in their order, each once.
pub proof fn law_collecting_keeps_order<T>(n: nat, f: spec_fn(int) -> Option<T>)
    ensures
        collected(0, f).len() == 0,
        f(n as int) matches Some(value) ==> collected(n + 1, f) == collected(n, f).push(value),
        f(n as int) is None ==> collected(n + 1, f) == collected(n, f),
{
}

/// The coverage of an admission is that of the items that it admits: every one of its entries is of
/// one of them, and every one of them has an entry.
pub proof fn law_admission_covers_are_its_admitted_items(
    items: Seq<CalibrationDatasetItem>,
    ms: Seq<ItemMeasurement>,
    board: BoardSpec,
    baseline: AutoCaptureBaseline,
    binding: InitialIntrinsicsBinding,
)
    ensures
        ({
            let covers = admission_covers(items, ms, board, baseline, binding);
            &&& covers.len() <= items.len()
            &&& forall|k: int|
                0 <= k < covers.len() ==> exists|i: int|
                    0 <= i < items.len() && #[trigger] admission_cover(
                        items[i],
                        ms[i],
                        board,
                        baseline,
                        binding,
                    ) == Some(#[trigger] covers[k])
            &&& forall|i: int|
                0 <= i < items.len() && (#[trigger] admission_cover(
                    items[i],
                    ms[i],
                    board,
                    baseline,
                    binding,
                )) is Some ==> covers.contains(
                    admission_cover(items[i], ms[i], board, baseline, binding)->Some_0,
                )
        }),
{
    let f = |i: int| admission_cover(items[i], ms[i], board, baseline, binding);
    let covers = admission_covers(items, ms, board, baseline, binding);
    lemma_collected(items.len(), f);
    assert(covers == collected(items.len(), f));
    assert forall|k: int| 0 <= k < covers.len() implies exists|i: int|
        0 <= i < items.len() && #[trigger] admission_cover(items[i], ms[i], board, baseline, binding)
            == Some(#[trigger] covers[k]) by {
        let i = choose|i: int| 0 <= i < items.len() && #[trigger] f(i) == Some(covers[k]);
        assert(admission_cover(items[i], ms[i], board, baseline, binding) == Some(covers[k]));
    }
    assert forall|i: int|
        0 <= i < items.len() && (#[trigger] admission_cover(
            items[i],
            ms[i],
            board,
            baseline,
            binding,
        )) is Some implies covers.contains(
        admission_cover(items[i], ms[i], board, baseline, binding)->Some_0,
    ) by {
        assert(f(i) is Some);
    }
}

/// An item has a depth range exactly where it counts and its evidence, bound to the digest in force,
/// has one; the range says which item, how far its board reaches, and how good the evidence is.
pub proof fn law_depth_ranges_are_of_counting_items(
    item: CalibrationDatasetItem,
    m: ItemMeasurement,
    board: BoardSpec,
    size: CalibrationImageSize,
    c: AutoCaptureAcceptanceCriteria,
    digest: Option<SnapshotHash>,
)
    ensures
        dataset_depth_range(item, m, board, size, c, digest) is Some <==> {
            &&& item.enabled && item.status is Found
            &&& detection_counts(item.status->Found_0, m.detection, size, c)
            &&& digest is Some && item.pnp_observation is Some
            &&& item.pnp_observation->Some_0.binding_digest == digest->Some_0
            &&& item.pnp_observation->Some_0.features(board, m.pnp.pose) is Ok
        },
        dataset_depth_range(item, m, board, size, c, digest) matches Some(range) ==> {
            let o = item.pnp_observation->Some_0;
            let g = o.features(board, m.pnp.pose)->Ok_0;
            &&& range.item_id == item.id
            &&& range.minimum_depth == g.minimum_board_depth
            &&& range.maximum_depth == g.maximum_board_depth
            &&& range.reprojection_rmse == o.reprojection_rmse
            &&& range.max_reprojection_error == o.max_reprojection_error
            &&& range.pnp_state == dataset_cover(item, m, board, size, c, digest)->Some_0.pnp_state
        },
{
}

/// The depth ranges of a dataset are those of its items, in their order.
pub proof fn law_dataset_ranges_are_those_of_its_items(
    items: Seq<CalibrationDatasetItem>,
    ms: Seq<ItemMeasurement>,
    board: BoardSpec,
    size: CalibrationImageSize,
    c: AutoCaptureAcceptanceCriteria,
    digest: Option<SnapshotHash>,
)
    ensures
        ({
            let ranges = dataset_depth_ranges(items, ms, board, size, c, digest);
            &&& ranges.len() <= items.len()
            &&& forall|k: int|
                0 <= k < ranges.len() ==> exists|i: int|
                    0 <= i < items.len() && #[trigger] dataset_depth_range(
                        items[i],
                        ms[i],
                        board,
                        size,
                        c,
                        digest,
                    ) == Some(#[trigger] ranges[k])
            &&& forall|i: int|
                0 <= i < items.len() && (#[trigger] dataset_depth_range(
                    items[i],
                    ms[i],
                    board,
                    size,
                    c,
                    digest,
                )) is Some ==> ranges.contains(
                    dataset_depth_range(items[i], ms[i], board, size, c, digest)->Some_0,
                )
        }),
{
    let f = |i: int| dataset_depth_range(items[i], ms[i], board, size, c, digest);
    let ranges = dataset_depth_ranges(items, ms, board, size, c, digest);
    lemma_collected(items.len(), f);
    assert(ranges == collected(items.len(), f));
    assert forall|k: int| 0 <= k < ranges.len() implies exists|i: int|
        0 <= i < items.len() && #[trigger] dataset_depth_range(
            items[i],
            ms[i],
            board,
            size,
            c,
            digest,
        ) == Some(#[trigger] ranges[k]) by {
        let i = choose|i: int| 0 <= i < items.len() && #[trigger] f(i) == Some(ranges[k]);
        assert(dataset_depth_range(items[i], ms[i], board, size, c, digest) == Some(ranges[k]));
    }
    assert forall|i: int|
        0 <= i < items.len() && (#[trigger] dataset_depth_range(
            items[i],
            ms[i],
            board,
            size,
            c,
            digest,
        )) is Some implies ranges.contains(
        dataset_depth_range(items[i], ms[i], board, size, c, digest)->Some_0,
    ) by {
        assert(f(i) is Some);
    }
}

/// A dataset is assessed exactly where the criteria and the board are usable and a binding, where
/// there is one, is usable and for the size; it is assessed by the digest of that binding.
pub proof fn law_assessment_needs_usable_parts(
    board: BoardSpec,
    size: CalibrationImageSize,
    c: AutoCaptureAcceptanceCriteria,
    binding: Option<InitialIntrinsicsBinding>,
)
    ensures
        dataset_assessment_fault(board, size, c, binding) is None <==> {
            &&& c.fault() is None
            &&& binding matches Some(b) ==> b.fault() is None && b.reference_image_size == size
            &&& board.fault() is None
        },
        binding matches Some(b) ==> digest_of(binding) == Some(b.digest),
        binding is None ==> digest_of(binding) is None,
{
}

} // verus!
