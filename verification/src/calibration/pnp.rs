//! Pose evidence: what is accepted as evidence, and which depth and pose bins it covers.
//!
//! Trigonometry and projection happen outside; their results arrive as measurements, and every
//! decision about them is taken here.
use crate::calibration::admission::AutoCaptureAcceptanceCriteria;
use crate::calibration::coverage::{
    accumulated, add_counts, occupied, occupied_regions, ones, within, zero_counts, zeros,
};
use crate::calibration::error::{BindingMismatch, CalibrationSessionError, GeometryFault, PnpFault};
use crate::digest::SnapshotHash;
use crate::ieee::{nearest32, Real32, Real64, INFINITE32, INFINITE64, SIGN64};
use crate::model::{
    all_finite, every_finite, BoardSpec, CalibrationImageSize, CalibrationPoint, ChessboardDetection,
    ViewCalibrationResult,
};
use vstd::prelude::*;

verus! {

/// Whether a dataset item has usable pose evidence, and if not, why.
#[derive(Debug, PartialEq, Eq)]
pub enum AutoAdmissionPnpState {
    Valid,
    MissingBinding,
    MissingObservation,
    BindingGap(BindingMismatch),
    DepthGap(PnpFault),
    PoseGap(PnpFault),
    RmseReprojectionGap(PnpFault),
    MaxReprojectionGap(PnpFault),
    Invalid(CalibrationSessionError),
}

impl Clone for AutoAdmissionPnpState {
    fn clone(&self) -> (r: Self)
        ensures
            r == *self,
    {
        match self {
            AutoAdmissionPnpState::Valid => AutoAdmissionPnpState::Valid,
            AutoAdmissionPnpState::MissingBinding => AutoAdmissionPnpState::MissingBinding,
            AutoAdmissionPnpState::MissingObservation => AutoAdmissionPnpState::MissingObservation,
            AutoAdmissionPnpState::BindingGap(value) => AutoAdmissionPnpState::BindingGap(value.clone()),
            AutoAdmissionPnpState::DepthGap(value) => AutoAdmissionPnpState::DepthGap(*value),
            AutoAdmissionPnpState::PoseGap(value) => AutoAdmissionPnpState::PoseGap(*value),
            AutoAdmissionPnpState::RmseReprojectionGap(value) => AutoAdmissionPnpState::RmseReprojectionGap(*value),
            AutoAdmissionPnpState::MaxReprojectionGap(value) => AutoAdmissionPnpState::MaxReprojectionGap(*value),
            AutoAdmissionPnpState::Invalid(value) => AutoAdmissionPnpState::Invalid(value.clone()),
        }
    }
}

impl AutoAdmissionPnpState {
    pub fn is_valid(&self) -> (r: bool)
        ensures
            r == (*self is Valid),
    {
        match self {
            AutoAdmissionPnpState::Valid => true,
            _ => false,
        }
    }

    pub fn is_blocked(&self) -> (r: bool)
        ensures
            r == !(*self is Valid),
    {
        !self.is_valid()
    }
}

/// Pose evidence bound to exact camera parameters.
#[derive(Clone, Copy, Debug, PartialEq, Eq)]
pub struct PnPObservation {
    pub binding_digest: SnapshotHash,
    pub rotation_vector: [Real64; 3],
    pub translation_vector: [Real64; 3],
    pub depth: Real64,
    pub minimum_board_depth: Real64,
    pub maximum_board_depth: Real64,
    pub tilt_degrees: Real64,
    pub azimuth_degrees: Real64,
    pub reprojection_rmse: Real64,
    pub max_reprojection_error: Real64,
}

/// What was computed from a pose and a board.
#[derive(Clone, Copy, Debug, PartialEq, Eq)]
pub struct PoseMeasurement {
    /// The length of the rotation vector.
    pub rotation_magnitude: Real64,
    /// Camera depth of the board's four extreme inner corners.
    pub boundary_depths: [Real64; 4],
    /// Angle between the board normal and the optical axis.
    pub tilt_degrees: Real64,
    /// Direction of the board normal around the optical axis.
    pub azimuth_degrees: Real64,
}

/// The camera depth of one inner corner and the bin that its place in the depth range scales to.
#[derive(Clone, Copy, Debug, PartialEq, Eq, Structural)]
pub struct CornerDepth {
    pub depth: Real64,
    pub bin: usize,
}

/// What was computed from pose evidence under some criteria.
#[derive(Debug)]
pub struct PnpMeasurement {
    pub pose: PoseMeasurement,
    /// One entry for each inner corner, row by row.
    pub corner_depths: Vec<CornerDepth>,
    /// The bin that the tilt scales to between the dead band and the largest tilt.
    pub tilt_bin: usize,
    /// The sector that the azimuth scales to.
    pub azimuth_sector: usize,
}

/// Features of a pose that are used as evidence.
#[derive(Clone, Copy, Debug, PartialEq, Eq, Structural)]
pub struct PnPGeometry {
    pub depth: Real64,
    pub minimum_board_depth: Real64,
    pub maximum_board_depth: Real64,
    pub tilt_degrees: Real64,
    pub azimuth_degrees: Real64,
}

/// The smallest of four depths.
pub open spec fn least(depths: Seq<Real64>) -> Real64 {
    (Real64 { bits: INFINITE64 }).smaller(depths[0]).smaller(depths[1]).smaller(depths[2]).smaller(
        depths[3],
    )
}

/// The largest of four depths.
pub open spec fn greatest(depths: Seq<Real64>) -> Real64 {
    (Real64 { bits: (SIGN64 + INFINITE64) as u64 }).larger(depths[0]).larger(depths[1]).larger(
        depths[2],
    ).larger(depths[3])
}

/// Whether reprojection metrics are finite and not negative.
pub open spec fn metrics_usable(rmse: Real64, max_error: Real64) -> bool {
    rmse.finite() && rmse.key() >= 0 && max_error.finite() && max_error.key() >= 0
}

/// The features of a pose, or why it has none.
pub open spec fn pose_features(
    rotation: Seq<Real64>,
    translation: Seq<Real64>,
    board: BoardSpec,
    m: PoseMeasurement,
) -> Result<PnPGeometry, CalibrationSessionError> {
    match board.fault() {
        Some(e) => Err(CalibrationSessionError::InvalidData(e)),
        None => if !all_finite(rotation) || !all_finite(translation) {
            Err(CalibrationSessionError::RejectInvalidPnP(PnpFault::PoseVectors))
        } else if !m.rotation_magnitude.finite() {
            Err(CalibrationSessionError::RejectInvalidPnP(PnpFault::RotationMagnitude))
        } else if !least(m.boundary_depths@).finite() || least(m.boundary_depths@).key() <= 0 {
            Err(
                CalibrationSessionError::RejectInvalidPnP(
                    PnpFault::BoardBehindCamera { minimum: least(m.boundary_depths@) },
                ),
            )
        } else if !m.tilt_degrees.finite() || !m.azimuth_degrees.finite() {
            Err(CalibrationSessionError::RejectInvalidPnP(PnpFault::NormalAngles))
        } else {
            Ok(
                PnPGeometry {
                    depth: translation[2],
                    minimum_board_depth: least(m.boundary_depths@),
                    maximum_board_depth: greatest(m.boundary_depths@),
                    tilt_degrees: m.tilt_degrees,
                    azimuth_degrees: m.azimuth_degrees,
                },
            )
        },
    }
}

/// Checks reprojection metrics.
pub fn validate_pnp_metrics(reprojection_rmse: Real64, max_reprojection_error: Real64) -> (r: Result<
    (),
    CalibrationSessionError,
>)
    ensures
        r == (if metrics_usable(reprojection_rmse, max_reprojection_error) {
            Ok::<(), CalibrationSessionError>(())
        } else {
            Err(CalibrationSessionError::RejectInvalidPnP(PnpFault::Metrics))
        }),
{
    if !reprojection_rmse.is_finite() || reprojection_rmse.lt(Real64::zero())
        || !max_reprojection_error.is_finite() || max_reprojection_error.lt(Real64::zero()) {
        return Err(CalibrationSessionError::RejectInvalidPnP(PnpFault::Metrics));
    }
    Ok(())
}

/// Derives the features of a pose on a board.
pub fn derive_pnp_geometry(
    rotation_vector: &[Real64; 3],
    translation_vector: &[Real64; 3],
    board: BoardSpec,
    m: &PoseMeasurement,
) -> (r: Result<PnPGeometry, CalibrationSessionError>)
    ensures
        r == pose_features(rotation_vector@, translation_vector@, board, *m),
{
    match board.validate() {
        Err(e) => {
            return Err(CalibrationSessionError::InvalidData(e));
        },
        Ok(()) => {},
    }
    if !every_finite(rotation_vector.as_slice()) || !every_finite(translation_vector.as_slice()) {
        return Err(CalibrationSessionError::RejectInvalidPnP(PnpFault::PoseVectors));
    }
    if !m.rotation_magnitude.is_finite() {
        return Err(CalibrationSessionError::RejectInvalidPnP(PnpFault::RotationMagnitude));
    }
    let d: &[Real64; 4] = &m.boundary_depths;
    let minimum: Real64 = Real64::from_bits(INFINITE64).min(d[0]).min(d[1]).min(d[2]).min(d[3]);
    let maximum: Real64 = Real64::from_bits(SIGN64 + INFINITE64).max(d[0]).max(d[1]).max(d[2]).max(
        d[3],
    );
    if !minimum.is_finite() || minimum.le(Real64::zero()) {
        return Err(
            CalibrationSessionError::RejectInvalidPnP(PnpFault::BoardBehindCamera { minimum }),
        );
    }
    if !m.tilt_degrees.is_finite() || !m.azimuth_degrees.is_finite() {
        return Err(CalibrationSessionError::RejectInvalidPnP(PnpFault::NormalAngles));
    }
    Ok(
        PnPGeometry {
            depth: translation_vector[2],
            minimum_board_depth: minimum,
            maximum_board_depth: maximum,
            tilt_degrees: m.tilt_degrees,
            azimuth_degrees: m.azimuth_degrees,
        },
    )
}

impl PnPObservation {
    /// Whether the stored derived values are all finite.
    pub open spec fn derived_finite(self) -> bool {
        self.depth.finite() && self.minimum_board_depth.finite()
            && self.maximum_board_depth.finite() && self.tilt_degrees.finite()
            && self.azimuth_degrees.finite()
    }

    /// The features derived again from the pose vectors; the stored features decide nothing.
    pub open spec fn features(self, board: BoardSpec, m: PoseMeasurement) -> Result<
        PnPGeometry,
        CalibrationSessionError,
    > {
        if !metrics_usable(self.reprojection_rmse, self.max_reprojection_error) {
            Err(CalibrationSessionError::RejectInvalidPnP(PnpFault::Metrics))
        } else if !self.derived_finite() {
            Err(CalibrationSessionError::RejectInvalidPnP(PnpFault::DerivedValues))
        } else {
            pose_features(self.rotation_vector@, self.translation_vector@, board, m)
        }
    }

    /// Makes evidence out of the pose of one view.
    pub fn from_view_result(
        binding_digest: SnapshotHash,
        result: &ViewCalibrationResult,
        board: BoardSpec,
        m: &PoseMeasurement,
    ) -> (r: Result<PnPObservation, CalibrationSessionError>)
        ensures
            if !metrics_usable(result.reprojection_rmse, result.max_reprojection_error) {
                r == Err::<PnPObservation, CalibrationSessionError>(
                    CalibrationSessionError::RejectInvalidPnP(PnpFault::Metrics),
                )
            } else {
                match pose_features(
                    result.rotation_vector@,
                    result.translation_vector@,
                    board,
                    *m,
                ) {
                    Err(e) => r == Err::<PnPObservation, CalibrationSessionError>(e),
                    Ok(g) => r == Ok::<PnPObservation, CalibrationSessionError>(
                        PnPObservation {
                            binding_digest,
                            rotation_vector: result.rotation_vector,
                            translation_vector: result.translation_vector,
                            depth: g.depth,
                            minimum_board_depth: g.minimum_board_depth,
                            maximum_board_depth: g.maximum_board_depth,
                            tilt_degrees: g.tilt_degrees,
                            azimuth_degrees: g.azimuth_degrees,
                            reprojection_rmse: result.reprojection_rmse,
                            max_reprojection_error: result.max_reprojection_error,
                        },
                    ),
                }
            },
    {
        match validate_pnp_metrics(result.reprojection_rmse, result.max_reprojection_error) {
            Err(e) => {
                return Err(e);
            },
            Ok(()) => {},
        }
        match derive_pnp_geometry(&result.rotation_vector, &result.translation_vector, board, m) {
            Err(e) => Err(e),
            Ok(geometry) => Ok(
                PnPObservation {
                    binding_digest,
                    rotation_vector: result.rotation_vector,
                    translation_vector: result.translation_vector,
                    depth: geometry.depth,
                    minimum_board_depth: geometry.minimum_board_depth,
                    maximum_board_depth: geometry.maximum_board_depth,
                    tilt_degrees: geometry.tilt_degrees,
                    azimuth_degrees: geometry.azimuth_degrees,
                    reprojection_rmse: result.reprojection_rmse,
                    max_reprojection_error: result.max_reprojection_error,
                },
            ),
        }
    }

    /// Derives the features again from the pose vectors.
    pub fn geometry(&self, board: BoardSpec, m: &PoseMeasurement) -> (r: Result<
        PnPGeometry,
        CalibrationSessionError,
    >)
        ensures
            r == self.features(board, *m),
    {
        match validate_pnp_metrics(self.reprojection_rmse, self.max_reprojection_error) {
            Err(e) => {
                return Err(e);
            },
            Ok(()) => {},
        }
        if !self.depth.is_finite() || !self.minimum_board_depth.is_finite()
            || !self.maximum_board_depth.is_finite() || !self.tilt_degrees.is_finite()
            || !self.azimuth_degrees.is_finite() {
            return Err(CalibrationSessionError::RejectInvalidPnP(PnpFault::DerivedValues));
        }
        derive_pnp_geometry(&self.rotation_vector, &self.translation_vector, board, m)
    }
}

/// The bin of a scaled position among `bins`: the last one when the position reaches the end.
pub open spec fn clamped_bin(bin: usize, bins: usize) -> usize {
    if bin < bins {
        bin
    } else {
        (bins - 1) as usize
    }
}

/// Whether a depth lies in the accepted range.
pub open spec fn depth_accepted(c: AutoCaptureAcceptanceCriteria, depth: Real64) -> bool {
    c.pnp_depth_min.at_most(depth) && depth.at_most(c.pnp_depth_max)
}

/// Whether a corner is not in front of the camera.
pub open spec fn behind(depth: Real64) -> bool {
    !depth.finite() || depth.key() <= 0
}

/// The first depth that is not in front of the camera.
pub open spec fn first_behind(depths: Seq<CornerDepth>) -> Option<Real64>
    decreases depths.len(),
{
    if depths.len() == 0 {
        None
    } else {
        match first_behind(depths.drop_last()) {
            Some(d) => Some(d),
            None => if behind(depths.last().depth) {
                Some(depths.last().depth)
            } else {
                None
            },
        }
    }
}

/// The bins that accepted depths fall into, in corner order.
pub open spec fn depth_hits(c: AutoCaptureAcceptanceCriteria, depths: Seq<CornerDepth>) -> Seq<usize>
    decreases depths.len(),
{
    if depths.len() == 0 {
        Seq::empty()
    } else {
        let earlier = depth_hits(c, depths.drop_last());
        if depth_accepted(c, depths.last().depth) {
            earlier.push(clamped_bin(depths.last().bin, c.pnp_depth_bins))
        } else {
            earlier
        }
    }
}

/// The depth bins that the corners of a board cover, each with its number of corners.
pub open spec fn depth_coverage(
    c: AutoCaptureAcceptanceCriteria,
    board: BoardSpec,
    m: PnpMeasurement,
) -> Result<Seq<(usize, usize)>, CalibrationSessionError> {
    match board.fault() {
        Some(e) => Err(CalibrationSessionError::InvalidData(e)),
        None => if !m.pose.rotation_magnitude.finite() {
            Err(CalibrationSessionError::RejectInvalidPnP(PnpFault::RotationMagnitude))
        } else {
            match first_behind(m.corner_depths@) {
                Some(depth) => Err(
                    CalibrationSessionError::RejectInvalidPnP(
                        PnpFault::CornerBehindCamera { depth },
                    ),
                ),
                None => Ok(
                    occupied(
                        accumulated(
                            zeros(c.pnp_depth_bins as nat),
                            ones(depth_hits(c, m.corner_depths@)),
                        ),
                    ),
                ),
            }
        },
    }
}

proof fn lemma_depth_hits_bound(c: AutoCaptureAcceptanceCriteria, depths: Seq<CornerDepth>)
    requires
        c.pnp_depth_bins >= 1,
    ensures
        forall|i: int| 0 <= i < depth_hits(c, depths).len() ==> #[trigger] depth_hits(c, depths)[i]
            < c.pnp_depth_bins,
    decreases depths.len(),
{
    if depths.len() > 0 {
        lemma_depth_hits_bound(c, depths.drop_last());
        let earlier = depth_hits(c, depths.drop_last());
        let all = depth_hits(c, depths);
        assert forall|i: int| 0 <= i < all.len() implies #[trigger] all[i] < c.pnp_depth_bins by {
            if i < earlier.len() {
                assert(all[i] == earlier[i]);
            }
        }
    }
}

/// Adds one to each listed region.
fn tally(counts: &mut Vec<usize>, regions: &Vec<usize>)
    requires
        forall|i: int| 0 <= i < regions@.len() ==> (#[trigger] regions@[i]) < old(counts)@.len(),
    ensures
        final(counts)@ == accumulated(old(counts)@, ones(regions@)),
{
    let mut increments: Vec<(usize, usize)> = Vec::new();
    let mut i: usize = 0;
    while i < regions.len()
        invariant
            i <= regions@.len(),
            increments@ == ones(regions@.take(i as int)),
        decreases regions@.len() - i,
    {
        increments.push((regions[i], 1));
        i = i + 1;
        proof {
            assert(increments@ =~= ones(regions@.take(i as int)));
        }
    }
    proof {
        assert(regions@.take(i as int) =~= regions@);
        assert forall|j: int| 0 <= j < increments@.len() implies (#[trigger] increments@[j]).0
            < counts@.len() by {
            assert(increments@[j].0 == regions@[j]);
        }
    }
    add_counts(counts, &increments);
}

/// Counts the corner depths of a board in their bins; a corner that is not in front of the camera
/// spoils the whole view.
pub fn depth_corner_counts_for_criteria(
    criteria: &AutoCaptureAcceptanceCriteria,
    board: BoardSpec,
    m: &PnpMeasurement,
) -> (r: Result<Vec<(usize, usize)>, CalibrationSessionError>)
    requires
        criteria.pnp_depth_bins >= 1,
    ensures
        match depth_coverage(*criteria, board, *m) {
            Ok(regions) => r is Ok && r->Ok_0@ == regions && within(
                regions,
                criteria.pnp_depth_bins as nat,
            ),
            Err(e) => r == Err::<Vec<(usize, usize)>, CalibrationSessionError>(e),
        },
{
    match board.validate() {
        Err(e) => {
            return Err(CalibrationSessionError::InvalidData(e));
        },
        Ok(()) => {},
    }
    if !m.pose.rotation_magnitude.is_finite() {
        return Err(CalibrationSessionError::RejectInvalidPnP(PnpFault::RotationMagnitude));
    }
    let mut hits: Vec<usize> = Vec::new();
    let mut i: usize = 0;
    let ghost depths = m.corner_depths@;
    proof {
        assert(depths.take(0) =~= Seq::<CornerDepth>::empty());
    }
    while i < m.corner_depths.len()
        invariant
            i <= m.corner_depths@.len(),
            depths == m.corner_depths@,
            criteria.pnp_depth_bins >= 1,
            board.fault() is None,
            m.pose.rotation_magnitude.finite(),
            first_behind(depths.take(i as int)) is None,
            hits@ == depth_hits(*criteria, depths.take(i as int)),
        decreases m.corner_depths@.len() - i,
    {
        let corner: CornerDepth = m.corner_depths[i];
        proof {
            let next = depths.take(i + 1);
            assert(next.drop_last() =~= depths.take(i as int));
            assert(next.last() == corner);
        }
        if !corner.depth.is_finite() || corner.depth.le(Real64::zero()) {
            proof {
                lemma_first_behind_stays(depths, i + 1);
            }
            return Err(
                CalibrationSessionError::RejectInvalidPnP(
                    PnpFault::CornerBehindCamera { depth: corner.depth },
                ),
            );
        }
        if criteria.pnp_depth_min.le(corner.depth) && corner.depth.le(criteria.pnp_depth_max) {
            let bin: usize = if corner.bin < criteria.pnp_depth_bins {
                corner.bin
            } else {
                criteria.pnp_depth_bins - 1
            };
            hits.push(bin);
        }
        i = i + 1;
    }
    proof {
        assert(depths.take(i as int) =~= depths);
        lemma_depth_hits_bound(*criteria, depths);
        assert forall|j: int| 0 <= j < hits@.len() implies (#[trigger] hits@[j])
            < criteria.pnp_depth_bins by {
            assert(depth_hits(*criteria, depths)[j] < criteria.pnp_depth_bins);
        }
    }
    let mut counts: Vec<usize> = zero_counts(criteria.pnp_depth_bins);
    let ghost empty = counts@;
    tally(&mut counts, &hits);
    proof {
        assert forall|j: int| 0 <= j < ones(hits@).len() implies (#[trigger] ones(hits@)[j]).0
            < empty.len() by {
            assert(ones(hits@)[j].0 == hits@[j]);
        }
        crate::calibration::coverage::lemma_accumulated_len(empty, ones(hits@));
    }
    Ok(occupied_regions(&counts))
}

proof fn lemma_first_behind_stays(depths: Seq<CornerDepth>, k: int)
    requires
        0 <= k <= depths.len(),
        first_behind(depths.take(k)) is Some,
    ensures
        first_behind(depths) == first_behind(depths.take(k)),
    decreases depths.len() - k,
{
    if k == depths.len() {
        assert(depths.take(k) =~= depths);
    } else {
        assert(depths.take(k + 1).drop_last() =~= depths.take(k));
        lemma_first_behind_stays(depths, k + 1);
    }
}

/// The pose bin of a view, or why it has none.
pub open spec fn pose_bin(c: AutoCaptureAcceptanceCriteria, g: PnPGeometry, m: PnpMeasurement) -> Result<
    int,
    CalibrationSessionError,
> {
    let tilt = g.tilt_degrees;
    if !tilt.finite() || !g.azimuth_degrees.finite() || tilt.key() < 0
        || c.pnp_tilt_max_deg.below(tilt) {
        Err(
            CalibrationSessionError::RejectInvalidPnP(
                PnpFault::Tilt { tilt, maximum: c.pnp_tilt_max_deg },
            ),
        )
    } else if c.has_center_bin() && tilt.below(c.pnp_tilt_deadband_deg) {
        Ok(0)
    } else {
        Ok(
            (if c.has_center_bin() {
                1int
            } else {
                0int
            }) + clamped_bin(m.tilt_bin, c.pnp_tilt_bins) * c.pnp_azimuth_sectors + clamped_bin(
                m.azimuth_sector,
                c.pnp_azimuth_sectors,
            ),
        )
    }
}

/// A pose bin is one of the bins that the criteria provide.
pub proof fn lemma_pose_bin_in_capacity(
    c: AutoCaptureAcceptanceCriteria,
    g: PnPGeometry,
    m: PnpMeasurement,
)
    requires
        c.pnp_tilt_bins >= 1,
        c.pnp_azimuth_sectors >= 1,
    ensures
        pose_bin(c, g, m) is Ok ==> 0 <= pose_bin(c, g, m)->Ok_0 < c.pose_bins(),
{
    let t = clamped_bin(m.tilt_bin, c.pnp_tilt_bins) as int;
    let s = c.pnp_azimuth_sectors as int;
    let n = c.pnp_tilt_bins as int;
    assert(t * s + s <= n * s) by (nonlinear_arith)
        requires
            t + 1 <= n,
            s >= 0,
    ;
    assert(t * s >= 0) by (nonlinear_arith)
        requires
            t >= 0,
            s >= 0,
    ;
}

/// Finds the pose bin of a view.
pub fn pose_bin_for_criteria(
    criteria: &AutoCaptureAcceptanceCriteria,
    geometry: &PnPGeometry,
    m: &PnpMeasurement,
) -> (r: Result<usize, CalibrationSessionError>)
    requires
        criteria.pnp_tilt_bins >= 1,
        criteria.pnp_azimuth_sectors >= 1,
        criteria.pose_bins() <= usize::MAX,
    ensures
        match pose_bin(*criteria, *geometry, *m) {
            Ok(bin) => r is Ok && r->Ok_0 == bin && bin < criteria.pose_bins(),
            Err(e) => r == Err::<usize, CalibrationSessionError>(e),
        },
{
    let tilt: Real64 = geometry.tilt_degrees;
    if !tilt.is_finite() || !geometry.azimuth_degrees.is_finite() || tilt.lt(Real64::zero())
        || criteria.pnp_tilt_max_deg.lt(tilt) {
        return Err(
            CalibrationSessionError::RejectInvalidPnP(
                PnpFault::Tilt { tilt, maximum: criteria.pnp_tilt_max_deg },
            ),
        );
    }
    proof {
        lemma_pose_bin_in_capacity(*criteria, *geometry, *m);
    }
    let center: bool = Real64::zero().lt(criteria.pnp_tilt_deadband_deg);
    if center && tilt.lt(criteria.pnp_tilt_deadband_deg) {
        return Ok(0);
    }
    let offset: usize = if center {
        1
    } else {
        0
    };
    let tilt_bin: usize = if m.tilt_bin < criteria.pnp_tilt_bins {
        m.tilt_bin
    } else {
        criteria.pnp_tilt_bins - 1
    };
    let sector: usize = if m.azimuth_sector < criteria.pnp_azimuth_sectors {
        m.azimuth_sector
    } else {
        criteria.pnp_azimuth_sectors - 1
    };
    proof {
        let t = tilt_bin as int;
        let s = criteria.pnp_azimuth_sectors as int;
        assert(t * s >= 0) by (nonlinear_arith)
            requires
                t >= 0,
                s >= 0,
        ;
    }
    Ok(offset + tilt_bin * criteria.pnp_azimuth_sectors + sector)
}

/// What evidence covers under some criteria and a binding, or why it counts for nothing.
pub open spec fn pnp_coverage(
    o: PnPObservation,
    c: AutoCaptureAcceptanceCriteria,
    digest: SnapshotHash,
    board: BoardSpec,
    m: PnpMeasurement,
) -> Result<(Seq<(usize, usize)>, int), CalibrationSessionError> {
    if o.binding_digest != digest {
        Err(
            CalibrationSessionError::RejectAutoAdmissionBindingMismatch(
                BindingMismatch::ObservationDigest,
            ),
        )
    } else {
        match o.features(board, m.pose) {
            Err(e) => Err(e),
            Ok(g) => if c.pnp_max_rmse_px.below(o.reprojection_rmse) {
                Err(
                    CalibrationSessionError::RejectInvalidPnP(
                        PnpFault::Rmse { rmse: o.reprojection_rmse, maximum: c.pnp_max_rmse_px },
                    ),
                )
            } else if c.pnp_max_error_px.below(o.max_reprojection_error) {
                Err(
                    CalibrationSessionError::RejectInvalidPnP(
                        PnpFault::MaxError {
                            error: o.max_reprojection_error,
                            maximum: c.pnp_max_error_px,
                        },
                    ),
                )
            } else {
                match depth_coverage(c, board, m) {
                    Err(e) => Err(e),
                    Ok(depths) => match pose_bin(c, g, m) {
                        Err(e) => Err(e),
                        Ok(bin) => Ok((depths, bin)),
                    },
                }
            },
        }
    }
}

/// Finds the depth bins and the pose bin that evidence covers.
pub fn pnp_coverage_for_criteria(
    observation: &PnPObservation,
    criteria: &AutoCaptureAcceptanceCriteria,
    digest: SnapshotHash,
    board: BoardSpec,
    m: &PnpMeasurement,
) -> (r: Result<(Vec<(usize, usize)>, usize), CalibrationSessionError>)
    requires
        criteria.fault() is None,
    ensures
        match pnp_coverage(*observation, *criteria, digest, board, *m) {
            Ok((depths, bin)) => r is Ok && r->Ok_0.0@ == depths && r->Ok_0.1 == bin && within(
                depths,
                criteria.pnp_depth_bins as nat,
            ) && 0 <= bin < criteria.pose_bins(),
            Err(e) => r == Err::<(Vec<(usize, usize)>, usize), CalibrationSessionError>(e),
        },
{
    if observation.binding_digest != digest {
        return Err(
            CalibrationSessionError::RejectAutoAdmissionBindingMismatch(
                BindingMismatch::ObservationDigest,
            ),
        );
    }
    let geometry: PnPGeometry = match observation.geometry(board, &m.pose) {
        Ok(g) => g,
        Err(e) => {
            return Err(e);
        },
    };
    if criteria.pnp_max_rmse_px.lt(observation.reprojection_rmse) {
        return Err(
            CalibrationSessionError::RejectInvalidPnP(
                PnpFault::Rmse {
                    rmse: observation.reprojection_rmse,
                    maximum: criteria.pnp_max_rmse_px,
                },
            ),
        );
    }
    if criteria.pnp_max_error_px.lt(observation.max_reprojection_error) {
        return Err(
            CalibrationSessionError::RejectInvalidPnP(
                PnpFault::MaxError {
                    error: observation.max_reprojection_error,
                    maximum: criteria.pnp_max_error_px,
                },
            ),
        );
    }
    let depths: Vec<(usize, usize)> = match depth_corner_counts_for_criteria(criteria, board, m) {
        Ok(d) => d,
        Err(e) => {
            return Err(e);
        },
    };
    match pose_bin_for_criteria(criteria, &geometry, m) {
        Ok(bin) => Ok((depths, bin)),
        Err(e) => Err(e),
    }
}

/// The depth range of a view for display, or why it has none.
pub open spec fn depth_range(
    o: PnPObservation,
    digest: SnapshotHash,
    board: BoardSpec,
    m: PoseMeasurement,
) -> Result<(Real64, Real64), CalibrationSessionError> {
    if o.binding_digest != digest {
        Err(
            CalibrationSessionError::RejectAutoAdmissionBindingMismatch(
                BindingMismatch::ObservationDigest,
            ),
        )
    } else {
        match o.features(board, m) {
            Err(e) => Err(e),
            Ok(g) => Ok((g.minimum_board_depth, g.maximum_board_depth)),
        }
    }
}

/// Finds the depth range of a view for display.
pub fn pnp_depth_range_for_dataset(
    observation: &PnPObservation,
    digest: SnapshotHash,
    board: BoardSpec,
    m: &PoseMeasurement,
) -> (r: Result<(Real64, Real64), CalibrationSessionError>)
    ensures
        r == depth_range(*observation, digest, board, *m),
{
    if observation.binding_digest != digest {
        return Err(
            CalibrationSessionError::RejectAutoAdmissionBindingMismatch(
                BindingMismatch::ObservationDigest,
            ),
        );
    }
    match observation.geometry(board, m) {
        Ok(g) => Ok((g.minimum_board_depth, g.maximum_board_depth)),
        Err(e) => Err(e),
    }
}

/// The state of an item whose evidence was refused.
pub open spec fn gap_state(error: CalibrationSessionError) -> AutoAdmissionPnpState {
    match error {
        CalibrationSessionError::RejectAutoAdmissionBindingMismatch(m) =>
            AutoAdmissionPnpState::BindingGap(m),
        CalibrationSessionError::RejectInvalidPnP(f) => match f {
            PnpFault::Rmse { .. } => AutoAdmissionPnpState::RmseReprojectionGap(f),
            PnpFault::MaxError { .. } => AutoAdmissionPnpState::MaxReprojectionGap(f),
            PnpFault::BoardBehindCamera { .. } => AutoAdmissionPnpState::DepthGap(f),
            PnpFault::CornerBehindCamera { .. } => AutoAdmissionPnpState::DepthGap(f),
            PnpFault::Tilt { .. } => AutoAdmissionPnpState::PoseGap(f),
            PnpFault::NormalAngles => AutoAdmissionPnpState::PoseGap(f),
            _ => AutoAdmissionPnpState::Invalid(error),
        },
        _ => AutoAdmissionPnpState::Invalid(error),
    }
}

/// Classifies why evidence was refused.
pub fn pnp_state_from_coverage_error(error: CalibrationSessionError) -> (r: AutoAdmissionPnpState)
    ensures
        r == gap_state(error),
{
    match error {
        CalibrationSessionError::RejectAutoAdmissionBindingMismatch(m) =>
            AutoAdmissionPnpState::BindingGap(m),
        CalibrationSessionError::RejectInvalidPnP(f) => match f {
            PnpFault::Rmse { .. } => AutoAdmissionPnpState::RmseReprojectionGap(f),
            PnpFault::MaxError { .. } => AutoAdmissionPnpState::MaxReprojectionGap(f),
            PnpFault::BoardBehindCamera { .. } => AutoAdmissionPnpState::DepthGap(f),
            PnpFault::CornerBehindCamera { .. } => AutoAdmissionPnpState::DepthGap(f),
            PnpFault::Tilt { .. } => AutoAdmissionPnpState::PoseGap(f),
            PnpFault::NormalAngles => AutoAdmissionPnpState::PoseGap(f),
            _ => AutoAdmissionPnpState::Invalid(error),
        },
        _ => AutoAdmissionPnpState::Invalid(error),
    }
}

/// Whether a point lies inside an image.
pub open spec fn point_inside(p: CalibrationPoint, size: CalibrationImageSize) -> bool {
    p.x.finite() && p.y.finite() && p.x.key() >= 0 && p.y.key() >= 0 && p.x.below(
        nearest32(size.width as int),
    ) && p.y.below(nearest32(size.height as int))
}

/// Whether every corner lies inside the image.
pub open spec fn detection_inside(corners: Seq<CalibrationPoint>, size: CalibrationImageSize) -> bool {
    forall|i: int| 0 <= i < corners.len() ==> point_inside(#[trigger] corners[i], size)
}

/// Checks that every corner is finite and inside the image.
pub fn ensure_detection_inside_image(detection: &ChessboardDetection) -> (r: Result<
    (),
    CalibrationSessionError,
>)
    ensures
        r == (if detection_inside(detection.corners@, detection.image_size) {
            Ok::<(), CalibrationSessionError>(())
        } else {
            Err(
                CalibrationSessionError::RejectInvalidCandidateGeometry(
                    GeometryFault::OutsideImage,
                ),
            )
        }),
{
    let width: Real32 = Real32::from_u32(detection.image_size.width);
    let height: Real32 = Real32::from_u32(detection.image_size.height);
    let mut i: usize = 0;
    while i < detection.corners.len()
        invariant
            i <= detection.corners@.len(),
            width == nearest32(detection.image_size.width as int),
            height == nearest32(detection.image_size.height as int),
            forall|j: int|
                0 <= j < i ==> point_inside(#[trigger] detection.corners@[j], detection.image_size),
        decreases detection.corners@.len() - i,
    {
        let p: CalibrationPoint = detection.corners[i];
        let inside: bool = p.x.is_finite() && p.y.is_finite() && Real32::zero().le(p.x)
            && Real32::zero().le(p.y) && p.x.lt(width) && p.y.lt(height);
        if !inside {
            proof {
                assert(!point_inside(detection.corners@[i as int], detection.image_size));
            }
            return Err(
                CalibrationSessionError::RejectInvalidCandidateGeometry(
                    GeometryFault::OutsideImage,
                ),
            );
        }
        i = i + 1;
    }
    Ok(())
}

/// The smallest of some distances; infinity when there are none.
pub open spec fn shortest(distances: Seq<Real32>) -> Real32
    decreases distances.len(),
{
    if distances.len() == 0 {
        Real32 { bits: INFINITE32 }
    } else {
        shortest(distances.drop_last()).smaller(distances.last())
    }
}

/// Whether neighbouring corners keep a distance.
pub open spec fn spacing_kept(distances: Seq<Real32>, minimum: Real32) -> bool {
    shortest(distances).finite() && minimum.at_most(shortest(distances))
}

/// Checks that neighbouring corners are far enough apart, given the distances between the
/// neighbours that [`adjacent_pairs`] lists.
pub fn ensure_min_adjacent_spacing(distances: &Vec<Real32>, min_spacing_px: Real32) -> (r: Result<
    (),
    CalibrationSessionError,
>)
    ensures
        r == (if spacing_kept(distances@, min_spacing_px) {
            Ok::<(), CalibrationSessionError>(())
        } else {
            Err(
                CalibrationSessionError::RejectInvalidCandidateGeometry(
                    GeometryFault::AdjacentSpacing {
                        minimum: shortest(distances@),
                        required: min_spacing_px,
                    },
                ),
            )
        }),
{
    let mut minimum: Real32 = Real32::infinity();
    let mut i: usize = 0;
    proof {
        assert(distances@.take(0) =~= Seq::<Real32>::empty());
    }
    while i < distances.len()
        invariant
            i <= distances@.len(),
            minimum == shortest(distances@.take(i as int)),
        decreases distances@.len() - i,
    {
        proof {
            let next = distances@.take(i + 1);
            assert(next.drop_last() =~= distances@.take(i as int));
            assert(next.last() == distances@[i as int]);
        }
        minimum = minimum.min(distances[i]);
        i = i + 1;
    }
    proof {
        assert(distances@.take(i as int) =~= distances@);
    }
    if minimum.is_finite() && min_spacing_px.le(minimum) {
        Ok(())
    } else {
        Err(
            CalibrationSessionError::RejectInvalidCandidateGeometry(
                GeometryFault::AdjacentSpacing { minimum, required: min_spacing_px },
            ),
        )
    }
}

/// The neighbours that corner `index` of a board comes before: to its right and below it.
pub open spec fn neighbours_of(cols: int, rows: int, index: int) -> Seq<(usize, usize)> {
    let right = if index % cols + 1 < cols {
        seq![(index as usize, (index + 1) as usize)]
    } else {
        Seq::empty()
    };
    let below = if index / cols + 1 < rows {
        seq![(index as usize, (index + cols) as usize)]
    } else {
        Seq::empty()
    };
    right + below
}

/// The neighbouring corners of the first `n` corners of a board, in row order.
pub open spec fn neighbours(cols: int, rows: int, n: nat) -> Seq<(usize, usize)>
    decreases n,
{
    if n == 0 {
        Seq::empty()
    } else {
        neighbours(cols, rows, (n - 1) as nat) + neighbours_of(cols, rows, n - 1)
    }
}

/// The pairs of neighbouring corners of a board, by their indices.
pub fn adjacent_pairs(board: BoardSpec) -> (r: Vec<(usize, usize)>)
    ensures
        r@ == neighbours(
            board.inner_cols as int,
            board.inner_rows as int,
            board.corners() as nat,
        ),
{
    let cols: usize = board.inner_cols as usize;
    let rows: usize = board.inner_rows as usize;
    let mut out: Vec<(usize, usize)> = Vec::new();
    proof {
        assert(cols * rows <= 0xffff * 0xffff) by (nonlinear_arith)
            requires
                cols <= 0xffff,
                rows <= 0xffff,
        ;
        assert(cols * rows >= 0) by (nonlinear_arith)
            requires
                cols >= 0,
                rows >= 0,
        ;
    }
    let total: usize = cols * rows;
    let mut index: usize = 0;
    while index < total
        invariant
            index <= total == cols * rows,
            total <= 0xffff * 0xffff,
            cols == board.inner_cols,
            rows == board.inner_rows,
            out@ == neighbours(cols as int, rows as int, index as nat),
        decreases total - index,
    {
        proof {
            assert(cols > 0) by (nonlinear_arith)
                requires
                    cols >= 0,
                    cols * rows > 0,
            ;
        }
        let row: usize = index / cols;
        let col: usize = index % cols;
        proof {
            assert(index == row * cols + col) by (nonlinear_arith)
                requires
                    cols > 0,
                    row == index / cols,
                    col == index % cols,
            ;
            if row + 1 < rows {
                assert(index + cols < total) by (nonlinear_arith)
                    requires
                        index == row * cols + col,
                        col < cols,
                        row + 1 < rows,
                        total == cols * rows,
                ;
            }
        }
        let ghost before = out@;
        if col + 1 < cols {
            out.push((index, index + 1));
        }
        if row + 1 < rows {
            out.push((index, index + cols));
        }
        proof {
            assert(out@ =~= before + neighbours_of(cols as int, rows as int, index as int));
        }
        index = index + 1;
    }
    out
}

/// The field cell of a corner, given the column and row that its position scales to.
pub open spec fn field_cell(c: AutoCaptureAcceptanceCriteria, position: (usize, usize)) -> usize {
    (clamped_bin(position.1, c.field_rows) * c.field_columns + clamped_bin(
        position.0,
        c.field_columns,
    )) as usize
}

/// The field cells that corners cover, each with its number of corners.
pub open spec fn field_coverage(c: AutoCaptureAcceptanceCriteria, positions: Seq<(usize, usize)>) -> Seq<
    (usize, usize),
> {
    occupied(
        accumulated(
            zeros(c.cells() as nat),
            ones(positions.map_values(|p: (usize, usize)| field_cell(c, p))),
        ),
    )
}

proof fn lemma_field_cell_bound(c: AutoCaptureAcceptanceCriteria, p: (usize, usize))
    requires
        1 <= c.field_columns <= 32,
        1 <= c.field_rows <= 32,
    ensures
        clamped_bin(p.1, c.field_rows) * c.field_columns + clamped_bin(p.0, c.field_columns)
            < c.cells() <= 1024,
        clamped_bin(p.1, c.field_rows) * c.field_columns >= 0,
        field_cell(c, p) < c.cells(),
{
    let row = clamped_bin(p.1, c.field_rows) as int;
    let col = clamped_bin(p.0, c.field_columns) as int;
    let cols = c.field_columns as int;
    let rows = c.field_rows as int;
    assert(row * cols + col < cols * rows && row * cols >= 0 && cols * rows <= 1024)
        by (nonlinear_arith)
        requires
            0 <= row,
            row + 1 <= rows,
            0 <= col < cols,
            cols <= 32,
            rows <= 32,
    ;
}

/// Counts corners in their field cells, given the column and row that each position scales to.
pub fn field_corner_counts(
    criteria: &AutoCaptureAcceptanceCriteria,
    positions: &Vec<(usize, usize)>,
) -> (r: Vec<(usize, usize)>)
    requires
        1 <= criteria.field_columns <= 32,
        1 <= criteria.field_rows <= 32,
    ensures
        r@ == field_coverage(*criteria, positions@),
        within(r@, criteria.cells() as nat),
{
    let ghost cell = |p: (usize, usize)| field_cell(*criteria, p);
    proof {
        lemma_field_cell_bound(*criteria, (0usize, 0usize));
    }
    let mut cells: Vec<usize> = Vec::new();
    let mut i: usize = 0;
    while i < positions.len()
        invariant
            i <= positions@.len(),
            1 <= criteria.field_columns <= 32,
            1 <= criteria.field_rows <= 32,
            cell == (|p: (usize, usize)| field_cell(*criteria, p)),
            cells@ == positions@.take(i as int).map_values(cell),
            forall|j: int| 0 <= j < i ==> (#[trigger] cells@[j]) < criteria.cells(),
        decreases positions@.len() - i,
    {
        let (x, y) = positions[i];
        proof {
            lemma_field_cell_bound(*criteria, positions@[i as int]);
        }
        let column: usize = if x < criteria.field_columns {
            x
        } else {
            criteria.field_columns - 1
        };
        let row: usize = if y < criteria.field_rows {
            y
        } else {
            criteria.field_rows - 1
        };
        cells.push(row * criteria.field_columns + column);
        i = i + 1;
        proof {
            assert(cells@ =~= positions@.take(i as int).map_values(cell));
        }
    }
    proof {
        assert(positions@.take(i as int) =~= positions@);
        assert forall|j: int| 0 <= j < ones(cells@).len() implies (#[trigger] ones(cells@)[j]).0
            < zeros(criteria.cells() as nat).len() by {
            assert(ones(cells@)[j].0 == cells@[j]);
        }
        crate::calibration::coverage::lemma_accumulated_len(
            zeros(criteria.cells() as nat),
            ones(cells@),
        );
    }
    let mut counts: Vec<usize> = zero_counts(criteria.field_columns * criteria.field_rows);
    tally(&mut counts, &cells);
    occupied_regions(&counts)
}

/// The field cells that a detection touches, given the column and row that each corner scales to.
pub fn detection_field_cells(
    criteria: &AutoCaptureAcceptanceCriteria,
    positions: &Vec<(usize, usize)>,
) -> (r: Vec<usize>)
    requires
        1 <= criteria.field_columns <= 32,
        1 <= criteria.field_rows <= 32,
    ensures
        r@ == field_coverage(*criteria, positions@).map_values(|entry: (usize, usize)| entry.0),
{
    let counted: Vec<(usize, usize)> = field_corner_counts(criteria, positions);
    region_names(&counted)
}

/// The regions of some counted regions.
pub fn region_names(counted: &Vec<(usize, usize)>) -> (r: Vec<usize>)
    ensures
        r@ == counted@.map_values(|entry: (usize, usize)| entry.0),
{
    let ghost name = |entry: (usize, usize)| entry.0;
    let mut out: Vec<usize> = Vec::new();
    let mut i: usize = 0;
    while i < counted.len()
        invariant
            i <= counted@.len(),
            name == (|entry: (usize, usize)| entry.0),
            out@ == counted@.take(i as int).map_values(name),
        decreases counted@.len() - i,
    {
        out.push(counted[i].0);
        i = i + 1;
        proof {
            assert(out@ =~= counted@.take(i as int).map_values(name));
        }
    }
    proof {
        assert(counted@.take(i as int) =~= counted@);
    }
    out
}

} // verus!
