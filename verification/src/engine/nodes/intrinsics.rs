//! Camera matrices of the pinhole model.
use crate::engine::nodes::config::ONE;
use crate::engine::packet::CameraModelParams;
use crate::ieee::Real64;
use crate::model::{all_finite, InitialIntrinsics};
use vstd::prelude::*;

verus! {

/// A camera matrix, row by row.
pub open spec fn pinhole_matrix(fx: Real64, fy: Real64, cx: Real64, cy: Real64) -> Seq<Real64> {
    let zero = Real64 { bits: 0 };
    seq![fx, zero, cx, zero, fy, cy, zero, zero, Real64 { bits: ONE }]
}

/// As many zeros as asked for.
pub open spec fn zeros(n: nat) -> Seq<Real64> {
    Seq::new(n, |i: int| Real64 { bits: 0 })
}

/// Whether a camera matrix is finite, row by row, with positive focal lengths.
pub open spec fn matrix_usable(matrix: Seq<Real64>) -> bool {
    all_finite(matrix) && matrix[0].key() > 0 && matrix[4].key() > 0
}

/// A camera matrix with `count` distortion coefficients, all zero.
pub fn pinhole_intrinsics(fx: Real64, fy: Real64, cx: Real64, cy: Real64, count: usize) -> (r:
    InitialIntrinsics)
    ensures
        r.camera_matrix@ == pinhole_matrix(fx, fy, cx, cy),
        r.distortion_coefficients@ == zeros(count as nat),
        r.usable() == matrix_usable(pinhole_matrix(fx, fy, cx, cy)),
{
    let zero: Real64 = Real64::zero();
    let mut coefficients: Vec<Real64> = Vec::new();
    while coefficients.len() < count
        invariant
            coefficients@.len() <= count,
            zero == (Real64 { bits: 0 }),
            forall|i: int| 0 <= i < coefficients@.len() ==> #[trigger] coefficients@[i] == zero,
        decreases count - coefficients@.len(),
    {
        coefficients.push(zero);
    }
    let r = InitialIntrinsics {
        camera_matrix: [fx, zero, cx, zero, fy, cy, zero, zero, Real64::from_bits(ONE)],
        distortion_coefficients: coefficients,
    };
    proof {
        assert(r.camera_matrix@ =~= pinhole_matrix(fx, fy, cx, cy));
        assert(r.distortion_coefficients@ =~= zeros(count as nat));
        assert forall|i: int| 0 <= i < r.distortion_coefficients@.len() implies (
        #[trigger] r.distortion_coefficients@[i]).finite() by {}
    }
    r
}

/// The camera matrix of a camera.
pub open spec fn camera_matrix(camera: CameraModelParams) -> Seq<Real64> {
    pinhole_matrix(camera.fx, camera.fy, camera.cx, camera.cy)
}

/// The matrix of a camera that passed its check passes the check of a matrix.
pub proof fn law_checked_camera_has_usable_matrix(camera: CameraModelParams)
    requires
        camera.fault() is None,
    ensures
        matrix_usable(camera_matrix(camera)),
{
    let matrix = camera_matrix(camera);
    assert forall|i: int| 0 <= i < matrix.len() implies (#[trigger] matrix[i]).finite() by {
        if i == 8 {
            assert(matrix[i].bits == ONE);
        }
    }
}

} // verus!
