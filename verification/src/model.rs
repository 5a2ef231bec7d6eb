//! Calibration data: board, images, corner detections, camera parameters, requests and solutions.
use crate::ieee::{Real32, Real64};
use crate::text::{concat, concat3, concat5, decimal, decimal_text};
use vstd::prelude::*;

verus! {

/// Why calibration data is not usable.
#[derive(Clone, Copy, Debug, PartialEq, Eq, Structural)]
pub enum CalibrationDataError {
    /// An image has no width or no height.
    EmptyImage { width: u32, height: u32 },
    /// A board needs at least two inner corners in both directions.
    BoardLayout { inner_cols: u16, inner_rows: u16 },
    /// The spacing of a board is not a positive finite number.
    BoardSpacing,
    /// A view has a number of corners that is not the board's.
    CornerCount { expected: usize, actual: usize },
    /// A corner is not finite.
    CornerNotFinite,
    /// A camera parameter is not finite or a focal length is not positive.
    Intrinsics,
    /// A request has no views.
    NoViews,
    /// A solution is for another image size than its request.
    SolutionImageSize,
    /// A solution has a number of views that is not the request's.
    SolutionViews { expected: usize, actual: usize },
    /// A figure of a solution is not finite, or an error figure is negative.
    SolutionNotFinite,
}

impl CalibrationDataError {
    /// The text that the error is reported by.
    pub open spec fn text(self) -> Seq<char> {
        match self {
            CalibrationDataError::EmptyImage { width, height } => "image size "@ + decimal(
                width as nat,
            ) + "x"@ + decimal(height as nat) + " has no pixels"@,
            CalibrationDataError::BoardLayout { inner_cols, inner_rows } => "board layout "@
                + decimal(inner_cols as nat) + "x"@ + decimal(inner_rows as nat)
                + " needs at least two inner corners in both directions"@,
            CalibrationDataError::BoardSpacing =>
                "board square size must be finite and positive"@,
            CalibrationDataError::CornerCount { expected, actual } => "view has "@ + decimal(
                actual as nat,
            ) + " corners instead of "@ + decimal(expected as nat),
            CalibrationDataError::CornerNotFinite => "view has a corner that is not finite"@,
            CalibrationDataError::Intrinsics =>
                "intrinsics must be finite with positive focal lengths"@,
            CalibrationDataError::NoViews => "calibration request has no views"@,
            CalibrationDataError::SolutionImageSize =>
                "solution is for another image size than its request"@,
            CalibrationDataError::SolutionViews { expected, actual } => "solution has "@ + decimal(
                actual as nat,
            ) + " views instead of "@ + decimal(expected as nat),
            CalibrationDataError::SolutionNotFinite =>
                "solution has a figure that is not finite or a negative error"@,
        }
    }

    /// The text that the error is reported by.
    pub fn describe(&self) -> (r: String)
        ensures
            r@ == self.text(),
    {
        match *self {
            CalibrationDataError::EmptyImage { width, height } => concat5(
                "image size ",
                decimal_text(width as u64).as_str(),
                "x",
                decimal_text(height as u64).as_str(),
                " has no pixels",
            ),
            CalibrationDataError::BoardLayout { inner_cols, inner_rows } => concat5(
                "board layout ",
                decimal_text(inner_cols as u64).as_str(),
                "x",
                decimal_text(inner_rows as u64).as_str(),
                " needs at least two inner corners in both directions",
            ),
            CalibrationDataError::BoardSpacing =>
                "board square size must be finite and positive".to_owned(),
            CalibrationDataError::CornerCount { expected, actual } => concat(
                concat3(
                    "view has ",
                    decimal_text(actual as u64).as_str(),
                    " corners instead of ",
                ).as_str(),
                decimal_text(expected as u64).as_str(),
            ),
            CalibrationDataError::CornerNotFinite =>
                "view has a corner that is not finite".to_owned(),
            CalibrationDataError::Intrinsics =>
                "intrinsics must be finite with positive focal lengths".to_owned(),
            CalibrationDataError::NoViews => "calibration request has no views".to_owned(),
            CalibrationDataError::SolutionImageSize =>
                "solution is for another image size than its request".to_owned(),
            CalibrationDataError::SolutionViews { expected, actual } => concat(
                concat3(
                    "solution has ",
                    decimal_text(actual as u64).as_str(),
                    " views instead of ",
                ).as_str(),
                decimal_text(expected as u64).as_str(),
            ),
            CalibrationDataError::SolutionNotFinite =>
                "solution has a figure that is not finite or a negative error".to_owned(),
        }
    }
}

/// Size of an image in pixels.
#[derive(Clone, Copy, Debug, PartialEq, Eq, Hash, Structural)]
pub struct CalibrationImageSize {
    pub width: u32,
    pub height: u32,
}

impl CalibrationImageSize {
    pub fn new(width: u32, height: u32) -> (r: Result<CalibrationImageSize, CalibrationDataError>)
        ensures
            r == (if width > 0 && height > 0 {
                Ok::<CalibrationImageSize, CalibrationDataError>(
                    CalibrationImageSize { width, height },
                )
            } else {
                Err(CalibrationDataError::EmptyImage { width, height })
            }),
    {
        if width == 0 || height == 0 {
            Err(CalibrationDataError::EmptyImage { width, height })
        } else {
            Ok(CalibrationImageSize { width, height })
        }
    }

    /// The size in words.
    pub open spec fn text(self) -> Seq<char> {
        "CalibrationImageSize { width: "@ + decimal(self.width as nat) + ", height: "@ + decimal(
            self.height as nat,
        ) + " }"@
    }

    pub fn describe(&self) -> (r: String)
        ensures
            r@ == self.text(),
    {
        concat5(
            "CalibrationImageSize { width: ",
            decimal_text(self.width as u64).as_str(),
            ", height: ",
            decimal_text(self.height as u64).as_str(),
            " }",
        )
    }
}

/// A pixel position.
#[derive(Clone, Copy, Debug, PartialEq, Eq, Hash, Structural)]
pub struct CalibrationPoint {
    pub x: Real32,
    pub y: Real32,
}

/// A chessboard by its inner corners and the distance between neighbours.
#[derive(Clone, Copy, Debug, PartialEq, Eq, Hash, Structural)]
pub struct BoardSpec {
    pub inner_cols: u16,
    pub inner_rows: u16,
    pub square_size: Real64,
}

impl BoardSpec {
    /// What makes a board unusable, if anything does.
    pub open spec fn fault(self) -> Option<CalibrationDataError> {
        if self.inner_cols < 2 || self.inner_rows < 2 {
            Some(
                CalibrationDataError::BoardLayout {
                    inner_cols: self.inner_cols,
                    inner_rows: self.inner_rows,
                },
            )
        } else if !self.square_size.finite() || self.square_size.key() <= 0 {
            Some(CalibrationDataError::BoardSpacing)
        } else {
            None
        }
    }

    /// The number of inner corners.
    pub open spec fn corners(self) -> int {
        self.inner_cols * self.inner_rows
    }

    /// Equality of two boards, the spacing compared as a number.
    pub open spec fn same(self, other: BoardSpec) -> bool {
        self.inner_cols == other.inner_cols && self.inner_rows == other.inner_rows
            && self.square_size.same(other.square_size)
    }

    pub fn new(inner_cols: u16, inner_rows: u16, square_size: Real64) -> (r: Result<
        BoardSpec,
        CalibrationDataError,
    >)
        ensures
            ({
                let board = BoardSpec { inner_cols, inner_rows, square_size };
                match board.fault() {
                    None => r == Ok::<BoardSpec, CalibrationDataError>(board),
                    Some(e) => r == Err::<BoardSpec, CalibrationDataError>(e),
                }
            }),
    {
        let board: BoardSpec = BoardSpec { inner_cols, inner_rows, square_size };
        match board.validate() {
            Ok(()) => Ok(board),
            Err(e) => Err(e),
        }
    }

    pub fn validate(&self) -> (r: Result<(), CalibrationDataError>)
        ensures
            r == (match self.fault() {
                None => Ok::<(), CalibrationDataError>(()),
                Some(e) => Err(e),
            }),
    {
        if self.inner_cols < 2 || self.inner_rows < 2 {
            return Err(
                CalibrationDataError::BoardLayout {
                    inner_cols: self.inner_cols,
                    inner_rows: self.inner_rows,
                },
            );
        }
        if !self.square_size.is_finite() || self.square_size.le(Real64::zero()) {
            return Err(CalibrationDataError::BoardSpacing);
        }
        Ok(())
    }

    /// The number of inner corners of a usable board.
    pub fn corner_count(&self) -> (r: Result<usize, CalibrationDataError>)
        ensures
            match self.fault() {
                None => r is Ok && r->Ok_0 == self.corners(),
                Some(e) => r == Err::<usize, CalibrationDataError>(e),
            },
    {
        match self.validate() {
            Ok(()) => {
                proof {
                    assert(self.inner_cols * self.inner_rows <= 0xffff * 0xffff) by (nonlinear_arith)
                        requires
                            self.inner_cols <= 0xffff,
                            self.inner_rows <= 0xffff,
                    ;
                }
                Ok(self.inner_cols as usize * self.inner_rows as usize)
            },
            Err(e) => Err(e),
        }
    }

    pub fn eq_value(&self, other: &BoardSpec) -> (r: bool)
        ensures
            r == self.same(*other),
    {
        self.inner_cols == other.inner_cols && self.inner_rows == other.inner_rows
            && self.square_size.eq_value(other.square_size)
    }
}

/// The corners of a chessboard found in one image, row by row.
#[derive(Debug)]
pub struct ChessboardDetection {
    pub image_size: CalibrationImageSize,
    pub corners: Vec<CalibrationPoint>,
}

/// Whether every corner is finite.
pub open spec fn corners_finite(corners: Seq<CalibrationPoint>) -> bool {
    forall|i: int|
        0 <= i < corners.len() ==> (#[trigger] corners[i]).x.finite() && corners[i].y.finite()
}

/// What makes the corners of a view unusable for a board, if anything does.
pub open spec fn view_fault(corners: Seq<CalibrationPoint>, board: BoardSpec) -> Option<
    CalibrationDataError,
> {
    match board.fault() {
        Some(e) => Some(e),
        None => if corners.len() != board.corners() {
            Some(
                CalibrationDataError::CornerCount {
                    expected: board.corners() as usize,
                    actual: corners.len() as usize,
                },
            )
        } else if !corners_finite(corners) {
            Some(CalibrationDataError::CornerNotFinite)
        } else {
            None
        },
    }
}

/// Checks the corners of a view against a board.
pub fn validate_view(corners: &Vec<CalibrationPoint>, board: BoardSpec) -> (r: Result<
    (),
    CalibrationDataError,
>)
    ensures
        r == (match view_fault(corners@, board) {
            None => Ok::<(), CalibrationDataError>(()),
            Some(e) => Err(e),
        }),
{
    let expected: usize = match board.corner_count() {
        Ok(n) => n,
        Err(e) => {
            return Err(e);
        },
    };
    if corners.len() != expected {
        return Err(CalibrationDataError::CornerCount { expected, actual: corners.len() });
    }
    let mut i: usize = 0;
    while i < corners.len()
        invariant
            i <= corners@.len(),
            board.fault() is None,
            corners@.len() == board.corners(),
            forall|j: int|
                0 <= j < i ==> (#[trigger] corners@[j]).x.finite() && corners@[j].y.finite(),
        decreases corners@.len() - i,
    {
        if !corners[i].x.is_finite() || !corners[i].y.is_finite() {
            proof {
                let bad = corners@[i as int];
                assert(!corners_finite(corners@));
            }
            return Err(CalibrationDataError::CornerNotFinite);
        }
        i = i + 1;
    }
    Ok(())
}

impl ChessboardDetection {
    /// Checks the detection against a board.
    pub fn validate(&self, board: BoardSpec) -> (r: Result<(), CalibrationDataError>)
        ensures
            r == (match view_fault(self.corners@, board) {
                None => Ok::<(), CalibrationDataError>(()),
                Some(e) => Err(e),
            }),
    {
        validate_view(&self.corners, board)
    }
}

/// What a detector says of one image.
#[derive(Debug)]
pub enum ChessboardDetectionOutcome {
    Found(ChessboardDetection),
    NotFound { image_size: CalibrationImageSize },
}

/// A camera matrix, row by row, and lens distortion coefficients.
#[derive(Debug)]
pub struct InitialIntrinsics {
    pub camera_matrix: [Real64; 9],
    pub distortion_coefficients: Vec<Real64>,
}

/// Whether every value is finite.
pub open spec fn all_finite(values: Seq<Real64>) -> bool {
    forall|i: int| 0 <= i < values.len() ==> (#[trigger] values[i]).finite()
}

/// Whether every value is finite.
pub fn every_finite(values: &[Real64]) -> (r: bool)
    ensures
        r == all_finite(values@),
{
    let mut i: usize = 0;
    while i < values.len()
        invariant
            i <= values@.len(),
            forall|j: int| 0 <= j < i ==> (#[trigger] values@[j]).finite(),
        decreases values@.len() - i,
    {
        if !values[i].is_finite() {
            return false;
        }
        i = i + 1;
    }
    true
}

impl InitialIntrinsics {
    /// Whether the parameters are finite and both focal lengths positive.
    pub open spec fn usable(self) -> bool {
        all_finite(self.camera_matrix@) && all_finite(self.distortion_coefficients@)
            && self.camera_matrix@[0].key() > 0 && self.camera_matrix@[4].key() > 0
    }

    pub fn validate(&self) -> (r: Result<(), CalibrationDataError>)
        ensures
            r == (if self.usable() {
                Ok::<(), CalibrationDataError>(())
            } else {
                Err(CalibrationDataError::Intrinsics)
            }),
    {
        if every_finite(self.camera_matrix.as_slice()) && every_finite(
            self.distortion_coefficients.as_slice(),
        ) {
            proof {
                assert(self.camera_matrix@[0].finite());
                assert(self.camera_matrix@[4].finite());
            }
            if Real64::zero().lt(self.camera_matrix[0]) && Real64::zero().lt(self.camera_matrix[4]) {
                return Ok(());
            }
        }
        Err(CalibrationDataError::Intrinsics)
    }
}

/// One calibration run: the views of one board in images of one size.
#[derive(Debug)]
pub struct CalibrationRequest {
    pub image_size: CalibrationImageSize,
    pub board: BoardSpec,
    pub image_points: Vec<Vec<CalibrationPoint>>,
    pub initial_intrinsics: InitialIntrinsics,
}

/// What makes some views unusable for a board, if anything does: the first failing view decides.
pub open spec fn views_fault(views: Seq<Seq<CalibrationPoint>>, board: BoardSpec) -> Option<
    CalibrationDataError,
>
    decreases views.len(),
{
    if views.len() == 0 {
        None
    } else {
        match view_fault(views[0], board) {
            Some(e) => Some(e),
            None => views_fault(views.drop_first(), board),
        }
    }
}

/// What makes a request unusable, if anything does.
pub open spec fn request_fault(
    board: BoardSpec,
    views: Seq<Seq<CalibrationPoint>>,
    intrinsics: InitialIntrinsics,
) -> Option<CalibrationDataError> {
    match board.fault() {
        Some(e) => Some(e),
        None => if views.len() == 0 {
            Some(CalibrationDataError::NoViews)
        } else {
            match views_fault(views, board) {
                Some(e) => Some(e),
                None => if intrinsics.usable() {
                    None
                } else {
                    Some(CalibrationDataError::Intrinsics)
                },
            }
        },
    }
}

/// The corners of some views.
pub open spec fn corner_lists(views: Seq<Vec<CalibrationPoint>>) -> Seq<Seq<CalibrationPoint>> {
    views.map_values(|view: Vec<CalibrationPoint>| view@)
}

impl CalibrationRequest {
    /// What makes the request unusable, if anything does.
    pub open spec fn fault(self) -> Option<CalibrationDataError> {
        request_fault(self.board, corner_lists(self.image_points@), self.initial_intrinsics)
    }

    pub fn validate(&self) -> (r: Result<(), CalibrationDataError>)
        ensures
            r == (match self.fault() {
                None => Ok::<(), CalibrationDataError>(()),
                Some(e) => Err(e),
            }),
    {
        match self.board.validate() {
            Err(e) => {
                return Err(e);
            },
            Ok(()) => {},
        }
        if self.image_points.len() == 0 {
            return Err(CalibrationDataError::NoViews);
        }
        let mut i: usize = 0;
        let ghost views = corner_lists(self.image_points@);
        proof {
            assert(views.skip(0) =~= views);
        }
        while i < self.image_points.len()
            invariant
                i <= self.image_points@.len(),
                self.image_points@.len() > 0,
                self.board.fault() is None,
                views == corner_lists(self.image_points@),
                views_fault(views, self.board) == views_fault(views.skip(i as int), self.board),
            decreases self.image_points@.len() - i,
        {
            proof {
                let rest = views.skip(i as int);
                assert(rest[0] == self.image_points@[i as int]@);
                assert(rest.drop_first() =~= views.skip(i + 1));
            }
            match validate_view(&self.image_points[i], self.board) {
                Err(e) => {
                    return Err(e);
                },
                Ok(()) => {},
            }
            i = i + 1;
        }
        self.initial_intrinsics.validate()
    }
}

/// The pose and the reprojection figures of one view.
#[derive(Debug)]
pub struct ViewCalibrationResult {
    pub rotation_vector: [Real64; 3],
    pub translation_vector: [Real64; 3],
    pub projected_points: Vec<CalibrationPoint>,
    pub reprojection_rmse: Real64,
    pub max_reprojection_error: Real64,
}

/// The outcome of a calibration run.
#[derive(Debug)]
pub struct CalibrationSolution {
    pub image_size: CalibrationImageSize,
    pub camera_matrix: [Real64; 9],
    pub distortion_coefficients: Vec<Real64>,
    pub rms_error: Real64,
    pub calibration_flags: i32,
    pub views: Vec<ViewCalibrationResult>,
}

impl CalibrationSolution {
    /// What makes the solution unusable for a request, if anything does.
    pub open spec fn fault_against(self, request: CalibrationRequest) -> Option<
        CalibrationDataError,
    > {
        if self.image_size != request.image_size {
            Some(CalibrationDataError::SolutionImageSize)
        } else if self.views@.len() != request.image_points@.len() {
            Some(
                CalibrationDataError::SolutionViews {
                    expected: request.image_points@.len() as usize,
                    actual: self.views@.len() as usize,
                },
            )
        } else if !all_finite(self.camera_matrix@) || !all_finite(self.distortion_coefficients@)
            || !self.rms_error.finite() || self.rms_error.key() < 0 {
            Some(CalibrationDataError::SolutionNotFinite)
        } else {
            None
        }
    }

    pub fn validate_against(&self, request: &CalibrationRequest) -> (r: Result<
        (),
        CalibrationDataError,
    >)
        ensures
            r == (match self.fault_against(*request) {
                None => Ok::<(), CalibrationDataError>(()),
                Some(e) => Err(e),
            }),
    {
        if self.image_size != request.image_size {
            return Err(CalibrationDataError::SolutionImageSize);
        }
        if self.views.len() != request.image_points.len() {
            return Err(
                CalibrationDataError::SolutionViews {
                    expected: request.image_points.len(),
                    actual: self.views.len(),
                },
            );
        }
        if !every_finite(self.camera_matrix.as_slice()) || !every_finite(
            self.distortion_coefficients.as_slice(),
        ) || !self.rms_error.is_finite() || self.rms_error.lt(Real64::zero()) {
            return Err(CalibrationDataError::SolutionNotFinite);
        }
        Ok(())
    }
}

} // verus!
