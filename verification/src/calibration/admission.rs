//! Automatic admission: acquisition source, intrinsics binding, acceptance criteria and baseline.
use crate::calibration::error::{BaselineFault, BindingMismatch, CalibrationSessionError, IntrinsicsBindingFault};
use crate::digest::{be_bytes, bytes_field, hash_of, string_field, HashFrame, SnapshotHash};
use crate::ieee::{Real32, Real64};
use crate::model::{BoardSpec, CalibrationDataError, CalibrationImageSize, InitialIntrinsics};
use crate::text::{blank, concat3, concat5, decimal, decimal_text, is_blank, quoted, quoted_text, same_text};
use vstd::prelude::*;

verus! {

/// The detection recipe that a baseline is bound to.
pub const AUTO_CAPTURE_DETECTOR_FINGERPRINT: &'static str =
    "opencv-findChessboardCorners-subpix-authoritative/v1";

/// The version of the coverage features that a baseline is bound to.
pub const AUTO_CAPTURE_FEATURE_SCHEMA_VERSION: &'static str = "field-pnp-coverage/v3";

/// The solver flags that a baseline is bound to: intrinsic guess, rational and thin prism model.
pub const PANGBOT_CALIBRATION_FLAGS: u32 = 49153;

/// The only accepted image orientation: unrotated image coordinates.
#[derive(Clone, Copy, Debug, PartialEq, Eq, Hash, Structural)]
pub enum CalibrationImageOrientation {
    Upright,
}

/// The only accepted pixel convention: integer coordinates are pixel centres.
#[derive(Clone, Copy, Debug, PartialEq, Eq, Hash, Structural)]
pub enum PixelCoordinateConvention {
    OpenCvPixelCenters,
}

/// A region of the source image; an absent crop is the full frame.
#[derive(Clone, Copy, Debug, PartialEq, Eq, Hash, Structural)]
pub struct CalibrationImageCrop {
    pub x: u32,
    pub y: u32,
    pub width: u32,
    pub height: u32,
}

/// The source that admission evidence comes from: device, channel and geometry profile.
#[derive(Debug, PartialEq, Eq, Hash)]
pub struct AutoCaptureAcquisitionKey {
    pub source_fingerprint: String,
    pub channel: u16,
    pub geometry_key: String,
}

/// An acquisition key by its values.
pub struct AcquisitionKeyView {
    pub source_fingerprint: Seq<char>,
    pub channel: u16,
    pub geometry_key: Seq<char>,
}

impl View for AutoCaptureAcquisitionKey {
    type V = AcquisitionKeyView;

    open spec fn view(&self) -> AcquisitionKeyView {
        AcquisitionKeyView {
            source_fingerprint: self.source_fingerprint@,
            channel: self.channel,
            geometry_key: self.geometry_key@,
        }
    }
}

impl Clone for AutoCaptureAcquisitionKey {
    fn clone(&self) -> (r: Self)
        ensures
            r == *self,
    {
        AutoCaptureAcquisitionKey {
            source_fingerprint: self.source_fingerprint.clone(),
            channel: self.channel,
            geometry_key: self.geometry_key.clone(),
        }
    }
}

impl AcquisitionKeyView {
    /// What makes the key unusable, if anything does.
    pub open spec fn fault(self) -> Option<BindingMismatch> {
        if blank(self.source_fingerprint) {
            Some(BindingMismatch::EmptySourceFingerprint)
        } else if blank(self.geometry_key) {
            Some(BindingMismatch::EmptyGeometryKey)
        } else {
            None
        }
    }
}

impl AcquisitionKeyView {
    /// The key in words.
    pub open spec fn text(self) -> Seq<char> {
        "AutoCaptureAcquisitionKey { source_fingerprint: "@ + quoted_text(self.source_fingerprint)
            + ", channel: "@ + decimal(self.channel as nat) + ", geometry_key: "@ + quoted_text(
            self.geometry_key,
        ) + " }"@
    }
}

impl AutoCaptureAcquisitionKey {
    /// The key in words.
    pub fn describe(&self) -> (r: String)
        ensures
            r@ == self@.text(),
    {
        let source: String = concat3(
            "AutoCaptureAcquisitionKey { source_fingerprint: ",
            quoted(self.source_fingerprint.as_str()).as_str(),
            ", channel: ",
        );
        let channel: String = concat3(
            source.as_str(),
            decimal_text(self.channel as u64).as_str(),
            ", geometry_key: ",
        );
        concat3(channel.as_str(), quoted(self.geometry_key.as_str()).as_str(), " }")
    }

    /// Makes a key; a blank source or geometry is refused.
    pub fn new(source_fingerprint: &str, channel: u16, geometry_key: &str) -> (r: Result<
        AutoCaptureAcquisitionKey,
        CalibrationSessionError,
    >)
        ensures
            ({
                let key = AcquisitionKeyView {
                    source_fingerprint: source_fingerprint@,
                    channel,
                    geometry_key: geometry_key@,
                };
                match key.fault() {
                    None => r is Ok && r->Ok_0@ == key,
                    Some(m) => r == Err::<AutoCaptureAcquisitionKey, CalibrationSessionError>(
                        CalibrationSessionError::RejectAutoAdmissionBindingMismatch(m),
                    ),
                }
            }),
    {
        let key: AutoCaptureAcquisitionKey = AutoCaptureAcquisitionKey {
            source_fingerprint: source_fingerprint.to_owned(),
            channel,
            geometry_key: geometry_key.to_owned(),
        };
        match key.check() {
            None => Ok(key),
            Some(m) => Err(CalibrationSessionError::RejectAutoAdmissionBindingMismatch(m)),
        }
    }

    /// What makes the key unusable, if anything does.
    pub fn check(&self) -> (r: Option<BindingMismatch>)
        ensures
            r == self@.fault(),
    {
        if is_blank(self.source_fingerprint.as_str()) {
            return Some(BindingMismatch::EmptySourceFingerprint);
        }
        if is_blank(self.geometry_key.as_str()) {
            return Some(BindingMismatch::EmptyGeometryKey);
        }
        None
    }

    /// Whether two keys name the same source.
    pub fn eq_value(&self, other: &AutoCaptureAcquisitionKey) -> (r: bool)
        ensures
            r == (self@ == other@),
    {
        same_text(self.source_fingerprint.as_str(), other.source_fingerprint.as_str())
            && self.channel == other.channel && same_text(
            self.geometry_key.as_str(),
            other.geometry_key.as_str(),
        )
    }
}

/// The fields of a sequence of reals in a digest frame: each encoding as a byte field.
pub open spec fn reals_frame(values: Seq<Real64>) -> Seq<u8>
    decreases values.len(),
{
    if values.len() == 0 {
        Seq::empty()
    } else {
        reals_frame(values.drop_last()) + real_field(values.last())
    }
}

/// The field of a real in a digest frame.
pub open spec fn real_field(value: Real64) -> Seq<u8> {
    bytes_field(be_bytes(value.bits as nat, 8))
}

/// Appends the field of a real.
fn frame_real(frame: &mut HashFrame, value: Real64)
    ensures
        final(frame)@ == old(frame)@ + real_field(value),
{
    let mut inner: Vec<u8> = Vec::new();
    let n: u64 = value.bits;
    inner.push((n / 0x100_0000_0000_0000) as u8);
    inner.push((n / 0x1_0000_0000_0000 % 256) as u8);
    inner.push((n / 0x100_0000_0000 % 256) as u8);
    inner.push((n / 0x1_0000_0000 % 256) as u8);
    inner.push((n / 0x100_0000 % 256) as u8);
    inner.push((n / 0x1_0000 % 256) as u8);
    inner.push((n / 256 % 256) as u8);
    inner.push((n % 256) as u8);
    proof {
        reveal_with_fuel(be_bytes, 9);
        let m = n as nat;
        assert(m / 256 / 256 == m / 0x1_0000);
        assert(m / 0x1_0000 / 256 == m / 0x100_0000);
        assert(m / 0x100_0000 / 256 == m / 0x1_0000_0000);
        assert(m / 0x1_0000_0000 / 256 == m / 0x100_0000_0000);
        assert(m / 0x100_0000_0000 / 256 == m / 0x1_0000_0000_0000);
        assert(m / 0x1_0000_0000_0000 / 256 == m / 0x100_0000_0000_0000);
        assert(inner@ =~= be_bytes(n as nat, 8));
    }
    frame.bytes(inner.as_slice());
}

/// Appends the fields of a sequence of reals.
fn frame_reals(frame: &mut HashFrame, values: &[Real64])
    ensures
        final(frame)@ == old(frame)@ + reals_frame(values@),
{
    let ghost head = frame@;
    let mut i: usize = 0;
    while i < values.len()
        invariant
            i <= values@.len(),
            frame@ == head + reals_frame(values@.take(i as int)),
        decreases values@.len() - i,
    {
        let ghost before = reals_frame(values@.take(i as int));
        frame_real(frame, values[i]);
        proof {
            let next = values@.take(i + 1);
            assert(next.drop_last() =~= values@.take(i as int));
            assert(next.last() == values@[i as int]);
            assert(frame@ =~= head + (before + real_field(values@[i as int])));
        }
        i = i + 1;
    }
    proof {
        assert(values@.take(i as int) =~= values@);
    }
}

/// The camera parameters, image geometry and source that pose evidence is bound to.
#[derive(Debug)]
pub struct InitialIntrinsicsBinding {
    pub initial_intrinsics: InitialIntrinsics,
    pub reference_image_size: CalibrationImageSize,
    pub orientation: CalibrationImageOrientation,
    pub crop: Option<CalibrationImageCrop>,
    pub pixel_convention: PixelCoordinateConvention,
    pub acquisition_key: AutoCaptureAcquisitionKey,
    pub digest: SnapshotHash,
}

/// The field of a crop in a digest frame.
pub open spec fn crop_frame(crop: Option<CalibrationImageCrop>) -> Seq<u8> {
    match crop {
        Some(crop) => seq![1u8] + be_bytes(crop.x as nat, 4) + be_bytes(crop.y as nat, 4)
            + be_bytes(crop.width as nat, 4) + be_bytes(crop.height as nat, 4),
        None => seq![0u8],
    }
}

/// The message that the digest of a binding is taken of.
pub open spec fn binding_frame(
    size: CalibrationImageSize,
    crop: Option<CalibrationImageCrop>,
    key: AcquisitionKeyView,
    camera_matrix: Seq<Real64>,
    distortion: Seq<Real64>,
) -> Seq<u8> {
    string_field("camera-toolbox/initial-intrinsics-binding/v1"@) + be_bytes(size.width as nat, 4)
        + be_bytes(size.height as nat, 4) + seq![0u8] + crop_frame(crop) + seq![0u8] + string_field(
        key.source_fingerprint,
    ) + be_bytes(key.channel as nat, 2) + string_field(key.geometry_key) + reals_frame(
        camera_matrix,
    ) + be_bytes(distortion.len(), 8) + reals_frame(distortion)
}

/// The digest of the fields of a binding.
fn binding_digest(
    intrinsics: &InitialIntrinsics,
    size: CalibrationImageSize,
    crop: Option<CalibrationImageCrop>,
    key: &AutoCaptureAcquisitionKey,
) -> (r: SnapshotHash)
    ensures
        r == hash_of(
            binding_frame(
                size,
                crop,
                key@,
                intrinsics.camera_matrix@,
                intrinsics.distortion_coefficients@,
            ),
        ),
{
    let mut frame: HashFrame = SnapshotHash::builder("camera-toolbox/initial-intrinsics-binding/v1");
    frame.u32(size.width);
    frame.u32(size.height);
    frame.u8(0);
    let ghost before = frame@;
    match crop {
        Some(crop) => {
            frame.u8(1);
            frame.u32(crop.x);
            frame.u32(crop.y);
            frame.u32(crop.width);
            frame.u32(crop.height);
        },
        None => frame.u8(0),
    }
    proof {
        assert(frame@ =~= before + crop_frame(crop));
    }
    frame.u8(0);
    frame.string(key.source_fingerprint.as_str());
    frame.u16(key.channel);
    frame.string(key.geometry_key.as_str());
    frame_reals(&mut frame, intrinsics.camera_matrix.as_slice());
    frame.u64(intrinsics.distortion_coefficients.len() as u64);
    frame_reals(&mut frame, intrinsics.distortion_coefficients.as_slice());
    frame.finish()
}

/// The geometry profile of a dataset image of the given size.
pub open spec fn dataset_geometry(size: CalibrationImageSize) -> Seq<char> {
    "dataset;full-frame="@ + decimal(size.width as nat) + "x"@ + decimal(size.height as nat)
        + ";orientation=upright;pixel=opencv-centers"@
}

/// The source key of dataset evidence, which is bound to no device.
pub open spec fn dataset_key(size: CalibrationImageSize) -> AcquisitionKeyView {
    AcquisitionKeyView {
        source_fingerprint: "dataset-pnp"@,
        channel: 0,
        geometry_key: dataset_geometry(size),
    }
}

/// The digest of the full-frame binding of dataset evidence.
pub open spec fn dataset_digest(intrinsics: InitialIntrinsics, size: CalibrationImageSize) -> SnapshotHash {
    hash_of(
        binding_frame(
            size,
            None,
            dataset_key(size),
            intrinsics.camera_matrix@,
            intrinsics.distortion_coefficients@,
        ),
    )
}

proof fn lemma_dataset_key_usable(size: CalibrationImageSize)
    ensures
        dataset_key(size).fault() is None,
{
    reveal_strlit("dataset-pnp");
    reveal_strlit("dataset;full-frame=");
    lemma_leading_text_not_blank("dataset-pnp"@);
    assert(dataset_geometry(size)[0] == 'd');
    lemma_leading_text_not_blank(dataset_geometry(size));
}

proof fn lemma_leading_text_not_blank(s: Seq<char>)
    requires
        s.len() > 0,
        !crate::text::white_space(s[0]),
    ensures
        !blank(s),
{
    lemma_trimmed_end_keeps_head(s);
}

proof fn lemma_trimmed_end_keeps_head(s: Seq<char>)
    requires
        s.len() > 0,
        !crate::text::white_space(s[0]),
    ensures
        crate::text::trimmed_end(s).len() > 0,
    decreases s.len(),
{
    if crate::text::white_space(s.last()) {
        assert(s.drop_last()[0] == s[0]);
        lemma_trimmed_end_keeps_head(s.drop_last());
    }
}

/// The key of dataset evidence for images of the given size.
fn dataset_acquisition_key(size: CalibrationImageSize) -> (r: AutoCaptureAcquisitionKey)
    ensures
        r@ == dataset_key(size),
{
    let width: String = decimal_text(size.width as u64);
    let height: String = decimal_text(size.height as u64);
    let geometry: String = concat5(
        "dataset;full-frame=",
        width.as_str(),
        "x",
        height.as_str(),
        ";orientation=upright;pixel=opencv-centers",
    );
    AutoCaptureAcquisitionKey {
        source_fingerprint: "dataset-pnp".to_owned(),
        channel: 0,
        geometry_key: geometry,
    }
}

/// The digest that dataset evidence carries for the given parameters and image size.
pub fn dataset_binding_digest(intrinsics: &InitialIntrinsics, size: CalibrationImageSize) -> (r:
    SnapshotHash)
    ensures
        r == dataset_digest(*intrinsics, size),
{
    let key: AutoCaptureAcquisitionKey = dataset_acquisition_key(size);
    binding_digest(intrinsics, size, None, &key)
}

impl InitialIntrinsicsBinding {
    /// The digest that the fields call for.
    pub open spec fn digest_of_fields(self) -> SnapshotHash {
        hash_of(
            binding_frame(
                self.reference_image_size,
                self.crop,
                self.acquisition_key@,
                self.initial_intrinsics.camera_matrix@,
                self.initial_intrinsics.distortion_coefficients@,
            ),
        )
    }

    /// What makes the binding unusable, if anything does.
    pub open spec fn fault(self) -> Option<CalibrationSessionError> {
        if !self.initial_intrinsics.usable() {
            Some(CalibrationSessionError::InvalidData(CalibrationDataError::Intrinsics))
        } else {
            match self.acquisition_key@.fault() {
                Some(m) => Some(
                    CalibrationSessionError::InvalidInitialIntrinsicsBinding(
                        IntrinsicsBindingFault::Acquisition(m),
                    ),
                ),
                None => if self.digest_of_fields() != self.digest {
                    Some(
                        CalibrationSessionError::InvalidInitialIntrinsicsBinding(
                            IntrinsicsBindingFault::Digest,
                        ),
                    )
                } else {
                    None
                },
            }
        }
    }

    /// Binds parameters to the uncropped, unrotated frames of a source.
    pub fn full_frame(
        initial_intrinsics: InitialIntrinsics,
        reference_image_size: CalibrationImageSize,
        acquisition_key: AutoCaptureAcquisitionKey,
    ) -> (r: Result<InitialIntrinsicsBinding, CalibrationSessionError>)
        ensures
            ({
                let binding = InitialIntrinsicsBinding {
                    initial_intrinsics,
                    reference_image_size,
                    orientation: CalibrationImageOrientation::Upright,
                    crop: None,
                    pixel_convention: PixelCoordinateConvention::OpenCvPixelCenters,
                    acquisition_key,
                    digest: hash_of(
                        binding_frame(
                            reference_image_size,
                            None,
                            acquisition_key@,
                            initial_intrinsics.camera_matrix@,
                            initial_intrinsics.distortion_coefficients@,
                        ),
                    ),
                };
                match binding.fault() {
                    None => r == Ok::<InitialIntrinsicsBinding, CalibrationSessionError>(binding),
                    Some(e) => r == Err::<InitialIntrinsicsBinding, CalibrationSessionError>(e),
                }
            }),
    {
        match initial_intrinsics.validate() {
            Err(e) => {
                return Err(CalibrationSessionError::InvalidData(e));
            },
            Ok(()) => {},
        }
        match acquisition_key.check() {
            Some(m) => {
                return Err(
                    CalibrationSessionError::InvalidInitialIntrinsicsBinding(
                        IntrinsicsBindingFault::Acquisition(m),
                    ),
                );
            },
            None => {},
        }
        let digest: SnapshotHash = binding_digest(
            &initial_intrinsics,
            reference_image_size,
            None,
            &acquisition_key,
        );
        Ok(
            InitialIntrinsicsBinding {
                initial_intrinsics,
                reference_image_size,
                orientation: CalibrationImageOrientation::Upright,
                crop: None,
                pixel_convention: PixelCoordinateConvention::OpenCvPixelCenters,
                acquisition_key,
                digest,
            },
        )
    }

    /// Binds parameters to dataset images of a size, whatever source they came from.
    pub fn dataset_full_frame(
        initial_intrinsics: InitialIntrinsics,
        reference_image_size: CalibrationImageSize,
    ) -> (r: Result<InitialIntrinsicsBinding, CalibrationSessionError>)
        ensures
            match r {
                Ok(binding) => {
                    &&& initial_intrinsics.usable()
                    &&& binding.initial_intrinsics == initial_intrinsics
                    &&& binding.reference_image_size == reference_image_size
                    &&& binding.crop is None
                    &&& binding.acquisition_key@ == dataset_key(reference_image_size)
                    &&& binding.digest == dataset_digest(initial_intrinsics, reference_image_size)
                    &&& binding.fault() is None
                },
                Err(e) => !initial_intrinsics.usable() && e
                    == CalibrationSessionError::InvalidData(CalibrationDataError::Intrinsics),
            },
    {
        let key: AutoCaptureAcquisitionKey = dataset_acquisition_key(reference_image_size);
        proof {
            lemma_dataset_key_usable(reference_image_size);
        }
        InitialIntrinsicsBinding::full_frame(initial_intrinsics, reference_image_size, key)
    }

    pub fn validate(&self) -> (r: Result<(), CalibrationSessionError>)
        ensures
            r == (match self.fault() {
                None => Ok::<(), CalibrationSessionError>(()),
                Some(e) => Err(e),
            }),
    {
        match self.initial_intrinsics.validate() {
            Err(e) => {
                return Err(CalibrationSessionError::InvalidData(e));
            },
            Ok(()) => {},
        }
        match self.acquisition_key.check() {
            Some(m) => {
                return Err(
                    CalibrationSessionError::InvalidInitialIntrinsicsBinding(
                        IntrinsicsBindingFault::Acquisition(m),
                    ),
                );
            },
            None => {},
        }
        if self.compute_digest() != self.digest {
            return Err(
                CalibrationSessionError::InvalidInitialIntrinsicsBinding(
                    IntrinsicsBindingFault::Digest,
                ),
            );
        }
        Ok(())
    }

    /// The digest that the fields call for.
    pub fn compute_digest(&self) -> (r: SnapshotHash)
        ensures
            r == self.digest_of_fields(),
    {
        binding_digest(
            &self.initial_intrinsics,
            self.reference_image_size,
            self.crop,
            &self.acquisition_key,
        )
    }

    /// Equality of two bindings, reals compared as numbers.
    pub open spec fn same(self, other: InitialIntrinsicsBinding) -> bool {
        &&& same_reals(
            self.initial_intrinsics.camera_matrix@,
            other.initial_intrinsics.camera_matrix@,
        )
        &&& same_reals(
            self.initial_intrinsics.distortion_coefficients@,
            other.initial_intrinsics.distortion_coefficients@,
        )
        &&& self.reference_image_size == other.reference_image_size
        &&& self.orientation == other.orientation
        &&& self.crop == other.crop
        &&& self.pixel_convention == other.pixel_convention
        &&& self.acquisition_key@ == other.acquisition_key@
        &&& self.digest == other.digest
    }

    pub fn eq_value(&self, other: &InitialIntrinsicsBinding) -> (r: bool)
        ensures
            r == self.same(*other),
    {
        eq_reals(
            self.initial_intrinsics.camera_matrix.as_slice(),
            other.initial_intrinsics.camera_matrix.as_slice(),
        ) && eq_reals(
            self.initial_intrinsics.distortion_coefficients.as_slice(),
            other.initial_intrinsics.distortion_coefficients.as_slice(),
        ) && self.reference_image_size == other.reference_image_size && self.orientation
            == other.orientation && (match (self.crop, other.crop) {
            (Some(a), Some(b)) => a == b,
            (None, None) => true,
            _ => false,
        }) && self.pixel_convention == other.pixel_convention && self.acquisition_key.eq_value(
            &other.acquisition_key,
        ) && self.digest == other.digest
    }
}

/// Whether two sequences hold the same numbers.
pub open spec fn same_reals(a: Seq<Real64>, b: Seq<Real64>) -> bool {
    a.len() == b.len() && forall|i: int| 0 <= i < a.len() ==> (#[trigger] a[i]).same(b[i])
}

/// Whether two sequences hold the same numbers.
fn eq_reals(a: &[Real64], b: &[Real64]) -> (r: bool)
    ensures
        r == same_reals(a@, b@),
{
    if a.len() != b.len() {
        return false;
    }
    let mut i: usize = 0;
    while i < a.len()
        invariant
            i <= a@.len() == b@.len(),
            forall|j: int| 0 <= j < i ==> (#[trigger] a@[j]).same(b@[j]),
        decreases a@.len() - i,
    {
        if !a[i].eq_value(b[i]) {
            return false;
        }
        i = i + 1;
    }
    true
}

/// The gates and targets of dataset acceptance.
#[derive(Clone, Copy, Debug, PartialEq, Eq, Structural)]
pub struct AutoCaptureAcceptanceCriteria {
    pub field_columns: usize,
    pub field_rows: usize,
    /// Corners that each field cell has to collect.
    pub field_target_per_cell: usize,
    pub min_adjacent_spacing_px: Real32,
    pub pnp_depth_min: Real64,
    pub pnp_depth_max: Real64,
    pub pnp_depth_bins: usize,
    /// Corner depths that each depth bin has to collect.
    pub depth_target_per_bin: usize,
    pub pnp_tilt_deadband_deg: Real64,
    pub pnp_tilt_max_deg: Real64,
    pub pnp_tilt_bins: usize,
    pub pnp_azimuth_sectors: usize,
    /// Views that each pose bin has to collect.
    pub pose_target_per_bin: usize,
    pub pnp_max_rmse_px: Real64,
    pub pnp_max_error_px: Real64,
    /// The smallest normalised gain with which a candidate is admitted.
    pub minimum_auto_gain: Real64,
}

/// The encoding of 1.
pub const ONE64: u64 = 0x3ff0_0000_0000_0000;

/// The encoding of 90.
pub const NINETY64: u64 = 0x4056_8000_0000_0000;

/// The number of pose bins: sectors times tilt bins, and one for the centre when there is a
/// dead band.
pub open spec fn pose_capacity(tilt_bins: usize, azimuth_sectors: usize, deadband: Real64) -> int {
    tilt_bins * azimuth_sectors + if (Real64 { bits: 0 }).below(deadband) {
        1int
    } else {
        0int
    }
}

/// The number of pose bins, unless it exceeds a machine word.
pub fn pose_bin_capacity_for_values(
    tilt_bins: usize,
    azimuth_sectors: usize,
    tilt_deadband_deg: Real64,
) -> (r: Option<usize>)
    ensures
        ({
            let n = pose_capacity(tilt_bins, azimuth_sectors, tilt_deadband_deg);
            if n <= usize::MAX {
                r is Some && r->Some_0 == n
            } else {
                r is None
            }
        }),
{
    let sectors: usize = match tilt_bins.checked_mul(azimuth_sectors) {
        Some(n) => n,
        None => {
            return None;
        },
    };
    if Real64::zero().lt(tilt_deadband_deg) {
        sectors.checked_add(1)
    } else {
        Some(sectors)
    }
}

impl AutoCaptureAcceptanceCriteria {
    /// The number of pose bins.
    pub open spec fn pose_bins(self) -> int {
        pose_capacity(self.pnp_tilt_bins, self.pnp_azimuth_sectors, self.pnp_tilt_deadband_deg)
    }

    /// The number of field cells.
    pub open spec fn cells(self) -> int {
        self.field_columns * self.field_rows
    }

    /// Whether the pose centre has a bin of its own.
    pub open spec fn has_center_bin(self) -> bool {
        (Real64 { bits: 0 }).below(self.pnp_tilt_deadband_deg)
    }

    /// What makes the criteria unusable, if anything does: the first failing check.
    pub open spec fn fault(self) -> Option<BaselineFault> {
        if self.field_columns == 0 || self.field_rows == 0 || self.field_columns > 32
            || self.field_rows > 32 || self.field_target_per_cell == 0 {
            Some(BaselineFault::FieldGrid)
        } else if self.cells() * self.field_target_per_cell > usize::MAX {
            Some(BaselineFault::FieldQuotaOverflow)
        } else if !self.min_adjacent_spacing_px.finite() || self.min_adjacent_spacing_px.key()
            <= 0 {
            Some(BaselineFault::AdjacentSpacing)
        } else if !self.pnp_depth_min.finite() || !self.pnp_depth_max.finite()
            || self.pnp_depth_min.key() <= 0 || self.pnp_depth_max.key() <= self.pnp_depth_min.key()
            || !(1 <= self.pnp_depth_bins <= 32) || self.depth_target_per_bin == 0 {
            Some(BaselineFault::DepthRange)
        } else if self.pnp_depth_bins * self.depth_target_per_bin > usize::MAX {
            Some(BaselineFault::DepthQuotaOverflow)
        } else if self.pose_bins() > usize::MAX {
            Some(BaselineFault::PoseCapacityOverflow)
        } else if !self.pnp_tilt_deadband_deg.finite() || !self.pnp_tilt_max_deg.finite()
            || self.pnp_tilt_deadband_deg.key() < 0 || self.pnp_tilt_max_deg.key()
            <= self.pnp_tilt_deadband_deg.key() || self.pnp_tilt_max_deg.key() >= NINETY64 || !(1
            <= self.pnp_tilt_bins <= 16) || !(1 <= self.pnp_azimuth_sectors <= 32)
            || self.pose_bins() == 0 || self.pose_target_per_bin == 0 {
            Some(BaselineFault::PoseBins)
        } else if self.pose_bins() * self.pose_target_per_bin > usize::MAX {
            Some(BaselineFault::PoseQuotaOverflow)
        } else if !self.pnp_max_rmse_px.finite() || !self.pnp_max_error_px.finite()
            || self.pnp_max_rmse_px.key() < 0 || self.pnp_max_error_px.key()
            < self.pnp_max_rmse_px.key() {
            Some(BaselineFault::ReprojectionGates)
        } else if !self.minimum_auto_gain.finite() || self.minimum_auto_gain.key() <= 0
            || self.minimum_auto_gain.key() > ONE64 {
            Some(BaselineFault::MinimumGain)
        } else {
            None
        }
    }

    /// Checks the criteria; the first failing check is reported.
    pub fn validate(&self) -> (r: Result<(), CalibrationSessionError>)
        ensures
            r == (match self.fault() {
                None => Ok::<(), CalibrationSessionError>(()),
                Some(f) => Err(CalibrationSessionError::InvalidAutoCaptureBaseline(f)),
            }),
    {
        if self.field_columns == 0 || self.field_rows == 0 || self.field_columns > 32
            || self.field_rows > 32 || self.field_target_per_cell == 0 {
            return Err(
                CalibrationSessionError::InvalidAutoCaptureBaseline(BaselineFault::FieldGrid),
            );
        }
        proof {
            assert(self.field_columns * self.field_rows <= 32 * 32) by (nonlinear_arith)
                requires
                    self.field_columns <= 32,
                    self.field_rows <= 32,
            ;
        }
        let regions: usize = self.field_columns * self.field_rows;
        if regions.checked_mul(self.field_target_per_cell).is_none() {
            return Err(
                CalibrationSessionError::InvalidAutoCaptureBaseline(
                    BaselineFault::FieldQuotaOverflow,
                ),
            );
        }
        if !self.min_adjacent_spacing_px.is_finite() || self.min_adjacent_spacing_px.le(
            Real32::zero(),
        ) {
            return Err(
                CalibrationSessionError::InvalidAutoCaptureBaseline(BaselineFault::AdjacentSpacing),
            );
        }
        if !self.pnp_depth_min.is_finite() || !self.pnp_depth_max.is_finite()
            || self.pnp_depth_min.le(Real64::zero()) || self.pnp_depth_max.le(self.pnp_depth_min)
            || self.pnp_depth_bins < 1 || self.pnp_depth_bins > 32 || self.depth_target_per_bin
            == 0 {
            return Err(
                CalibrationSessionError::InvalidAutoCaptureBaseline(BaselineFault::DepthRange),
            );
        }
        if self.pnp_depth_bins.checked_mul(self.depth_target_per_bin).is_none() {
            return Err(
                CalibrationSessionError::InvalidAutoCaptureBaseline(
                    BaselineFault::DepthQuotaOverflow,
                ),
            );
        }
        let pose_capacity: usize = match pose_bin_capacity_for_values(
            self.pnp_tilt_bins,
            self.pnp_azimuth_sectors,
            self.pnp_tilt_deadband_deg,
        ) {
            Some(n) => n,
            None => {
                return Err(
                    CalibrationSessionError::InvalidAutoCaptureBaseline(
                        BaselineFault::PoseCapacityOverflow,
                    ),
                );
            },
        };
        if !self.pnp_tilt_deadband_deg.is_finite() || !self.pnp_tilt_max_deg.is_finite()
            || self.pnp_tilt_deadband_deg.lt(Real64::zero()) || self.pnp_tilt_max_deg.le(
            self.pnp_tilt_deadband_deg,
        ) || Real64::from_bits(NINETY64).le(self.pnp_tilt_max_deg) || self.pnp_tilt_bins < 1
            || self.pnp_tilt_bins > 16 || self.pnp_azimuth_sectors < 1 || self.pnp_azimuth_sectors
            > 32 || pose_capacity == 0 || self.pose_target_per_bin == 0 {
            return Err(
                CalibrationSessionError::InvalidAutoCaptureBaseline(BaselineFault::PoseBins),
            );
        }
        if pose_capacity.checked_mul(self.pose_target_per_bin).is_none() {
            return Err(
                CalibrationSessionError::InvalidAutoCaptureBaseline(
                    BaselineFault::PoseQuotaOverflow,
                ),
            );
        }
        if !self.pnp_max_rmse_px.is_finite() || !self.pnp_max_error_px.is_finite()
            || self.pnp_max_rmse_px.lt(Real64::zero()) || self.pnp_max_error_px.lt(
            self.pnp_max_rmse_px,
        ) {
            return Err(
                CalibrationSessionError::InvalidAutoCaptureBaseline(
                    BaselineFault::ReprojectionGates,
                ),
            );
        }
        if !self.minimum_auto_gain.is_finite() || self.minimum_auto_gain.le(Real64::zero())
            || Real64::from_bits(ONE64).lt(self.minimum_auto_gain) {
            return Err(
                CalibrationSessionError::InvalidAutoCaptureBaseline(BaselineFault::MinimumGain),
            );
        }
        Ok(())
    }

    /// Equality of two sets of criteria, reals compared as numbers.
    pub open spec fn same(self, other: AutoCaptureAcceptanceCriteria) -> bool {
        &&& self.field_columns == other.field_columns
        &&& self.field_rows == other.field_rows
        &&& self.field_target_per_cell == other.field_target_per_cell
        &&& self.min_adjacent_spacing_px.same(other.min_adjacent_spacing_px)
        &&& self.pnp_depth_min.same(other.pnp_depth_min)
        &&& self.pnp_depth_max.same(other.pnp_depth_max)
        &&& self.pnp_depth_bins == other.pnp_depth_bins
        &&& self.depth_target_per_bin == other.depth_target_per_bin
        &&& self.pnp_tilt_deadband_deg.same(other.pnp_tilt_deadband_deg)
        &&& self.pnp_tilt_max_deg.same(other.pnp_tilt_max_deg)
        &&& self.pnp_tilt_bins == other.pnp_tilt_bins
        &&& self.pnp_azimuth_sectors == other.pnp_azimuth_sectors
        &&& self.pose_target_per_bin == other.pose_target_per_bin
        &&& self.pnp_max_rmse_px.same(other.pnp_max_rmse_px)
        &&& self.pnp_max_error_px.same(other.pnp_max_error_px)
        &&& self.minimum_auto_gain.same(other.minimum_auto_gain)
    }

    pub fn eq_value(&self, other: &AutoCaptureAcceptanceCriteria) -> (r: bool)
        ensures
            r == self.same(*other),
    {
        self.field_columns == other.field_columns && self.field_rows == other.field_rows
            && self.field_target_per_cell == other.field_target_per_cell
            && self.min_adjacent_spacing_px.eq_value(other.min_adjacent_spacing_px)
            && self.pnp_depth_min.eq_value(other.pnp_depth_min) && self.pnp_depth_max.eq_value(
            other.pnp_depth_max,
        ) && self.pnp_depth_bins == other.pnp_depth_bins && self.depth_target_per_bin
            == other.depth_target_per_bin && self.pnp_tilt_deadband_deg.eq_value(
            other.pnp_tilt_deadband_deg,
        ) && self.pnp_tilt_max_deg.eq_value(other.pnp_tilt_max_deg) && self.pnp_tilt_bins
            == other.pnp_tilt_bins && self.pnp_azimuth_sectors == other.pnp_azimuth_sectors
            && self.pose_target_per_bin == other.pose_target_per_bin
            && self.pnp_max_rmse_px.eq_value(other.pnp_max_rmse_px)
            && self.pnp_max_error_px.eq_value(other.pnp_max_error_px)
            && self.minimum_auto_gain.eq_value(other.minimum_auto_gain)
    }
}

/// The immutable source, geometry, board and criteria that candidates are admitted under.
#[derive(Debug)]
pub struct AutoCaptureBaseline {
    pub acquisition_key: AutoCaptureAcquisitionKey,
    pub image_size: CalibrationImageSize,
    pub board: BoardSpec,
    pub criteria: AutoCaptureAcceptanceCriteria,
    pub digest: SnapshotHash,
}

/// The message that the digest of a baseline is taken of.
pub open spec fn baseline_frame(
    key: AcquisitionKeyView,
    size: CalibrationImageSize,
    board: BoardSpec,
    c: AutoCaptureAcceptanceCriteria,
) -> Seq<u8> {
    string_field("camera-toolbox/runtime-auto-capture-baseline/v4"@) + string_field(
        AUTO_CAPTURE_DETECTOR_FINGERPRINT@,
    ) + bytes_field(seq![0u8, 0, 192, 1]) + string_field(AUTO_CAPTURE_FEATURE_SCHEMA_VERSION@)
        + string_field(key.source_fingerprint) + be_bytes(key.channel as nat, 2) + string_field(
        key.geometry_key,
    ) + be_bytes(size.width as nat, 4) + be_bytes(size.height as nat, 4) + be_bytes(
        board.inner_cols as nat,
        2,
    ) + be_bytes(board.inner_rows as nat, 2) + real_field(board.square_size) + be_bytes(
        c.field_columns as nat,
        8,
    ) + be_bytes(c.field_rows as nat, 8) + be_bytes(c.field_target_per_cell as nat, 8) + be_bytes(
        c.min_adjacent_spacing_px.bits as nat,
        4,
    ) + real_field(c.pnp_depth_min) + real_field(c.pnp_depth_max) + be_bytes(
        c.pnp_depth_bins as nat,
        8,
    ) + be_bytes(c.depth_target_per_bin as nat, 8) + real_field(c.pnp_tilt_deadband_deg)
        + real_field(c.pnp_tilt_max_deg) + be_bytes(c.pnp_tilt_bins as nat, 8) + be_bytes(
        c.pnp_azimuth_sectors as nat,
        8,
    ) + be_bytes(c.pose_target_per_bin as nat, 8) + real_field(c.pnp_max_rmse_px) + real_field(
        c.pnp_max_error_px,
    ) + real_field(c.minimum_auto_gain)
}

/// The digest of the fields of a baseline.
fn baseline_digest(
    key: &AutoCaptureAcquisitionKey,
    size: CalibrationImageSize,
    board: BoardSpec,
    c: &AutoCaptureAcceptanceCriteria,
) -> (r: SnapshotHash)
    ensures
        r == hash_of(baseline_frame(key@, size, board, *c)),
{
    let mut frame: HashFrame = SnapshotHash::builder(
        "camera-toolbox/runtime-auto-capture-baseline/v4",
    );
    frame.string(AUTO_CAPTURE_DETECTOR_FINGERPRINT);
    let flags: [u8; 4] = [
        (PANGBOT_CALIBRATION_FLAGS / 0x100_0000) as u8,
        (PANGBOT_CALIBRATION_FLAGS / 0x1_0000 % 256) as u8,
        (PANGBOT_CALIBRATION_FLAGS / 256 % 256) as u8,
        (PANGBOT_CALIBRATION_FLAGS % 256) as u8,
    ];
    proof {
        assert(flags@ =~= seq![0u8, 0, 192, 1]);
    }
    frame.bytes(flags.as_slice());
    frame.string(AUTO_CAPTURE_FEATURE_SCHEMA_VERSION);
    frame.string(key.source_fingerprint.as_str());
    frame.u16(key.channel);
    frame.string(key.geometry_key.as_str());
    frame.u32(size.width);
    frame.u32(size.height);
    frame.u16(board.inner_cols);
    frame.u16(board.inner_rows);
    frame_real(&mut frame, board.square_size);
    frame.u64(c.field_columns as u64);
    frame.u64(c.field_rows as u64);
    frame.u64(c.field_target_per_cell as u64);
    frame.u32(c.min_adjacent_spacing_px.bits);
    frame_real(&mut frame, c.pnp_depth_min);
    frame_real(&mut frame, c.pnp_depth_max);
    frame.u64(c.pnp_depth_bins as u64);
    frame.u64(c.depth_target_per_bin as u64);
    frame_real(&mut frame, c.pnp_tilt_deadband_deg);
    frame_real(&mut frame, c.pnp_tilt_max_deg);
    frame.u64(c.pnp_tilt_bins as u64);
    frame.u64(c.pnp_azimuth_sectors as u64);
    frame.u64(c.pose_target_per_bin as u64);
    frame_real(&mut frame, c.pnp_max_rmse_px);
    frame_real(&mut frame, c.pnp_max_error_px);
    frame_real(&mut frame, c.minimum_auto_gain);
    frame.finish()
}

impl AutoCaptureBaseline {
    /// The digest that the fields call for.
    pub open spec fn digest_of_fields(self) -> SnapshotHash {
        hash_of(baseline_frame(self.acquisition_key@, self.image_size, self.board, self.criteria))
    }

    /// What makes the baseline unusable, if anything does.
    pub open spec fn fault(self) -> Option<CalibrationSessionError> {
        match self.board.fault() {
            Some(e) => Some(CalibrationSessionError::InvalidData(e)),
            None => match self.acquisition_key@.fault() {
                Some(m) => Some(
                    CalibrationSessionError::InvalidAutoCaptureBaseline(
                        BaselineFault::Acquisition(m),
                    ),
                ),
                None => match self.criteria.fault() {
                    Some(f) => Some(CalibrationSessionError::InvalidAutoCaptureBaseline(f)),
                    None => if self.digest_of_fields() != self.digest {
                        Some(
                            CalibrationSessionError::InvalidAutoCaptureBaseline(
                                BaselineFault::Digest,
                            ),
                        )
                    } else {
                        None
                    },
                },
            },
        }
    }

    pub fn new(
        acquisition_key: AutoCaptureAcquisitionKey,
        image_size: CalibrationImageSize,
        board: BoardSpec,
        criteria: AutoCaptureAcceptanceCriteria,
    ) -> (r: Result<AutoCaptureBaseline, CalibrationSessionError>)
        ensures
            ({
                let baseline = AutoCaptureBaseline {
                    acquisition_key,
                    image_size,
                    board,
                    criteria,
                    digest: hash_of(
                        baseline_frame(acquisition_key@, image_size, board, criteria),
                    ),
                };
                match baseline.fault() {
                    None => r == Ok::<AutoCaptureBaseline, CalibrationSessionError>(baseline),
                    Some(e) => r == Err::<AutoCaptureBaseline, CalibrationSessionError>(e),
                }
            }),
    {
        let digest: SnapshotHash = baseline_digest(&acquisition_key, image_size, board, &criteria);
        let baseline: AutoCaptureBaseline = AutoCaptureBaseline {
            acquisition_key,
            image_size,
            board,
            criteria,
            digest,
        };
        match baseline.validate() {
            Ok(()) => Ok(baseline),
            Err(e) => Err(e),
        }
    }

    pub fn validate(&self) -> (r: Result<(), CalibrationSessionError>)
        ensures
            r == (match self.fault() {
                None => Ok::<(), CalibrationSessionError>(()),
                Some(e) => Err(e),
            }),
    {
        match self.board.validate() {
            Err(e) => {
                return Err(CalibrationSessionError::InvalidData(e));
            },
            Ok(()) => {},
        }
        match self.acquisition_key.check() {
            Some(m) => {
                return Err(
                    CalibrationSessionError::InvalidAutoCaptureBaseline(
                        BaselineFault::Acquisition(m),
                    ),
                );
            },
            None => {},
        }
        match self.criteria.validate() {
            Err(e) => {
                return Err(e);
            },
            Ok(()) => {},
        }
        if self.compute_digest() != self.digest {
            return Err(
                CalibrationSessionError::InvalidAutoCaptureBaseline(BaselineFault::Digest),
            );
        }
        Ok(())
    }

    /// The digest that the fields call for.
    pub fn compute_digest(&self) -> (r: SnapshotHash)
        ensures
            r == self.digest_of_fields(),
    {
        baseline_digest(&self.acquisition_key, self.image_size, self.board, &self.criteria)
    }

    /// Equality of two baselines, reals compared as numbers.
    pub open spec fn same(self, other: AutoCaptureBaseline) -> bool {
        &&& self.acquisition_key@ == other.acquisition_key@
        &&& self.image_size == other.image_size
        &&& self.board.same(other.board)
        &&& self.criteria.same(other.criteria)
        &&& self.digest == other.digest
    }

    pub fn eq_value(&self, other: &AutoCaptureBaseline) -> (r: bool)
        ensures
            r == self.same(*other),
    {
        self.acquisition_key.eq_value(&other.acquisition_key) && self.image_size == other.image_size
            && self.board.eq_value(&other.board) && self.criteria.eq_value(&other.criteria)
            && self.digest == other.digest
    }
}

/// What forbids admission under a baseline and a binding on a board, if anything does.
pub open spec fn admission_fault(
    baseline: AutoCaptureBaseline,
    binding: InitialIntrinsicsBinding,
    board: BoardSpec,
) -> Option<CalibrationSessionError> {
    match baseline.fault() {
        Some(e) => Some(e),
        None => match binding.fault() {
            Some(e) => Some(e),
            None => if !baseline.board.same(board) {
                Some(
                    CalibrationSessionError::RejectAutoAdmissionBindingMismatch(
                        BindingMismatch::Board,
                    ),
                )
            } else if baseline.image_size != binding.reference_image_size {
                Some(
                    CalibrationSessionError::RejectAutoAdmissionBindingMismatch(
                        BindingMismatch::ReferenceImageSize,
                    ),
                )
            } else if baseline.acquisition_key@ != binding.acquisition_key@ {
                Some(
                    CalibrationSessionError::RejectAutoAdmissionBindingMismatch(
                        BindingMismatch::AcquisitionSource,
                    ),
                )
            } else {
                None
            },
        },
    }
}

/// The baseline and the binding that a candidate is judged by.
#[derive(Debug)]
pub struct AutoCandidateAdmission<'a> {
    pub baseline: &'a AutoCaptureBaseline,
    pub initial_intrinsics_binding: &'a InitialIntrinsicsBinding,
}

impl<'a> AutoCandidateAdmission<'a> {
    /// Checks that both parts are usable.
    pub fn validate(&self) -> (r: Result<(), CalibrationSessionError>)
        ensures
            r == (match self.baseline.fault() {
                Some(e) => Err::<(), CalibrationSessionError>(e),
                None => match self.initial_intrinsics_binding.fault() {
                    Some(e) => Err(e),
                    None => Ok(()),
                },
            }),
    {
        match self.baseline.validate() {
            Err(e) => Err(e),
            Ok(()) => self.initial_intrinsics_binding.validate(),
        }
    }
}

/// Checks that a baseline and a binding are usable, and agree with each other and with a board.
pub fn check_admission(
    baseline: &AutoCaptureBaseline,
    binding: &InitialIntrinsicsBinding,
    board: BoardSpec,
) -> (r: Result<(), CalibrationSessionError>)
    ensures
        r == (match admission_fault(*baseline, *binding, board) {
            None => Ok::<(), CalibrationSessionError>(()),
            Some(e) => Err(e),
        }),
{
    let admission: AutoCandidateAdmission = AutoCandidateAdmission {
        baseline,
        initial_intrinsics_binding: binding,
    };
    match admission.validate() {
        Err(e) => {
            return Err(e);
        },
        Ok(()) => {},
    }
    if !baseline.board.eq_value(&board) {
        return Err(
            CalibrationSessionError::RejectAutoAdmissionBindingMismatch(BindingMismatch::Board),
        );
    }
    if baseline.image_size != binding.reference_image_size {
        return Err(
            CalibrationSessionError::RejectAutoAdmissionBindingMismatch(
                BindingMismatch::ReferenceImageSize,
            ),
        );
    }
    if !baseline.acquisition_key.eq_value(&binding.acquisition_key) {
        return Err(
            CalibrationSessionError::RejectAutoAdmissionBindingMismatch(
                BindingMismatch::AcquisitionSource,
            ),
        );
    }
    Ok(())
}

} // verus!
