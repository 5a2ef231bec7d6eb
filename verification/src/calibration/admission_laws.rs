//! Laws of automatic admission and of inputs: which criteria, keys, baselines and bindings are
//! usable, that a digest covers every part of what it seals, and when a file may be read.
use crate::calibration::admission::{
    admission_fault, baseline_frame, binding_frame, crop_frame, real_field, reals_frame,
    AcquisitionKeyView, AutoCaptureAcceptanceCriteria, AutoCaptureBaseline, CalibrationImageCrop,
    InitialIntrinsicsBinding, AUTO_CAPTURE_DETECTOR_FINGERPRINT,
    AUTO_CAPTURE_FEATURE_SCHEMA_VERSION,
};
use crate::calibration::error::{BaselineFault, CalibrationInputError};
use crate::calibration::input::{png_dimensions, read_refusal, CalibrationInputKey, StreamCaptureId};
use crate::digest::{be_bytes, be_value, bytes_field, hash_of, string_field};
use crate::ieee::Real64;
use crate::model::{BoardSpec, CalibrationImageSize};
use crate::source::FileVersion;
use crate::text::blank;
use crate::value_laws::{law_four_bytes_read_as_one_number, law_written_numbers_are_read_back};
use vstd::arithmetic::power2::pow2;
use vstd::prelude::*;

verus! {

/// Criteria are usable exactly where the field has between one and 32 columns and rows, the depths
/// lie in order above zero in one to 32 bins, the tilts lie in order from zero up and under ninety
/// degrees in one to 16 bins and one to 32 sectors, every target is positive and every quota can be
/// counted, the errors lie in order from zero up, and the least gain is above zero and at most one.
pub proof fn law_usable_criteria_are_in_order(c: AutoCaptureAcceptanceCriteria)
    ensures
        c.fault() is None <==> {
            let zero = Real64 { bits: 0 };
            let center = if zero.below(c.pnp_tilt_deadband_deg) {
                1int
            } else {
                0int
            };
            let poses = c.pnp_tilt_bins * c.pnp_azimuth_sectors + center;
            &&& 1 <= c.field_columns <= 32 && 1 <= c.field_rows <= 32
            &&& c.field_target_per_cell > 0
            &&& (c.field_columns * c.field_rows) * c.field_target_per_cell <= usize::MAX
            &&& c.min_adjacent_spacing_px.finite()
            &&& (crate::ieee::Real32 { bits: 0 }).below(c.min_adjacent_spacing_px)
            &&& c.pnp_depth_min.finite() && c.pnp_depth_max.finite()
            &&& zero.below(c.pnp_depth_min) && c.pnp_depth_min.below(c.pnp_depth_max)
            &&& 1 <= c.pnp_depth_bins <= 32 && c.depth_target_per_bin > 0
            &&& c.pnp_depth_bins * c.depth_target_per_bin <= usize::MAX
            &&& c.pnp_tilt_deadband_deg.finite() && c.pnp_tilt_max_deg.finite()
            &&& zero.at_most(c.pnp_tilt_deadband_deg) && c.pnp_tilt_deadband_deg.below(
                c.pnp_tilt_max_deg,
            )
            &&& c.pnp_tilt_max_deg.below(Real64 { bits: 0x4056_8000_0000_0000 })
            &&& 1 <= c.pnp_tilt_bins <= 16 && 1 <= c.pnp_azimuth_sectors <= 32
            &&& c.pose_target_per_bin > 0
            &&& poses * c.pose_target_per_bin <= usize::MAX
            &&& c.pnp_max_rmse_px.finite() && c.pnp_max_error_px.finite()
            &&& zero.at_most(c.pnp_max_rmse_px) && c.pnp_max_rmse_px.at_most(c.pnp_max_error_px)
            &&& c.minimum_auto_gain.finite() && zero.below(c.minimum_auto_gain)
            &&& c.minimum_auto_gain.at_most(Real64 { bits: 0x3ff0_0000_0000_0000 })
        },
{
    let poses = c.pose_bins();
    if 1 <= c.pnp_tilt_bins <= 16 && 1 <= c.pnp_azimuth_sectors <= 32 {
        let tilts = c.pnp_tilt_bins as int;
        let sectors = c.pnp_azimuth_sectors as int;
        assert(1 <= tilts * sectors <= 512) by (nonlinear_arith)
            requires
                1 <= tilts <= 16,
                1 <= sectors <= 32,
        ;
    }
}

/// Two sets of criteria are the same exactly where no part of them differs.
pub proof fn law_criteria_agree_in_every_part(
    a: AutoCaptureAcceptanceCriteria,
    b: AutoCaptureAcceptanceCriteria,
)
    requires
        a.fault() is None,
    ensures
        a == b ==> a.same(b),
        a.same(b) ==> {
            &&& a.field_columns == b.field_columns && a.field_rows == b.field_rows
            &&& a.field_target_per_cell == b.field_target_per_cell
            &&& a.pnp_depth_bins == b.pnp_depth_bins
            &&& a.depth_target_per_bin == b.depth_target_per_bin
            &&& a.pnp_tilt_bins == b.pnp_tilt_bins
            &&& a.pnp_azimuth_sectors == b.pnp_azimuth_sectors
            &&& a.pose_target_per_bin == b.pose_target_per_bin
            &&& a.min_adjacent_spacing_px == b.min_adjacent_spacing_px
            &&& a.pnp_depth_min == b.pnp_depth_min && a.pnp_depth_max == b.pnp_depth_max
            &&& a.pnp_tilt_max_deg == b.pnp_tilt_max_deg
            &&& a.minimum_auto_gain == b.minimum_auto_gain
            &&& a.pnp_tilt_deadband_deg.at_most(b.pnp_tilt_deadband_deg)
                && b.pnp_tilt_deadband_deg.at_most(a.pnp_tilt_deadband_deg)
            &&& a.pnp_max_rmse_px.at_most(b.pnp_max_rmse_px) && b.pnp_max_rmse_px.at_most(
                a.pnp_max_rmse_px,
            )
            &&& a.pnp_max_error_px.at_most(b.pnp_max_error_px) && b.pnp_max_error_px.at_most(
                a.pnp_max_error_px,
            )
        },
{
}

/// A key names a source and a geometry.
pub proof fn law_keys_name_source_and_geometry(key: AcquisitionKeyView)
    ensures
        key.fault() is None <==> !blank(key.source_fingerprint) && !blank(key.geometry_key),
{
}

/// A baseline is usable exactly where its board, its key and its criteria are and it bears the
/// digest of what it holds; a binding exactly where its estimate and its key are and it bears the
/// digest of what it holds.
pub proof fn law_usable_evidence_bears_its_digest(
    baseline: AutoCaptureBaseline,
    binding: InitialIntrinsicsBinding,
)
    ensures
        baseline.fault() is None <==> baseline.board.fault() is None
            && baseline.acquisition_key@.fault() is None && baseline.criteria.fault() is None
            && baseline.digest == hash_of(
            baseline_frame(
                baseline.acquisition_key@,
                baseline.image_size,
                baseline.board,
                baseline.criteria,
            ),
        ),
        binding.fault() is None <==> binding.initial_intrinsics.usable()
            && binding.acquisition_key@.fault() is None && binding.digest == hash_of(
            binding_frame(
                binding.reference_image_size,
                binding.crop,
                binding.acquisition_key@,
                binding.initial_intrinsics.camera_matrix@,
                binding.initial_intrinsics.distortion_coefficients@,
            ),
        ),
        baseline.board.fault() is None && baseline.acquisition_key@.fault() is None
            && baseline.criteria.fault() is None && baseline.digest != baseline.digest_of_fields()
            ==> (baseline.fault() matches Some(
            crate::calibration::error::CalibrationSessionError::InvalidAutoCaptureBaseline(f),
        ) && f == BaselineFault::Digest),
{
}

/// A baseline and a binding admit captures of a board exactly where both are usable and they agree
/// with each other and with the board: in the board, in the image size and in the whole key.
pub proof fn law_admitting_evidence_agrees(
    baseline: AutoCaptureBaseline,
    binding: InitialIntrinsicsBinding,
    board: BoardSpec,
)
    ensures
        admission_fault(baseline, binding, board) is None <==> {
            &&& baseline.fault() is None && binding.fault() is None
            &&& baseline.board.same(board)
            &&& baseline.image_size.width == binding.reference_image_size.width
            &&& baseline.image_size.height == binding.reference_image_size.height
            &&& baseline.acquisition_key.source_fingerprint@
                == binding.acquisition_key.source_fingerprint@
            &&& baseline.acquisition_key.channel == binding.acquisition_key.channel
            &&& baseline.acquisition_key.geometry_key@ == binding.acquisition_key.geometry_key@
        },
{
}

proof fn lemma_tail(a: Seq<u8>, b: Seq<u8>, c: Seq<u8>, d: Seq<u8>)
    requires
        a + b == c + d,
        b.len() == d.len(),
    ensures
        a == c,
        b == d,
{
    assert((a + b).len() == (c + d).len());
    assert(a =~= (a + b).take(a.len() as int));
    assert(c =~= (c + d).take(c.len() as int));
    assert(b =~= (a + b).skip(a.len() as int));
    assert(d =~= (c + d).skip(c.len() as int));
}

proof fn lemma_head(a: Seq<u8>, b: Seq<u8>, c: Seq<u8>, d: Seq<u8>)
    requires
        a + b == c + d,
        a.len() == c.len(),
    ensures
        a == c,
        b == d,
{
    assert((a + b).len() == a.len() + b.len());
    assert((c + d).len() == c.len() + d.len());
    lemma_tail(a, b, c, d);
}

proof fn lemma_grouped(a: Seq<u8>, b: Seq<u8>, c: Seq<u8>)
    ensures
        (a + b) + c == a + (b + c),
{
    assert((a + b) + c =~= a + (b + c));
}

proof fn lemma_length(n: nat, k: nat)
    ensures
        be_bytes(n, k).len() == k,
    decreases k,
{
    if k > 0 {
        lemma_length(n / 256, (k - 1) as nat);
    }
}

proof fn lemma_number(a: nat, b: nat, k: nat)
    requires
        a < pow2(8 * k),
        b < pow2(8 * k),
        be_bytes(a, k) == be_bytes(b, k),
    ensures
        a == b,
{
    law_written_numbers_are_read_back(a, k);
    law_written_numbers_are_read_back(b, k);
}

proof fn lemma_words()
    ensures
        pow2(8 * 2) == 0x1_0000,
        pow2(8 * 4) == 0x1_0000_0000,
        pow2(8 * 8) == 0x1_0000_0000_0000_0000,
{
    vstd::arithmetic::power2::lemma2_to64();
    vstd::arithmetic::power2::lemma2_to64_rest();
}

proof fn lemma_real(a: Real64, b: Real64)
    ensures
        real_field(a).len() == 16,
        real_field(a) == real_field(b) ==> a == b,
{
    lemma_words();
    lemma_length(a.bits as nat, 8);
    lemma_length(b.bits as nat, 8);
    lemma_length(8, 8);
    if real_field(a) == real_field(b) {
        lemma_head(
            be_bytes(8, 8),
            be_bytes(a.bits as nat, 8),
            be_bytes(8, 8),
            be_bytes(b.bits as nat, 8),
        );
        lemma_number(a.bits as nat, b.bits as nat, 8);
    }
}

proof fn lemma_reals(a: Seq<Real64>, b: Seq<Real64>)
    requires
        a.len() == b.len(),
    ensures
        reals_frame(a).len() == 16 * a.len(),
        reals_frame(a) == reals_frame(b) ==> a == b,
    decreases a.len(),
{
    if a.len() > 0 {
        lemma_reals(a.drop_last(), b.drop_last());
        lemma_reals(b.drop_last(), a.drop_last());
        lemma_real(a.last(), b.last());
        lemma_real(b.last(), a.last());
        if reals_frame(a) == reals_frame(b) {
            lemma_tail(
                reals_frame(a.drop_last()),
                real_field(a.last()),
                reals_frame(b.drop_last()),
                real_field(b.last()),
            );
            assert(a =~= a.drop_last().push(a.last()));
            assert(b =~= b.drop_last().push(b.last()));
        }
    } else {
        assert(a =~= b);
    }
}

/// Whether a text has a length that a frame can state.
pub open spec fn framable(text: Seq<char>) -> bool {
    vstd::utf8::encode_utf8(text).len() <= u64::MAX
}

proof fn lemma_text(a: Seq<char>, x: Seq<u8>, b: Seq<char>, y: Seq<u8>)
    requires
        framable(a),
        framable(b),
        string_field(a) + x == string_field(b) + y,
    ensures
        a == b,
        x == y,
{
    lemma_words();
    let ea = vstd::utf8::encode_utf8(a);
    let eb = vstd::utf8::encode_utf8(b);
    lemma_length(ea.len(), 8);
    lemma_length(eb.len(), 8);
    lemma_grouped(be_bytes(ea.len(), 8), ea, x);
    lemma_grouped(be_bytes(eb.len(), 8), eb, y);
    lemma_head(be_bytes(ea.len(), 8), ea + x, be_bytes(eb.len(), 8), eb + y);
    lemma_number(ea.len(), eb.len(), 8);
    lemma_head(ea, x, eb, y);
    vstd::utf8::encode_utf8_decode_utf8(a);
    vstd::utf8::encode_utf8_decode_utf8(b);
}

/// A digest seals every part of a baseline: two baselines give one message only where they agree in
/// the whole key, the image size, the board and every criterion.
#[verifier::rlimit(60)]
pub proof fn law_baseline_message_holds_every_part(
    a_key: AcquisitionKeyView,
    a_size: CalibrationImageSize,
    a_board: BoardSpec,
    a: AutoCaptureAcceptanceCriteria,
    b_key: AcquisitionKeyView,
    b_size: CalibrationImageSize,
    b_board: BoardSpec,
    b: AutoCaptureAcceptanceCriteria,
)
    requires
        framable(a_key.source_fingerprint) && framable(a_key.geometry_key),
        framable(b_key.source_fingerprint) && framable(b_key.geometry_key),
        baseline_frame(a_key, a_size, a_board, a) == baseline_frame(b_key, b_size, b_board, b),
    ensures
        a_key == b_key,
        a_size == b_size,
        a_board == b_board,
        a == b,
{
    lemma_words();
    let fixed = string_field("camera-toolbox/runtime-auto-capture-baseline/v4"@)
        + string_field(AUTO_CAPTURE_DETECTOR_FINGERPRINT@) + bytes_field(seq![0u8, 0, 192, 1])
        + string_field(AUTO_CAPTURE_FEATURE_SCHEMA_VERSION@);
    let a_0 = fixed + string_field(a_key.source_fingerprint) + be_bytes(a_key.channel as nat, 2)
        + string_field(a_key.geometry_key);
    let a_1 = a_0 + be_bytes(a_size.width as nat, 4);
    let a_2 = a_1 + be_bytes(a_size.height as nat, 4);
    let a_3 = a_2 + be_bytes(a_board.inner_cols as nat, 2);
    let a_4 = a_3 + be_bytes(a_board.inner_rows as nat, 2);
    let a_5 = a_4 + real_field(a_board.square_size);
    let a_6 = a_5 + be_bytes(a.field_columns as nat, 8);
    let a_7 = a_6 + be_bytes(a.field_rows as nat, 8);
    let a_8 = a_7 + be_bytes(a.field_target_per_cell as nat, 8);
    let a_9 = a_8 + be_bytes(a.min_adjacent_spacing_px.bits as nat, 4);
    let a_10 = a_9 + real_field(a.pnp_depth_min);
    let a_11 = a_10 + real_field(a.pnp_depth_max);
    let a_12 = a_11 + be_bytes(a.pnp_depth_bins as nat, 8);
    let a_13 = a_12 + be_bytes(a.depth_target_per_bin as nat, 8);
    let a_14 = a_13 + real_field(a.pnp_tilt_deadband_deg);
    let a_15 = a_14 + real_field(a.pnp_tilt_max_deg);
    let a_16 = a_15 + be_bytes(a.pnp_tilt_bins as nat, 8);
    let a_17 = a_16 + be_bytes(a.pnp_azimuth_sectors as nat, 8);
    let a_18 = a_17 + be_bytes(a.pose_target_per_bin as nat, 8);
    let a_19 = a_18 + real_field(a.pnp_max_rmse_px);
    let a_20 = a_19 + real_field(a.pnp_max_error_px);
    let a_21 = a_20 + real_field(a.minimum_auto_gain);
    let b_0 = fixed + string_field(b_key.source_fingerprint) + be_bytes(b_key.channel as nat, 2)
        + string_field(b_key.geometry_key);
    let b_1 = b_0 + be_bytes(b_size.width as nat, 4);
    let b_2 = b_1 + be_bytes(b_size.height as nat, 4);
    let b_3 = b_2 + be_bytes(b_board.inner_cols as nat, 2);
    let b_4 = b_3 + be_bytes(b_board.inner_rows as nat, 2);
    let b_5 = b_4 + real_field(b_board.square_size);
    let b_6 = b_5 + be_bytes(b.field_columns as nat, 8);
    let b_7 = b_6 + be_bytes(b.field_rows as nat, 8);
    let b_8 = b_7 + be_bytes(b.field_target_per_cell as nat, 8);
    let b_9 = b_8 + be_bytes(b.min_adjacent_spacing_px.bits as nat, 4);
    let b_10 = b_9 + real_field(b.pnp_depth_min);
    let b_11 = b_10 + real_field(b.pnp_depth_max);
    let b_12 = b_11 + be_bytes(b.pnp_depth_bins as nat, 8);
    let b_13 = b_12 + be_bytes(b.depth_target_per_bin as nat, 8);
    let b_14 = b_13 + real_field(b.pnp_tilt_deadband_deg);
    let b_15 = b_14 + real_field(b.pnp_tilt_max_deg);
    let b_16 = b_15 + be_bytes(b.pnp_tilt_bins as nat, 8);
    let b_17 = b_16 + be_bytes(b.pnp_azimuth_sectors as nat, 8);
    let b_18 = b_17 + be_bytes(b.pose_target_per_bin as nat, 8);
    let b_19 = b_18 + real_field(b.pnp_max_rmse_px);
    let b_20 = b_19 + real_field(b.pnp_max_error_px);
    let b_21 = b_20 + real_field(b.minimum_auto_gain);
    lemma_real(a.minimum_auto_gain, b.minimum_auto_gain);
    lemma_real(b.minimum_auto_gain, a.minimum_auto_gain);
    lemma_tail(a_20, real_field(a.minimum_auto_gain), b_20, real_field(b.minimum_auto_gain));
    lemma_real(a.pnp_max_error_px, b.pnp_max_error_px);
    lemma_real(b.pnp_max_error_px, a.pnp_max_error_px);
    lemma_tail(a_19, real_field(a.pnp_max_error_px), b_19, real_field(b.pnp_max_error_px));
    lemma_real(a.pnp_max_rmse_px, b.pnp_max_rmse_px);
    lemma_real(b.pnp_max_rmse_px, a.pnp_max_rmse_px);
    lemma_tail(a_18, real_field(a.pnp_max_rmse_px), b_18, real_field(b.pnp_max_rmse_px));
    lemma_length(a.pose_target_per_bin as nat, 8);
    lemma_length(b.pose_target_per_bin as nat, 8);
    lemma_tail(
        a_17,
        be_bytes(a.pose_target_per_bin as nat, 8),
        b_17,
        be_bytes(b.pose_target_per_bin as nat, 8),
    );
    lemma_number(a.pose_target_per_bin as nat, b.pose_target_per_bin as nat, 8);
    lemma_length(a.pnp_azimuth_sectors as nat, 8);
    lemma_length(b.pnp_azimuth_sectors as nat, 8);
    lemma_tail(
        a_16,
        be_bytes(a.pnp_azimuth_sectors as nat, 8),
        b_16,
        be_bytes(b.pnp_azimuth_sectors as nat, 8),
    );
    lemma_number(a.pnp_azimuth_sectors as nat, b.pnp_azimuth_sectors as nat, 8);
    lemma_length(a.pnp_tilt_bins as nat, 8);
    lemma_length(b.pnp_tilt_bins as nat, 8);
    lemma_tail(
        a_15,
        be_bytes(a.pnp_tilt_bins as nat, 8),
        b_15,
        be_bytes(b.pnp_tilt_bins as nat, 8),
    );
    lemma_number(a.pnp_tilt_bins as nat, b.pnp_tilt_bins as nat, 8);
    lemma_real(a.pnp_tilt_max_deg, b.pnp_tilt_max_deg);
    lemma_real(b.pnp_tilt_max_deg, a.pnp_tilt_max_deg);
    lemma_tail(a_14, real_field(a.pnp_tilt_max_deg), b_14, real_field(b.pnp_tilt_max_deg));
    lemma_real(a.pnp_tilt_deadband_deg, b.pnp_tilt_deadband_deg);
    lemma_real(b.pnp_tilt_deadband_deg, a.pnp_tilt_deadband_deg);
    lemma_tail(
        a_13,
        real_field(a.pnp_tilt_deadband_deg),
        b_13,
        real_field(b.pnp_tilt_deadband_deg),
    );
    lemma_length(a.depth_target_per_bin as nat, 8);
    lemma_length(b.depth_target_per_bin as nat, 8);
    lemma_tail(
        a_12,
        be_bytes(a.depth_target_per_bin as nat, 8),
        b_12,
        be_bytes(b.depth_target_per_bin as nat, 8),
    );
    lemma_number(a.depth_target_per_bin as nat, b.depth_target_per_bin as nat, 8);
    lemma_length(a.pnp_depth_bins as nat, 8);
    lemma_length(b.pnp_depth_bins as nat, 8);
    lemma_tail(
        a_11,
        be_bytes(a.pnp_depth_bins as nat, 8),
        b_11,
        be_bytes(b.pnp_depth_bins as nat, 8),
    );
    lemma_number(a.pnp_depth_bins as nat, b.pnp_depth_bins as nat, 8);
    lemma_real(a.pnp_depth_max, b.pnp_depth_max);
    lemma_real(b.pnp_depth_max, a.pnp_depth_max);
    lemma_tail(a_10, real_field(a.pnp_depth_max), b_10, real_field(b.pnp_depth_max));
    lemma_real(a.pnp_depth_min, b.pnp_depth_min);
    lemma_real(b.pnp_depth_min, a.pnp_depth_min);
    lemma_tail(a_9, real_field(a.pnp_depth_min), b_9, real_field(b.pnp_depth_min));
    lemma_length(a.min_adjacent_spacing_px.bits as nat, 4);
    lemma_length(b.min_adjacent_spacing_px.bits as nat, 4);
    lemma_tail(
        a_8,
        be_bytes(a.min_adjacent_spacing_px.bits as nat, 4),
        b_8,
        be_bytes(b.min_adjacent_spacing_px.bits as nat, 4),
    );
    lemma_number(a.min_adjacent_spacing_px.bits as nat, b.min_adjacent_spacing_px.bits as nat, 4);
    lemma_length(a.field_target_per_cell as nat, 8);
    lemma_length(b.field_target_per_cell as nat, 8);
    lemma_tail(
        a_7,
        be_bytes(a.field_target_per_cell as nat, 8),
        b_7,
        be_bytes(b.field_target_per_cell as nat, 8),
    );
    lemma_number(a.field_target_per_cell as nat, b.field_target_per_cell as nat, 8);
    lemma_length(a.field_rows as nat, 8);
    lemma_length(b.field_rows as nat, 8);
    lemma_tail(a_6, be_bytes(a.field_rows as nat, 8), b_6, be_bytes(b.field_rows as nat, 8));
    lemma_number(a.field_rows as nat, b.field_rows as nat, 8);
    lemma_length(a.field_columns as nat, 8);
    lemma_length(b.field_columns as nat, 8);
    lemma_tail(a_5, be_bytes(a.field_columns as nat, 8), b_5, be_bytes(b.field_columns as nat, 8));
    lemma_number(a.field_columns as nat, b.field_columns as nat, 8);
    lemma_real(a_board.square_size, b_board.square_size);
    lemma_real(b_board.square_size, a_board.square_size);
    lemma_tail(a_4, real_field(a_board.square_size), b_4, real_field(b_board.square_size));
    lemma_length(a_board.inner_rows as nat, 2);
    lemma_length(b_board.inner_rows as nat, 2);
    lemma_tail(
        a_3,
        be_bytes(a_board.inner_rows as nat, 2),
        b_3,
        be_bytes(b_board.inner_rows as nat, 2),
    );
    lemma_number(a_board.inner_rows as nat, b_board.inner_rows as nat, 2);
    lemma_length(a_board.inner_cols as nat, 2);
    lemma_length(b_board.inner_cols as nat, 2);
    lemma_tail(
        a_2,
        be_bytes(a_board.inner_cols as nat, 2),
        b_2,
        be_bytes(b_board.inner_cols as nat, 2),
    );
    lemma_number(a_board.inner_cols as nat, b_board.inner_cols as nat, 2);
    lemma_length(a_size.height as nat, 4);
    lemma_length(b_size.height as nat, 4);
    lemma_tail(a_1, be_bytes(a_size.height as nat, 4), b_1, be_bytes(b_size.height as nat, 4));
    lemma_number(a_size.height as nat, b_size.height as nat, 4);
    lemma_length(a_size.width as nat, 4);
    lemma_length(b_size.width as nat, 4);
    lemma_tail(a_0, be_bytes(a_size.width as nat, 4), b_0, be_bytes(b_size.width as nat, 4));
    lemma_number(a_size.width as nat, b_size.width as nat, 4);
    let a_f = string_field(a_key.source_fingerprint);
    let a_c = be_bytes(a_key.channel as nat, 2);
    let a_g = string_field(a_key.geometry_key);
    lemma_length(a_key.channel as nat, 2);
    lemma_grouped(fixed + a_f, a_c, a_g);
    lemma_grouped(fixed, a_f, a_c + a_g);
    let b_f = string_field(b_key.source_fingerprint);
    let b_c = be_bytes(b_key.channel as nat, 2);
    let b_g = string_field(b_key.geometry_key);
    lemma_length(b_key.channel as nat, 2);
    lemma_grouped(fixed + b_f, b_c, b_g);
    lemma_grouped(fixed, b_f, b_c + b_g);
    lemma_head(fixed, a_f + (a_c + a_g), fixed, b_f + (b_c + b_g));
    lemma_text(a_key.source_fingerprint, a_c + a_g, b_key.source_fingerprint, b_c + b_g);
    lemma_head(a_c, a_g, b_c, b_g);
    lemma_number(a_key.channel as nat, b_key.channel as nat, 2);
    assert(a_g + Seq::<u8>::empty() =~= a_g);
    assert(b_g + Seq::<u8>::empty() =~= b_g);
    lemma_text(a_key.geometry_key, Seq::empty(), b_key.geometry_key, Seq::empty());
}

proof fn lemma_crop(
    a: Option<CalibrationImageCrop>,
    x: Seq<u8>,
    b: Option<CalibrationImageCrop>,
    y: Seq<u8>,
)
    requires
        crop_frame(a) + x == crop_frame(b) + y,
    ensures
        a == b,
        x == y,
{
    lemma_words();
    assert((crop_frame(a) + x)[0] == (if a is Some {
        1u8
    } else {
        0u8
    }));
    assert((crop_frame(b) + y)[0] == (if b is Some {
        1u8
    } else {
        0u8
    }));
    assert(a is Some == b is Some);
    if a is Some {
        let c = a->Some_0;
        let d = b->Some_0;
        lemma_length(c.x as nat, 4);
        lemma_length(d.x as nat, 4);
        lemma_length(c.y as nat, 4);
        lemma_length(d.y as nat, 4);
        lemma_length(c.width as nat, 4);
        lemma_length(d.width as nat, 4);
        lemma_length(c.height as nat, 4);
        lemma_length(d.height as nat, 4);
        lemma_head(crop_frame(a), x, crop_frame(b), y);
        let c_0 = seq![1u8];
        let c_1 = c_0 + be_bytes(c.x as nat, 4);
        let c_2 = c_1 + be_bytes(c.y as nat, 4);
        let c_3 = c_2 + be_bytes(c.width as nat, 4);
        let c_4 = c_3 + be_bytes(c.height as nat, 4);
        let d_0 = seq![1u8];
        let d_1 = d_0 + be_bytes(d.x as nat, 4);
        let d_2 = d_1 + be_bytes(d.y as nat, 4);
        let d_3 = d_2 + be_bytes(d.width as nat, 4);
        let d_4 = d_3 + be_bytes(d.height as nat, 4);
        lemma_tail(c_3, be_bytes(c.height as nat, 4), d_3, be_bytes(d.height as nat, 4));
        lemma_number(c.height as nat, d.height as nat, 4);
        lemma_tail(c_2, be_bytes(c.width as nat, 4), d_2, be_bytes(d.width as nat, 4));
        lemma_number(c.width as nat, d.width as nat, 4);
        lemma_tail(c_1, be_bytes(c.y as nat, 4), d_1, be_bytes(d.y as nat, 4));
        lemma_number(c.y as nat, d.y as nat, 4);
        lemma_tail(c_0, be_bytes(c.x as nat, 4), d_0, be_bytes(d.x as nat, 4));
        lemma_number(c.x as nat, d.x as nat, 4);
    } else {
        lemma_head(crop_frame(a), x, crop_frame(b), y);
    }
}

/// A digest seals every part of a binding: two bindings give one message only where they agree in
/// the reference size, the crop, the whole key, the camera matrix and the distortion.
#[verifier::rlimit(60)]
pub proof fn law_binding_message_holds_every_part(
    a_size: CalibrationImageSize,
    a_crop: Option<CalibrationImageCrop>,
    a_key: AcquisitionKeyView,
    a_matrix: Seq<Real64>,
    a_distortion: Seq<Real64>,
    b_size: CalibrationImageSize,
    b_crop: Option<CalibrationImageCrop>,
    b_key: AcquisitionKeyView,
    b_matrix: Seq<Real64>,
    b_distortion: Seq<Real64>,
)
    requires
        framable(a_key.source_fingerprint) && framable(a_key.geometry_key),
        framable(b_key.source_fingerprint) && framable(b_key.geometry_key),
        a_matrix.len() == 9 && b_matrix.len() == 9,
        a_distortion.len() <= u64::MAX && b_distortion.len() <= u64::MAX,
        binding_frame(a_size, a_crop, a_key, a_matrix, a_distortion) == binding_frame(
            b_size,
            b_crop,
            b_key,
            b_matrix,
            b_distortion,
        ),
    ensures
        a_size == b_size,
        a_crop == b_crop,
        a_key == b_key,
        a_matrix == b_matrix,
        a_distortion == b_distortion,
{
    lemma_words();
    let a_p0 = string_field("camera-toolbox/initial-intrinsics-binding/v1"@);
    let a_p1 = a_p0 + be_bytes(a_size.width as nat, 4);
    let a_p2 = a_p1 + be_bytes(a_size.height as nat, 4);
    let a_p3 = a_p2 + seq![0u8];
    let a_p4 = a_p3 + crop_frame(a_crop);
    let a_p5 = a_p4 + seq![0u8];
    let a_p6 = a_p5 + string_field(a_key.source_fingerprint);
    let a_p7 = a_p6 + be_bytes(a_key.channel as nat, 2);
    let a_p8 = a_p7 + string_field(a_key.geometry_key);
    let a_p9 = a_p8 + reals_frame(a_matrix);
    let a_p10 = a_p9 + be_bytes(a_distortion.len(), 8);
    let a_p11 = a_p10 + reals_frame(a_distortion);
    let a_s11 = reals_frame(a_distortion);
    let a_s10 = be_bytes(a_distortion.len(), 8) + a_s11;
    lemma_grouped(a_p9, be_bytes(a_distortion.len(), 8), a_s11);
    let a_s9 = reals_frame(a_matrix) + a_s10;
    lemma_grouped(a_p8, reals_frame(a_matrix), a_s10);
    let a_s8 = string_field(a_key.geometry_key) + a_s9;
    lemma_grouped(a_p7, string_field(a_key.geometry_key), a_s9);
    let a_s7 = be_bytes(a_key.channel as nat, 2) + a_s8;
    lemma_grouped(a_p6, be_bytes(a_key.channel as nat, 2), a_s8);
    let a_s6 = string_field(a_key.source_fingerprint) + a_s7;
    lemma_grouped(a_p5, string_field(a_key.source_fingerprint), a_s7);
    let a_s5 = seq![0u8] + a_s6;
    lemma_grouped(a_p4, seq![0u8], a_s6);
    let a_s4 = crop_frame(a_crop) + a_s5;
    lemma_grouped(a_p3, crop_frame(a_crop), a_s5);
    let a_s3 = seq![0u8] + a_s4;
    lemma_grouped(a_p2, seq![0u8], a_s4);
    let a_s2 = be_bytes(a_size.height as nat, 4) + a_s3;
    lemma_grouped(a_p1, be_bytes(a_size.height as nat, 4), a_s3);
    let a_s1 = be_bytes(a_size.width as nat, 4) + a_s2;
    lemma_grouped(a_p0, be_bytes(a_size.width as nat, 4), a_s2);
    lemma_length(a_size.width as nat, 4);
    lemma_length(a_size.height as nat, 4);
    lemma_length(a_key.channel as nat, 2);
    lemma_length(a_distortion.len(), 8);
    let b_p0 = string_field("camera-toolbox/initial-intrinsics-binding/v1"@);
    let b_p1 = b_p0 + be_bytes(b_size.width as nat, 4);
    let b_p2 = b_p1 + be_bytes(b_size.height as nat, 4);
    let b_p3 = b_p2 + seq![0u8];
    let b_p4 = b_p3 + crop_frame(b_crop);
    let b_p5 = b_p4 + seq![0u8];
    let b_p6 = b_p5 + string_field(b_key.source_fingerprint);
    let b_p7 = b_p6 + be_bytes(b_key.channel as nat, 2);
    let b_p8 = b_p7 + string_field(b_key.geometry_key);
    let b_p9 = b_p8 + reals_frame(b_matrix);
    let b_p10 = b_p9 + be_bytes(b_distortion.len(), 8);
    let b_p11 = b_p10 + reals_frame(b_distortion);
    let b_s11 = reals_frame(b_distortion);
    let b_s10 = be_bytes(b_distortion.len(), 8) + b_s11;
    lemma_grouped(b_p9, be_bytes(b_distortion.len(), 8), b_s11);
    let b_s9 = reals_frame(b_matrix) + b_s10;
    lemma_grouped(b_p8, reals_frame(b_matrix), b_s10);
    let b_s8 = string_field(b_key.geometry_key) + b_s9;
    lemma_grouped(b_p7, string_field(b_key.geometry_key), b_s9);
    let b_s7 = be_bytes(b_key.channel as nat, 2) + b_s8;
    lemma_grouped(b_p6, be_bytes(b_key.channel as nat, 2), b_s8);
    let b_s6 = string_field(b_key.source_fingerprint) + b_s7;
    lemma_grouped(b_p5, string_field(b_key.source_fingerprint), b_s7);
    let b_s5 = seq![0u8] + b_s6;
    lemma_grouped(b_p4, seq![0u8], b_s6);
    let b_s4 = crop_frame(b_crop) + b_s5;
    lemma_grouped(b_p3, crop_frame(b_crop), b_s5);
    let b_s3 = seq![0u8] + b_s4;
    lemma_grouped(b_p2, seq![0u8], b_s4);
    let b_s2 = be_bytes(b_size.height as nat, 4) + b_s3;
    lemma_grouped(b_p1, be_bytes(b_size.height as nat, 4), b_s3);
    let b_s1 = be_bytes(b_size.width as nat, 4) + b_s2;
    lemma_grouped(b_p0, be_bytes(b_size.width as nat, 4), b_s2);
    lemma_length(b_size.width as nat, 4);
    lemma_length(b_size.height as nat, 4);
    lemma_length(b_key.channel as nat, 2);
    lemma_length(b_distortion.len(), 8);
    lemma_reals(a_matrix, b_matrix);
    lemma_reals(b_matrix, a_matrix);
    lemma_head(a_p0, a_s1, b_p0, b_s1);
    lemma_head(be_bytes(a_size.width as nat, 4), a_s2, be_bytes(b_size.width as nat, 4), b_s2);
    lemma_head(be_bytes(a_size.height as nat, 4), a_s3, be_bytes(b_size.height as nat, 4), b_s3);
    lemma_head(seq![0u8], a_s4, seq![0u8], b_s4);
    lemma_number(a_size.width as nat, b_size.width as nat, 4);
    lemma_number(a_size.height as nat, b_size.height as nat, 4);
    lemma_crop(a_crop, a_s5, b_crop, b_s5);
    lemma_head(seq![0u8], a_s6, seq![0u8], b_s6);
    lemma_text(a_key.source_fingerprint, a_s7, b_key.source_fingerprint, b_s7);
    lemma_head(be_bytes(a_key.channel as nat, 2), a_s8, be_bytes(b_key.channel as nat, 2), b_s8);
    lemma_number(a_key.channel as nat, b_key.channel as nat, 2);
    lemma_text(a_key.geometry_key, a_s9, b_key.geometry_key, b_s9);
    lemma_head(reals_frame(a_matrix), a_s10, reals_frame(b_matrix), b_s10);
    lemma_head(be_bytes(a_distortion.len(), 8), a_s11, be_bytes(b_distortion.len(), 8), b_s11);
    lemma_number(a_distortion.len(), b_distortion.len(), 8);
    lemma_reals(a_distortion, b_distortion);
}

/// A file may be read exactly where it is still the version that was asked for and is no longer than
/// the limit and than memory can address. A changed file is told before a long one.
pub proof fn law_only_unchanged_files_within_the_limit_are_read(
    entry: FileVersion,
    expected: FileVersion,
    limit: u64,
)
    ensures
        read_refusal(entry, expected, limit) is None <==> entry == expected && entry.size <= limit
            && entry.size <= usize::MAX,
        entry != expected ==> read_refusal(entry, expected, limit) == Some(
            CalibrationInputError::SourceChanged { expected, actual: entry },
        ),
        entry == expected && entry.size > limit ==> read_refusal(entry, expected, limit) == Some(
            CalibrationInputError::EncodedImageTooLarge { size: entry.size, limit },
        ),
{
}

/// The size of an image is read out of its header: the width stands in the four bytes from the
/// sixteenth on, the height in the four bytes behind them, and neither is zero.
pub proof fn law_image_size_stands_in_its_header(bytes: Seq<u8>)
    ensures
        png_dimensions(bytes) matches Ok(size) ==> {
            &&& bytes.len() >= 24
            &&& bytes[0] == 0x89 && bytes[1] == 0x50 && bytes[2] == 0x4e && bytes[3] == 0x47
            &&& bytes[4] == 0x0d && bytes[5] == 0x0a && bytes[6] == 0x1a && bytes[7] == 0x0a
            &&& bytes[8] == 0 && bytes[9] == 0 && bytes[10] == 0 && bytes[11] == 13
            &&& bytes[12] == 0x49 && bytes[13] == 0x48 && bytes[14] == 0x44 && bytes[15] == 0x52
            &&& size.width == bytes[16] * 0x100_0000 + bytes[17] * 0x1_0000 + bytes[18] * 0x100
                + bytes[19]
            &&& size.height == bytes[20] * 0x100_0000 + bytes[21] * 0x1_0000 + bytes[22] * 0x100
                + bytes[23]
            &&& size.width > 0 && size.height > 0
        },
        png_dimensions(bytes) is Err && bytes.len() >= 24 ==> png_dimensions(bytes)->Err_0
            == CalibrationInputError::InvalidPngHeader || be_value(bytes.subrange(16, 20)) == 0
            || be_value(bytes.subrange(20, 24)) == 0,
        bytes.len() < 24 ==> png_dimensions(bytes) == Err::<
            CalibrationImageSize,
            CalibrationInputError,
        >(CalibrationInputError::InvalidPngHeader),
{
    if bytes.len() >= 24 {
        let head = bytes.subrange(0, 8);
        let length = bytes.subrange(8, 12);
        let name = bytes.subrange(12, 16);
        let wide = bytes.subrange(16, 20);
        let high = bytes.subrange(20, 24);
        law_four_bytes_read_as_one_number(length);
        law_four_bytes_read_as_one_number(wide);
        law_four_bytes_read_as_one_number(high);
        assert(forall|i: int| 0 <= i < 8 ==> #[trigger] head[i] == bytes[i]);
        assert(forall|i: int| 0 <= i < 4 ==> #[trigger] name[i] == bytes[12 + i]);
        if png_dimensions(bytes) is Ok {
            let signature = seq![0x89u8, 0x50, 0x4e, 0x47, 0x0d, 0x0a, 0x1a, 0x0a];
            let chunk = seq![0x49u8, 0x48, 0x44, 0x52];
            assert(head[0] == signature[0] && head[1] == signature[1] && head[2] == signature[2]
                && head[3] == signature[3]);
            assert(head[4] == signature[4] && head[5] == signature[5] && head[6] == signature[6]
                && head[7] == signature[7]);
            assert(name[0] == chunk[0] && name[1] == chunk[1] && name[2] == chunk[2] && name[3]
                == chunk[3]);
        }
    }
}

/// Two captures are one input exactly where stream, channel and frame number are one.
pub proof fn law_captures_of_one_frame_are_one_input(a: StreamCaptureId, b: StreamCaptureId)
    ensures
        CalibrationInputKey::StreamCapture(a)@ == CalibrationInputKey::StreamCapture(b)@
            <==> a.stream_id.value@ == b.stream_id.value@ && a.channel == b.channel
            && a.frame_sequence == b.frame_sequence,
{
}

} // verus!
