//! Laws of the plain values: numbers by their encodings, framed messages, boards, views, requests
//! and solutions, and the store of captured assets.
use crate::asset::{
    asset_index, operation_total, publish_answered, published_total, record_index, release_answered,
    reserved_total, CaptureStoreError, EphemeralAsset, RecordView, ReservationView, StoreState,
};
use crate::digest::{be_bytes, be_value, hex_digits, words_of};
use crate::ieee::{
    encoded_integer, leading_bit, lemma_leading_bit_unique, nearest32, nearest64, nearest_even,
    normalized, widened, Real32, Real64,
};
use crate::model::{
    corner_lists, request_fault, view_fault, views_fault, BoardSpec, CalibrationDataError,
    CalibrationPoint, CalibrationRequest, CalibrationSolution, InitialIntrinsics,
};
use std::sync::Arc;
use vstd::arithmetic::power2::pow2;
use vstd::prelude::*;

verus! {

/// Numbers are ordered by their encodings: upward where the sign bit is clear, downward where it is
/// set, every number of the second sort at or below every number of the first. An encoding beyond
/// infinity is ordered with nothing.
pub proof fn law_encodings_order_numbers(a: Real64, b: Real64)
    ensures
        a.bits <= 0x7ff0_0000_0000_0000 && b.bits <= 0x7ff0_0000_0000_0000 ==> (a.at_most(b)
            <==> a.bits <= b.bits) && (a.below(b) <==> a.bits < b.bits) && (a.same(b) <==> a.bits
            == b.bits),
        0x8000_0000_0000_0000 <= a.bits <= 0xfff0_0000_0000_0000 && 0x8000_0000_0000_0000 <= b.bits
            <= 0xfff0_0000_0000_0000 ==> (a.at_most(b) <==> b.bits <= a.bits) && (a.below(b)
            <==> b.bits < a.bits) && (a.same(b) <==> a.bits == b.bits),
        0x8000_0000_0000_0000 <= a.bits <= 0xfff0_0000_0000_0000 && b.bits <= 0x7ff0_0000_0000_0000
            ==> a.at_most(b) && (a.same(b) <==> a.bits == 0x8000_0000_0000_0000 && b.bits == 0),
        0x7ff0_0000_0000_0000 < a.bits < 0x8000_0000_0000_0000 || 0xfff0_0000_0000_0000 < a.bits
            ==> !a.at_most(b) && !b.at_most(a) && !a.same(b) && !a.below(b) && !b.below(a),
        a.finite() <==> (a.bits < 0x7ff0_0000_0000_0000 || 0x8000_0000_0000_0000 <= a.bits
            < 0xfff0_0000_0000_0000),
        a.below(b) <==> a.at_most(b) && !b.at_most(a),
{
}

/// The same of the shorter encodings.
pub proof fn law_short_encodings_order_numbers(a: Real32, b: Real32)
    ensures
        a.bits <= 0x7f80_0000 && b.bits <= 0x7f80_0000 ==> (a.at_most(b) <==> a.bits <= b.bits) && (
        a.below(b) <==> a.bits < b.bits) && (a.same(b) <==> a.bits == b.bits),
        0x8000_0000 <= a.bits <= 0xff80_0000 && 0x8000_0000 <= b.bits <= 0xff80_0000 ==> (a.at_most(
            b,
        ) <==> b.bits <= a.bits) && (a.below(b) <==> b.bits < a.bits),
        0x8000_0000 <= a.bits <= 0xff80_0000 && b.bits <= 0x7f80_0000 ==> a.at_most(b),
        0x7f80_0000 < a.bits < 0x8000_0000 || 0xff80_0000 < a.bits ==> !a.at_most(b) && !b.at_most(
            a,
        ) && !a.same(b) && !a.below(b) && !b.below(a),
        a.finite() <==> (a.bits < 0x7f80_0000 || 0x8000_0000 <= a.bits < 0xff80_0000),
        a.below(b) <==> a.at_most(b) && !b.at_most(a),
{
}

/// The smaller and the larger of two numbers are those two; beside an encoding that is no number
/// the other is taken.
pub proof fn law_smaller_and_larger_are_the_two(a: Real64, b: Real64)
    ensures
        !a.nan() && !b.nan() ==> {
            &&& a.smaller(b).at_most(a) && a.smaller(b).at_most(b)
            &&& a.at_most(a.larger(b)) && b.at_most(a.larger(b))
            &&& a.smaller(b) == a && a.larger(b) == b || a.smaller(b) == b && a.larger(b) == a
                || a.same(b)
        },
        a.smaller(b) == a || a.smaller(b) == b,
        a.larger(b) == a || a.larger(b) == b,
        a.nan() ==> a.smaller(b) == b && a.larger(b) == b,
        b.nan() && !a.nan() ==> a.smaller(b) == a && a.larger(b) == a,
{
}

/// The same of the shorter encodings.
pub proof fn law_shorter_smaller_is_one_of_both(a: Real32, b: Real32)
    ensures
        !a.nan() && !b.nan() ==> a.smaller(b).at_most(a) && a.smaller(b).at_most(b),
        a.smaller(b) == a || a.smaller(b) == b,
        a.nan() ==> a.smaller(b) == b,
        b.nan() && !a.nan() ==> a.smaller(b) == a,
{
}

/// An integer of at most 53 bits is encoded without loss: its significand, shifted to the length
/// of the format, follows the exponent of its leading bit.
pub proof fn law_short_integers_are_encoded_without_loss(n: int, e: nat)
    requires
        leading_bit(n, e),
        e <= 52,
    ensures
        ({
            let fraction = n * pow2((52 - e) as nat) - 0x10_0000_0000_0000;
            &&& 0 <= fraction < 0x10_0000_0000_0000
            &&& nearest64(n).bits == (1023 + e) * 0x10_0000_0000_0000 + fraction
        }),
{
    vstd::arithmetic::power2::lemma2_to64();
    vstd::arithmetic::power2::lemma2_to64_rest();
    vstd::arithmetic::power2::lemma_pow2_adds(e, (52 - e) as nat);
    vstd::arithmetic::power2::lemma_pow2_adds(e + 1, (52 - e) as nat);
    vstd::arithmetic::power2::lemma_pow2_pos((52 - e) as nat);
    vstd::arithmetic::power2::lemma_pow2_pos(e);
    let k = pow2((52 - e) as nat) as int;
    let low = pow2(e) as int;
    let high = pow2(e + 1) as int;
    assert(low * k <= n * k && n * k < high * k) by (nonlinear_arith)
        requires
            low <= n < high,
            k > 0,
    ;
    let bits = encoded_integer(n, e, 52, 1023);
    assert(bits == (1022 + e) * 0x10_0000_0000_0000 + n * k);
    assert(bits < 0x1_0000_0000_0000_0000);
    let w = Real64 { bits: bits as u64 };
    assert(n > 0);
    assert(crate::ieee::encodes64(n, w));
    let r = nearest64(n);
    assert(crate::ieee::encodes64(n, r));
    let f = choose|f: nat| #[trigger] leading_bit(n, f) && r.bits == encoded_integer(n, f, 52, 1023);
    lemma_leading_bit_unique(n, e, f);
}

/// Doubling a significand until it is full keeps the number: what the significand gains by
/// doublings the exponent loses.
pub proof fn law_normalizing_keeps_the_number(significand: int, exponent: int)
    requires
        0 < significand < 0x100_0000,
    ensures
        ({
            let (s, e) = normalized(significand, exponent);
            &&& 0x80_0000 <= s < 0x100_0000
            &&& e <= exponent
            &&& s == significand * pow2((exponent - e) as nat)
        }),
    decreases 0x100_0000 - significand,
{
    if significand >= 0x80_0000 {
        vstd::arithmetic::power2::lemma2_to64();
        assert(significand * 1 == significand);
        assert((exponent - exponent) as nat == 0);
    } else {
        law_normalizing_keeps_the_number(2 * significand, exponent - 1);
        let (s, e) = normalized(2 * significand, exponent - 1);
        let k = (exponent - 1 - e) as nat;
        vstd::arithmetic::power2::lemma_pow2_unfold(k + 1);
        let p = pow2(k) as int;
        assert((2 * significand) * p == significand * (2 * p)) by (nonlinear_arith);
        assert((exponent - e) as nat == k + 1);
        assert(normalized(significand, exponent) == (s, e));
        assert(pow2(k + 1) == 2 * p);
        assert(s == (2 * significand) * p);
    }
}

/// Widening keeps a normal number: the sign, the exponent over its bias and the fraction over its
/// length are those that were there.
pub proof fn law_widening_keeps_normal_numbers(negative: bool, exponent: int, fraction: int, x: Real32)
    requires
        1 <= exponent < 255,
        0 <= fraction < 0x80_0000,
        x.bits == (if negative {
            0x8000_0000int
        } else {
            0
        }) + exponent * 0x80_0000 + fraction,
    ensures
        widened(x).bits == (if negative {
            0x8000_0000_0000_0000int
        } else {
            0
        }) + (exponent - 127 + 1023) * 0x10_0000_0000_0000 + fraction * 0x2000_0000,
{
    let m = x.magnitude();
    assert(m == exponent * 0x80_0000 + fraction);
    vstd::arithmetic::div_mod::lemma_fundamental_div_mod_converse(m, 0x80_0000, exponent, fraction);
}

proof fn lemma_be_length(n: nat, k: nat)
    ensures
        be_bytes(n, k).len() == k,
    decreases k,
{
    if k > 0 {
        lemma_be_length(n / 256, (k - 1) as nat);
    }
}

/// A number written as bytes, the most significant first, is read back: what the length cannot hold
/// is cut off.
pub proof fn law_written_numbers_are_read_back(n: nat, k: nat)
    requires
        n < pow2(8 * k),
    ensures
        be_bytes(n, k).len() == k,
        be_value(be_bytes(n, k)) == n,
    decreases k,
{
    vstd::arithmetic::power2::lemma2_to64();
    if k > 0 {
        lemma_be_length(n, k);
        vstd::arithmetic::power2::lemma_pow2_adds((8 * (k - 1)) as nat, 8);
        assert(8 * k == 8 * (k - 1) + 8);
        assert(n / 256 < pow2((8 * (k - 1)) as nat)) by (nonlinear_arith)
            requires
                n < pow2((8 * (k - 1)) as nat) * 256,
        ;
        law_written_numbers_are_read_back(n / 256, (k - 1) as nat);
        let bytes = be_bytes(n, k);
        assert(bytes.drop_last() =~= be_bytes(n / 256, (k - 1) as nat));
        assert(bytes.last() == (n % 256) as u8);
    }
}

/// Four bytes are read as a number in base 256, the first byte the most significant.
pub proof fn law_four_bytes_read_as_one_number(bytes: Seq<u8>)
    requires
        bytes.len() == 4,
    ensures
        be_value(bytes) == bytes[0] * 0x100_0000 + bytes[1] * 0x1_0000 + bytes[2] * 0x100 + bytes[3],
{
    reveal_with_fuel(be_value, 5);
    let three = bytes.drop_last();
    let two = three.drop_last();
    let one = two.drop_last();
    assert(one.drop_last().len() == 0);
}

/// A board is one exactly where it has at least two inner corners each way and a spacing that is
/// finite and above zero; it has as many corners as columns times rows.
pub proof fn law_boards_have_corners_and_spacing(board: BoardSpec)
    ensures
        board.fault() is None <==> board.inner_cols >= 2 && board.inner_rows >= 2
            && board.square_size.finite() && (Real64 { bits: 0 }).below(board.square_size),
        board.fault() matches Some(CalibrationDataError::BoardLayout { inner_cols, inner_rows })
            ==> inner_cols == board.inner_cols && inner_rows == board.inner_rows,
        board.corners() == board.inner_cols * board.inner_rows,
{
}

/// Two boards are the same exactly where they agree in columns, in rows and in spacing.
pub proof fn law_boards_agree_in_every_part(a: BoardSpec, b: BoardSpec)
    ensures
        a.same(b) <==> a.inner_cols == b.inner_cols && a.inner_rows == b.inner_rows
            && a.square_size.at_most(b.square_size) && b.square_size.at_most(a.square_size),
{
}

/// A view belongs to a board exactly where the board is one and every corner of it is there and
/// finite.
pub proof fn law_views_hold_every_corner(corners: Seq<CalibrationPoint>, board: BoardSpec)
    ensures
        view_fault(corners, board) is None <==> {
            &&& board.fault() is None
            &&& corners.len() == board.inner_cols * board.inner_rows
            &&& forall|i: int|
                0 <= i < corners.len() ==> (#[trigger] corners[i]).x.finite()
                    && corners[i].y.finite()
        },
        board.fault() is None && corners.len() != board.inner_cols * board.inner_rows
            && corners.len() <= usize::MAX && board.inner_cols * board.inner_rows <= usize::MAX
            ==> view_fault(corners, board) == Some(
            CalibrationDataError::CornerCount {
                expected: (board.inner_cols * board.inner_rows) as usize,
                actual: corners.len() as usize,
            },
        ),
{
}

proof fn lemma_views(views: Seq<Seq<CalibrationPoint>>, board: BoardSpec)
    ensures
        views_fault(views, board) is None <==> forall|i: int|
            0 <= i < views.len() ==> view_fault(#[trigger] views[i], board) is None,
    decreases views.len(),
{
    if views.len() > 0 {
        let rest = views.drop_first();
        lemma_views(rest, board);
        assert(forall|i: int| 0 <= i < rest.len() ==> rest[i] == views[i + 1]);
        if views_fault(views, board) is None {
            assert forall|i: int| 0 <= i < views.len() implies view_fault(#[trigger] views[i], board)
                is None by {
                if i > 0 {
                    assert(view_fault(rest[i - 1], board) is None);
                }
            }
        }
        if forall|i: int| 0 <= i < views.len() ==> view_fault(#[trigger] views[i], board) is None {
            assert forall|i: int| 0 <= i < rest.len() implies view_fault(#[trigger] rest[i], board)
                is None by {
                assert(view_fault(views[i + 1], board) is None);
            }
        }
    }
}

/// Whether every figure of a list is finite.
pub open spec fn each_finite(values: Seq<Real64>) -> bool {
    forall|i: int| 0 <= i < values.len() ==> (#[trigger] values[i]).finite()
}

/// A request can be solved exactly where its board is one, it has a view, every view holds every
/// corner, and its first estimate is finite with both focal lengths above zero.
pub proof fn law_requests_hold_full_views(
    board: BoardSpec,
    views: Seq<Seq<CalibrationPoint>>,
    intrinsics: InitialIntrinsics,
)
    ensures
        request_fault(board, views, intrinsics) is None <==> {
            &&& board.fault() is None
            &&& views.len() > 0
            &&& forall|i: int| 0 <= i < views.len() ==> view_fault(#[trigger] views[i], board) is None
            &&& each_finite(intrinsics.camera_matrix@)
            &&& each_finite(intrinsics.distortion_coefficients@)
            &&& (Real64 { bits: 0 }).below(intrinsics.camera_matrix@[0])
            &&& (Real64 { bits: 0 }).below(intrinsics.camera_matrix@[4])
        },
        board.fault() is None && views.len() == 0 ==> request_fault(board, views, intrinsics) == Some(
            CalibrationDataError::NoViews,
        ),
{
    lemma_views(views, board);
}

/// A request is judged by its own board, its own views and its own first estimate.
pub proof fn law_request_is_judged_as_it_is(request: CalibrationRequest, i: int)
    ensures
        request.fault() is None ==> request.board.fault() is None,
        request.fault() is None && 0 <= i < request.image_points@.len() ==> view_fault(
            request.image_points@[i]@,
            request.board,
        ) is None,
        request.fault() is None ==> request.image_points@.len() > 0
            && request.initial_intrinsics.usable(),
{
    let views = corner_lists(request.image_points@);
    lemma_views(views, request.board);
    if 0 <= i < request.image_points@.len() {
        assert(views[i] == request.image_points@[i]@);
    }
}

/// A solution answers a request exactly where it is for the size of the request, has a result for
/// each of its views, is finite, and has no negative error.
pub proof fn law_solutions_answer_their_request(
    solution: CalibrationSolution,
    request: CalibrationRequest,
)
    ensures
        solution.fault_against(request) is None <==> {
            &&& solution.image_size == request.image_size
            &&& solution.views@.len() == request.image_points@.len()
            &&& each_finite(solution.camera_matrix@)
            &&& each_finite(solution.distortion_coefficients@)
            &&& solution.rms_error.finite()
            &&& (Real64 { bits: 0 }).at_most(solution.rms_error)
        },
        solution.image_size != request.image_size ==> solution.fault_against(request) == Some(
            CalibrationDataError::SolutionImageSize,
        ),
{
}

proof fn lemma_record(records: Seq<RecordView>, id: u64)
    ensures
        match record_index(records, id) {
            Some(i) => 0 <= i < records.len() && records[i].reservation_id == id,
            None => forall|i: int|
                0 <= i < records.len() ==> (#[trigger] records[i]).reservation_id != id,
        },
    decreases records.len(),
{
    if records.len() > 0 {
        let init = records.drop_last();
        lemma_record(init, id);
        assert(forall|i: int| 0 <= i < init.len() ==> init[i] == records[i]);
        assert(records.last() == records[records.len() - 1]);
        assert forall|i: int| 0 <= i < records.len() && record_index(records, id) is None implies (
        #[trigger] records[i]).reservation_id != id by {
            if i < init.len() {
                assert(init[i].reservation_id != id);
            }
        }
    }
}

proof fn lemma_asset(assets: Seq<Arc<EphemeralAsset>>, id: Seq<char>)
    ensures
        match asset_index(assets, id) {
            Some(i) => 0 <= i < assets.len() && assets[i].id.value@ == id,
            None => forall|i: int|
                0 <= i < assets.len() ==> (#[trigger] assets[i]).id.value@ != id,
        },
    decreases assets.len(),
{
    if assets.len() > 0 {
        let init = assets.drop_last();
        lemma_asset(init, id);
        assert(forall|i: int| 0 <= i < init.len() ==> init[i] == assets[i]);
        assert(assets.last() == assets[assets.len() - 1]);
        assert forall|i: int| 0 <= i < assets.len() && asset_index(assets, id) is None implies (
        #[trigger] assets[i]).id.value@ != id by {
            if i < init.len() {
                assert(init[i].id.value@ != id);
            }
        }
    }
}

/// What is reserved is the sum over the reservations, for an operation over those of its own, and
/// what is published the sum over the lengths of the assets: one more adds its own, whatever else is
/// there.
pub proof fn law_budgets_are_sums(
    records: Seq<RecordView>,
    record: RecordView,
    operation: Seq<char>,
    assets: Seq<Arc<EphemeralAsset>>,
    asset: Arc<EphemeralAsset>,
)
    ensures
        reserved_total(Seq::<RecordView>::empty()) == 0,
        reserved_total(records.push(record)) == reserved_total(records) + record.bytes,
        operation_total(Seq::<RecordView>::empty(), operation) == 0,
        record.operation == operation ==> operation_total(records.push(record), operation)
            == operation_total(records, operation) + record.bytes,
        record.operation != operation ==> operation_total(records.push(record), operation)
            == operation_total(records, operation),
        published_total(Seq::<Arc<EphemeralAsset>>::empty()) == 0,
        published_total(assets.push(asset)) == published_total(assets) + asset.payload@.len(),
{
    assert(records.push(record).drop_last() =~= records);
    assert(assets.push(asset).drop_last() =~= assets);
}

/// Bytes are reserved exactly where some are asked for, the operation stays within its own budget,
/// everything stays within the whole budget, and the next number is free.
pub proof fn law_reservations_stay_within_both_budgets(
    state: StoreState,
    operation: Seq<char>,
    bytes: usize,
)
    ensures
        state.reserve_refusal(operation, bytes) is None <==> {
            &&& bytes > 0
            &&& operation_total(state.records, operation) + bytes
                <= state.limits.per_operation_bytes
            &&& reserved_total(state.records) + published_total(state.assets) + bytes
                <= state.limits.global_bytes
            &&& state.next_id != 0
            &&& forall|i: int|
                0 <= i < state.records.len() ==> (#[trigger] state.records[i]).reservation_id
                    != state.next_id
        },
        state.reserve_refusal(operation, bytes) matches Some(
            CaptureStoreError::PerOperationBudgetExceeded { limit, requested },
        ) ==> limit == state.limits.per_operation_bytes && requested == operation_total(
            state.records,
            operation,
        ) + bytes,
        state.reserve_refusal(operation, bytes) matches Some(
            CaptureStoreError::GlobalBudgetExceeded { limit, requested },
        ) ==> limit == state.limits.global_bytes && requested == reserved_total(state.records)
            + published_total(state.assets) + bytes,
        ({
            let after = state.reserved(operation, bytes);
            &&& after.assets == state.assets && after.limits == state.limits
            &&& after.records.len() == state.records.len() + 1
            &&& after.records.last().operation == operation
            &&& after.records.last().bytes == bytes
            &&& after.records.last().reservation_id == state.next_id
            &&& state.next_id < u64::MAX ==> after.next_id == state.next_id + 1
        }),
{
    lemma_record(state.records, state.next_id);
}

/// An asset is published exactly where the reservation is of this store and stands in its ledger as
/// it was given out, the asset is verified, fits the reservation, and is new. It then comes last and
/// the reservation is gone.
pub proof fn law_publications_use_up_their_reservation(
    before: StoreState,
    after: StoreState,
    reservation: ReservationView,
    asset: EphemeralAsset,
    r: Result<Arc<EphemeralAsset>, CaptureStoreError>,
)
    requires
        publish_answered(before, after, reservation, asset, r),
        forall|i: int, j: int|
            0 <= i < j < before.records.len() ==> (#[trigger] before.records[i]).reservation_id != (
            #[trigger] before.records[j]).reservation_id,
    ensures
        r is Ok <==> {
            &&& reservation.store_id == before.store_id
            &&& asset.integrity is Verified
            &&& asset.payload@.len() <= reservation.bytes
            &&& forall|i: int|
                0 <= i < before.assets.len() ==> (#[trigger] before.assets[i]).id.value@
                    != asset.id.value@
            &&& exists|i: int|
                0 <= i < before.records.len() && (#[trigger] before.records[i]).reservation_id
                    == reservation.reservation_id && before.records[i].operation
                    == reservation.operation && before.records[i].bytes == reservation.bytes
        },
        r is Ok ==> after.assets.len() == before.assets.len() + 1 && *after.assets.last() == asset
            && after.records.len() == before.records.len() - 1 && forall|i: int|
            0 <= i < after.records.len() ==> before.records.contains(#[trigger] after.records[i])
                && after.records[i].reservation_id != reservation.reservation_id,
        r is Err ==> after.assets == before.assets,
        reservation.store_id != before.store_id ==> after == before,
{
    lemma_asset(before.assets, asset.id.value@);
    lemma_record(before.records, reservation.reservation_id);
    if r is Ok {
        let at = record_index(before.records, reservation.reservation_id)->Some_0;
        assert(before.records[at].reservation_id == reservation.reservation_id);
        assert forall|i: int| 0 <= i < after.records.len() implies before.records.contains(
            #[trigger] after.records[i],
        ) && after.records[i].reservation_id != reservation.reservation_id by {
            if i < at {
                assert(after.records[i] == before.records[i]);
            } else {
                assert(after.records[i] == before.records[i + 1]);
                assert(before.records[at].reservation_id != before.records[i + 1].reservation_id);
            }
        }
    }
}

/// An asset is released exactly where it is there and nobody else holds it; the others stay.
pub proof fn law_released_assets_are_there_and_unused(
    before: StoreState,
    after: StoreState,
    id: Seq<char>,
    handles: usize,
    r: Result<(), CaptureStoreError>,
)
    requires
        release_answered(before, after, id, handles, r),
    ensures
        r is Ok <==> handles == 1 && exists|i: int|
            0 <= i < before.assets.len() && (#[trigger] before.assets[i]).id.value@ == id,
        r is Ok ==> after.assets.len() == before.assets.len() - 1,
        r is Err ==> after == before,
        after.records == before.records,
        forall|i: int|
            0 <= i < before.assets.len() && (#[trigger] before.assets[i]).id.value@ != id
                ==> after.assets.contains(before.assets[i]),
{
    lemma_asset(before.assets, id);
    assert forall|i: int|
        0 <= i < before.assets.len() && (#[trigger] before.assets[i]).id.value@ != id implies
        after.assets.contains(before.assets[i]) by {
        if r is Ok {
            let at = asset_index(before.assets, id)->Some_0;
            if i < at {
                assert(after.assets[i] == before.assets[i]);
            } else {
                assert(after.assets[i - 1] == before.assets[i]);
            }
        } else {
            assert(after.assets[i] == before.assets[i]);
        }
    }
}

proof fn lemma_read(a: Seq<u8>, b: Seq<u8>)
    requires
        a.len() == b.len(),
        be_value(a) == be_value(b),
    ensures
        a == b,
    decreases a.len(),
{
    if a.len() > 0 {
        let x = be_value(a.drop_last());
        let y = be_value(b.drop_last());
        assert(x * 256 + a.last() == y * 256 + b.last());
        lemma_read(a.drop_last(), b.drop_last());
        assert(a =~= a.drop_last().push(a.last()));
        assert(b =~= b.drop_last().push(b.last()));
    } else {
        assert(a =~= b);
    }
}

proof fn lemma_word(bytes: Seq<u8>)
    ensures
        be_value(bytes) < pow2(8 * bytes.len()),
    decreases bytes.len(),
{
    vstd::arithmetic::power2::lemma2_to64();
    if bytes.len() > 0 {
        lemma_word(bytes.drop_last());
        let n = (bytes.len() - 1) as nat;
        vstd::arithmetic::power2::lemma_pow2_adds(8 * n, 8);
        assert(8 * bytes.len() == 8 * n + 8);
        let v = be_value(bytes.drop_last()) as int;
        let p = pow2(8 * n) as int;
        assert(v * 256 + 255 < p * 256) by (nonlinear_arith)
            requires
                v < p,
        ;
    }
}

/// The words of a digest hold all of its bytes: two digests with the same words are the same.
pub proof fn law_words_hold_the_whole_digest(a: Seq<u8>, b: Seq<u8>)
    requires
        a.len() == 32,
        b.len() == 32,
        words_of(a) == words_of(b),
    ensures
        a == b,
{
    vstd::arithmetic::power2::lemma2_to64();
    vstd::arithmetic::power2::lemma2_to64_rest();
    lemma_word(a.subrange(0, 8));
    lemma_word(a.subrange(8, 16));
    lemma_word(a.subrange(16, 24));
    lemma_word(a.subrange(24, 32));
    lemma_word(b.subrange(0, 8));
    lemma_word(b.subrange(8, 16));
    lemma_word(b.subrange(16, 24));
    lemma_word(b.subrange(24, 32));
    lemma_read(a.subrange(0, 8), b.subrange(0, 8));
    lemma_read(a.subrange(8, 16), b.subrange(8, 16));
    lemma_read(a.subrange(16, 24), b.subrange(16, 24));
    lemma_read(a.subrange(24, 32), b.subrange(24, 32));
    assert forall|i: int| 0 <= i < 32 implies a[i] == b[i] by {
        if i < 8 {
            assert(a.subrange(0, 8)[i] == b.subrange(0, 8)[i]);
        } else if i < 16 {
            assert(a.subrange(8, 16)[i - 8] == b.subrange(8, 16)[i - 8]);
        } else if i < 24 {
            assert(a.subrange(16, 24)[i - 16] == b.subrange(16, 24)[i - 16]);
        } else {
            assert(a.subrange(24, 32)[i - 24] == b.subrange(24, 32)[i - 24]);
        }
    }
    assert(a =~= b);
}

/// The number that a hexadecimal digit stands for.
pub open spec fn hex_meaning(c: char) -> int {
    if '0' <= c <= '9' {
        c as int - '0' as int
    } else {
        c as int - 'a' as int + 10
    }
}

/// Bytes are written with two digits each, the upper half first; the digits mean the byte.
pub proof fn law_hexadecimal_digits_mean_their_byte(bytes: Seq<u8>, i: int)
    requires
        0 <= i < bytes.len(),
    ensures
        hex_digits(bytes).len() == 2 * bytes.len(),
        hex_meaning(hex_digits(bytes)[2 * i]) * 16 + hex_meaning(hex_digits(bytes)[2 * i + 1])
            == bytes[i],
        0 <= hex_meaning(hex_digits(bytes)[2 * i + 1]) < 16,
    decreases bytes.len(),
{
    let init = bytes.drop_last();
    lemma_hex_length(init);
    if i < init.len() {
        law_hexadecimal_digits_mean_their_byte(init, i);
        assert(init[i] == bytes[i]);
    }
}

proof fn lemma_hex_length(bytes: Seq<u8>)
    ensures
        hex_digits(bytes).len() == 2 * bytes.len(),
    decreases bytes.len(),
{
    if bytes.len() > 0 {
        lemma_hex_length(bytes.drop_last());
    }
}

/// Rounding a quotient goes to the nearest integer, and from the middle to the even one.
pub proof fn law_rounding_goes_to_the_nearest(n: int, d: int)
    requires
        n >= 0,
        d > 0,
    ensures
        2 * (n - nearest_even(n, d) * d) <= d,
        2 * (nearest_even(n, d) * d - n) <= d,
        2 * (n - nearest_even(n, d) * d) == d || 2 * (nearest_even(n, d) * d - n) == d
            ==> nearest_even(n, d) % 2 == 0,
{
    vstd::arithmetic::div_mod::lemma_fundamental_div_mod(n, d);
    let q = n / d;
    let r = n % d;
    assert((q + 1) * d == q * d + d) by (nonlinear_arith);
    assert(d * q == q * d) by (nonlinear_arith);
    assert(0 <= r < d);
}

/// An integer of at most 24 bits is encoded without loss in the shorter format too.
pub proof fn law_shorter_integers_are_encoded_without_loss(n: int, e: nat)
    requires
        leading_bit(n, e),
        e <= 23,
    ensures
        ({
            let fraction = n * pow2((23 - e) as nat) - 0x80_0000;
            &&& 0 <= fraction < 0x80_0000
            &&& nearest32(n).bits == (127 + e) * 0x80_0000 + fraction
        }),
{
    vstd::arithmetic::power2::lemma2_to64();
    vstd::arithmetic::power2::lemma_pow2_adds(e, (23 - e) as nat);
    vstd::arithmetic::power2::lemma_pow2_adds(e + 1, (23 - e) as nat);
    vstd::arithmetic::power2::lemma_pow2_pos((23 - e) as nat);
    vstd::arithmetic::power2::lemma_pow2_pos(e);
    let k = pow2((23 - e) as nat) as int;
    let low = pow2(e) as int;
    let high = pow2(e + 1) as int;
    assert(low * k <= n * k && n * k < high * k) by (nonlinear_arith)
        requires
            low <= n < high,
            k > 0,
    ;
    let bits = encoded_integer(n, e, 23, 127);
    assert(bits == (126 + e) * 0x80_0000 + n * k);
    let w = Real32 { bits: bits as u32 };
    assert(n > 0);
    assert(crate::ieee::encodes32(n, w));
    let r = nearest32(n);
    assert(crate::ieee::encodes32(n, r));
    let f = choose|f: nat| #[trigger] leading_bit(n, f) && r.bits == encoded_integer(n, f, 23, 127);
    lemma_leading_bit_unique(n, e, f);
}

} // verus!
