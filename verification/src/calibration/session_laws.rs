//! Laws of the session's operations: which items take part in a snapshot, what each change of the
//! dataset touches and what it leaves alone, and when a result or a candidate is taken.
use crate::calibration::admission::{
    dataset_digest, AutoCaptureAcceptanceCriteria, AutoCaptureAcquisitionKey, AutoCaptureBaseline,
    InitialIntrinsicsBinding,
};
use crate::calibration::assess::{
    admission_covers, all_fit, candidate_cover, depth_after, field_after, pose_after, CoverageView,
    DetectionMeasurement, ItemMeasurement,
};
use crate::calibration::coverage::capped_total;
use crate::calibration::error::CalibrationSessionError;
use crate::calibration::input::{
    CalibrationInputKey, CalibrationInputRevision, CalibrationItemId, RevisionView,
};
use crate::calibration::item::{CalibrationDatasetItem, CalibrationItemStatus};
use crate::calibration::laws::law_candidate_gain_is_growth;
use crate::calibration::pnp::{PnPObservation, PnpMeasurement};
use crate::calibration::session::{
    bind_fault, commit_fault, commit_gain, committed, configuration_fault, detection_installed,
    index_of, lemma_index_of, lemma_input_index, odd_size, snapshot_fault, stage_fault, staged,
    usable_views, view_corners, view_ids, AutoCandidateCommit, JobStage, JobTokenView, PnpEvidence,
    SessionState,
};
use crate::model::{
    view_fault, views_fault, BoardSpec, CalibrationPoint, ChessboardDetection,
    ChessboardDetectionOutcome, InitialIntrinsics,
};
use crate::source::StreamFrameIdentity;
use vstd::prelude::*;

verus! {

/// Whether a list of positions names, in order, exactly the enabled items that have a detection.
pub open spec fn picks_usable(items: Seq<CalibrationDatasetItem>, picks: Seq<int>) -> bool {
    &&& forall|k: int|
        0 <= k < picks.len() ==> {
            &&& 0 <= #[trigger] picks[k] < items.len()
            &&& items[picks[k]].enabled
            &&& items[picks[k]].status is Found
        }
    &&& forall|k: int, l: int|
        0 <= k < l < picks.len() ==> #[trigger] picks[k] < #[trigger] picks[l]
    &&& forall|i: int|
        0 <= i < items.len() && (#[trigger] items[i]).enabled && items[i].status is Found
            ==> picks.contains(i)
}

proof fn lemma_usable(items: Seq<CalibrationDatasetItem>) -> (picks: Seq<int>)
    ensures
        picks_usable(items, picks),
        picks.len() == usable_views(items).len(),
        forall|k: int|
            0 <= k < picks.len() ==> {
                &&& (#[trigger] usable_views(items)[k]).0 == items[picks[k]].id
                &&& usable_views(items)[k].1 == items[picks[k]].status->Found_0
            },
    decreases items.len(),
{
    if items.len() == 0 {
        Seq::empty()
    } else {
        let init = items.drop_last();
        let earlier = lemma_usable(init);
        let n = items.len() - 1;
        let picks = if items.last().enabled && items.last().status is Found {
            earlier.push(n)
        } else {
            earlier
        };
        assert forall|k: int| 0 <= k < earlier.len() implies {
            &&& 0 <= #[trigger] earlier[k] < n
            &&& items[earlier[k]] == init[earlier[k]]
        } by {}
        assert forall|i: int|
            0 <= i < items.len() && (#[trigger] items[i]).enabled && items[i].status is Found implies
            picks.contains(i) by {
            if i < n {
                assert(init[i] == items[i]);
                assert(earlier.contains(i));
                let k = choose|k: int| 0 <= k < earlier.len() && earlier[k] == i;
                assert(picks[k] == i);
            } else {
                assert(picks[picks.len() - 1] == i);
            }
        }
        assert forall|k: int| 0 <= k < picks.len() implies {
            &&& 0 <= #[trigger] picks[k] < items.len()
            &&& items[picks[k]].enabled
            &&& items[picks[k]].status is Found
        } by {
            if k < earlier.len() {
                assert(picks[k] == earlier[k]);
            }
        }
        assert forall|k: int, l: int| 0 <= k < l < picks.len() implies #[trigger] picks[k]
            < #[trigger] picks[l] by {
            assert(picks[k] == earlier[k]);
            if l < earlier.len() {
                assert(picks[l] == earlier[l]);
            }
        }
        assert forall|k: int| 0 <= k < picks.len() implies {
            &&& (#[trigger] usable_views(items)[k]).0 == items[picks[k]].id
            &&& usable_views(items)[k].1 == items[picks[k]].status->Found_0
        } by {
            if k < earlier.len() {
                assert(usable_views(items)[k] == usable_views(init)[k]);
                assert(picks[k] == earlier[k]);
            }
        }
        picks
    }
}

/// A snapshot is made of the enabled items that have a detection, of all of them, and of nothing
/// else: each identity comes with the corners of its own item, in the order of the dataset.
pub proof fn law_snapshot_takes_the_enabled_detections(items: Seq<CalibrationDatasetItem>)
    ensures
        exists|picks: Seq<int>| #[trigger]
            picks_usable(items, picks) && picks.len() == view_ids(usable_views(items)).len()
                && picks.len() == view_corners(usable_views(items)).len() && (forall|k: int|
                0 <= k < picks.len() ==> {
                    let item = items[#[trigger] picks[k]];
                    &&& view_ids(usable_views(items))[k] == item.id
                    &&& view_corners(usable_views(items))[k] == item.status->Found_0.corners@
                }),
{
    let picks = lemma_usable(items);
    assert forall|k: int| 0 <= k < picks.len() implies {
        let item = items[#[trigger] picks[k]];
        &&& view_ids(usable_views(items))[k] == item.id
        &&& view_corners(usable_views(items))[k] == item.status->Found_0.corners@
    } by {
        assert(usable_views(items)[k].0 == items[picks[k]].id);
    }
    assert(picks_usable(items, picks));
}

/// A disabled item has no part in a snapshot: whatever becomes of it while it stays disabled, the
/// views are the same, and so is what forbids a snapshot.
pub proof fn law_disabled_item_changes_no_snapshot(
    state: SessionState,
    i: int,
    item: CalibrationDatasetItem,
    intrinsics: InitialIntrinsics,
)
    requires
        0 <= i < state.items.len(),
        !state.items[i].enabled,
        !item.enabled,
    ensures
        usable_views(state.items.update(i, item)) == usable_views(state.items),
        usable_views(state.items.remove(i)) == usable_views(state.items),
        snapshot_fault(state.with_item(i, item), intrinsics) == snapshot_fault(state, intrinsics),
{
    lemma_disabled(state.items, i, item);
}

proof fn lemma_disabled(items: Seq<CalibrationDatasetItem>, i: int, item: CalibrationDatasetItem)
    requires
        0 <= i < items.len(),
        !items[i].enabled,
        !item.enabled,
    ensures
        usable_views(items.update(i, item)) == usable_views(items),
        usable_views(items.remove(i)) == usable_views(items),
    decreases items.len(),
{
    let updated = items.update(i, item);
    let removed = items.remove(i);
    let init = items.drop_last();
    if i == items.len() - 1 {
        assert(updated.drop_last() =~= init);
        assert(removed =~= init);
    } else {
        lemma_disabled(init, i, item);
        assert(updated.drop_last() =~= init.update(i, item));
        assert(removed.drop_last() =~= init.remove(i));
        assert(removed.last() == items.last());
    }
}

/// An item without a detection has no part in a snapshot either.
pub proof fn law_item_without_detection_changes_no_snapshot(
    items: Seq<CalibrationDatasetItem>,
    i: int,
)
    requires
        0 <= i < items.len(),
        !(items[i].status is Found),
    ensures
        usable_views(items.remove(i)) == usable_views(items),
    decreases items.len(),
{
    let removed = items.remove(i);
    let init = items.drop_last();
    if i == items.len() - 1 {
        assert(removed =~= init);
    } else {
        law_item_without_detection_changes_no_snapshot(init, i);
        assert(removed.drop_last() =~= init.remove(i));
        assert(removed.last() == items.last());
    }
}

proof fn lemma_odd_size(views: Seq<(CalibrationItemId, ChessboardDetection)>)
    ensures
        odd_size(views) is None <==> forall|k: int|
            0 <= k < views.len() ==> (#[trigger] views[k]).1.image_size == views[0].1.image_size,
        odd_size(views) is Some ==> exists|k: int|
            0 <= k < views.len() && (#[trigger] views[k]).1.image_size == odd_size(views)->Some_0
                && odd_size(views)->Some_0 != views[0].1.image_size,
    decreases views.len(),
{
    if views.len() > 0 {
        let init = views.drop_last();
        lemma_odd_size(init);
        let n = views.len() - 1;
        assert(views[n] == views.last());
        if init.len() > 0 {
            assert(init[0] == views[0]);
        }
        if odd_size(init) is Some {
            let k = choose|k: int|
                0 <= k < init.len() && (#[trigger] init[k]).1.image_size == odd_size(init)->Some_0
                    && odd_size(init)->Some_0 != init[0].1.image_size;
            assert(views[k] == init[k]);
        } else {
            assert forall|k: int| 0 <= k < n implies (#[trigger] views[k]).1.image_size
                == views[0].1.image_size by {
                assert(init[k] == views[k]);
            }
        }
    }
}

proof fn lemma_views_fault(views: Seq<Seq<CalibrationPoint>>, board: BoardSpec)
    ensures
        views_fault(views, board) is None <==> forall|k: int|
            0 <= k < views.len() ==> view_fault(#[trigger] views[k], board) is None,
    decreases views.len(),
{
    if views.len() > 0 {
        let rest = views.drop_first();
        lemma_views_fault(rest, board);
        if views_fault(views, board) is None {
            assert forall|k: int| 0 <= k < views.len() implies view_fault(
                #[trigger] views[k],
                board,
            ) is None by {
                if k > 0 {
                    assert(rest[k - 1] == views[k]);
                }
            }
        }
        if forall|k: int| 0 <= k < views.len() ==> view_fault(#[trigger] views[k], board) is None {
            assert forall|k: int| 0 <= k < rest.len() implies view_fault(
                #[trigger] rest[k],
                board,
            ) is None by {
                assert(rest[k] == views[k + 1]);
            }
            assert(view_fault(views[0], board) is None);
        }
    }
}

/// A snapshot is given exactly where at least three enabled items have a detection, all in images of
/// one size, each with one finite corner for every inner corner of a usable board, and the camera
/// parameters are usable. Images of several sizes are reported before a lack of views.
pub proof fn law_snapshot_needs_three_equal_views(
    state: SessionState,
    intrinsics: InitialIntrinsics,
)
    ensures
        ({
            let views = usable_views(state.items);
            &&& snapshot_fault(state, intrinsics) is None <==> {
                &&& views.len() >= 3
                &&& forall|k: int|
                    0 <= k < views.len() ==> (#[trigger] views[k]).1.image_size
                        == views[0].1.image_size
                &&& state.board.inner_cols >= 2 && state.board.inner_rows >= 2
                &&& state.board.square_size.finite() && state.board.square_size.key() > 0
                &&& forall|k: int|
                    0 <= k < views.len() ==> complete_view(
                        (#[trigger] views[k]).1.corners@,
                        state.board,
                    )
                &&& intrinsics.usable()
            }
            &&& snapshot_fault(state, intrinsics) matches Some(
                CalibrationSessionError::MixedImageSizes { expected, actual },
            ) ==> expected != actual && expected == views[0].1.image_size
            &&& (exists|k: int, l: int|
                0 <= k < views.len() && 0 <= l < views.len() && (
                #[trigger] views[k]).1.image_size != (#[trigger] views[l]).1.image_size)
                ==> snapshot_fault(state, intrinsics) is Some && snapshot_fault(
                state,
                intrinsics,
            )->Some_0 is MixedImageSizes
            &&& snapshot_fault(state, intrinsics) matches Some(
                CalibrationSessionError::NotEnoughViews { found, required },
            ) ==> views.len() < required && required == 3
        }),
{
    let views = usable_views(state.items);
    lemma_odd_size(views);
    let corners = view_corners(views);
    lemma_views_fault(corners, state.board);
    assert(forall|k: int| 0 <= k < views.len() ==> corners[k] == (#[trigger] views[k]).1.corners@);
    if exists|k: int, l: int|
        0 <= k < views.len() && 0 <= l < views.len() && (#[trigger] views[k]).1.image_size != (
        #[trigger] views[l]).1.image_size {
        let (k, l) = choose|k: int, l: int|
            0 <= k < views.len() && 0 <= l < views.len() && (#[trigger] views[k]).1.image_size != (
            #[trigger] views[l]).1.image_size;
        assert(odd_size(views) is Some);
    }
    if state.board.fault() is None {
        assert forall|k: int| 0 <= k < views.len() implies (view_fault(
            #[trigger] corners[k],
            state.board,
        ) is None <==> complete_view(views[k].1.corners@, state.board)) by {
            assert(corners[k] == views[k].1.corners@);
        }
        if views_fault(corners, state.board) is None {
            assert forall|k: int| 0 <= k < views.len() implies complete_view(
                (#[trigger] views[k]).1.corners@,
                state.board,
            ) by {
                assert(view_fault(corners[k], state.board) is None);
            }
        }
        if forall|k: int|
            0 <= k < views.len() ==> complete_view((#[trigger] views[k]).1.corners@, state.board) {
            assert forall|k: int| 0 <= k < corners.len() implies view_fault(
                #[trigger] corners[k],
                state.board,
            ) is None by {
                assert(complete_view(views[k].1.corners@, state.board));
            }
        }
    }
}

/// Whether a view holds one finite corner for every inner corner of a board.
pub open spec fn complete_view(corners: Seq<CalibrationPoint>, board: BoardSpec) -> bool {
    &&& corners.len() == board.inner_cols * board.inner_rows
    &&& forall|i: int|
        0 <= i < corners.len() ==> (#[trigger] corners[i]).x.finite() && corners[i].y.finite()
}

/// Whether every detection of a dataset has one corner for every inner corner of a board.
pub open spec fn detections_fit(items: Seq<CalibrationDatasetItem>, board: BoardSpec) -> bool {
    forall|i: int|
        0 <= i < items.len() && (#[trigger] items[i]).status is Found
            ==> items[i].status->Found_0.corners@.len() == board.inner_cols * board.inner_rows
}

/// Whether two items agree on everything but status and evidence.
pub open spec fn same_source(a: CalibrationDatasetItem, b: CalibrationDatasetItem) -> bool {
    a.id == b.id && a.input == b.input && a.revision == b.revision && a.display_name
        == b.display_name && a.enabled == b.enabled && a.acquisition_key == b.acquisition_key
}

/// Whether everything that was given out before is void: job tokens, snapshots, the solution.
pub open spec fn work_voided(before: SessionState, after: SessionState) -> bool {
    &&& after.detection_epoch != before.detection_epoch
    &&& after.solution_revision != before.solution_revision
    &&& after.installed is None
    &&& after.jobs == Map::<u64, u64>::empty()
    &&& forall|i: int|
        0 <= i < after.items.len() ==> {
            &&& !((#[trigger] after.items[i]).status is ReadQueued)
            &&& !(after.items[i].status is Reading)
            &&& !(after.items[i].status is DetectQueued)
            &&& !(after.items[i].status is Detecting)
        }
}

/// Another board keeps a dataset in step with it: every item that is still found holds one corner for
/// every inner corner of the new board, as it did for the old one. Another number of columns or of
/// rows leaves no detection at all; another spacing alone keeps them. No pose evidence, no admission
/// and no work in progress outlives the change, and no item is lost.
pub proof fn law_board_change_keeps_only_fitting_detections(state: SessionState, board: BoardSpec)
    requires
        detections_fit(state.items, state.board),
    ensures
        ({
            let after = if state.board.same(board) {
                state
            } else {
                state.reboarded(board)
            };
            &&& detections_fit(after.items, board)
            &&& after.board.inner_cols == board.inner_cols
            &&& after.board.inner_rows == board.inner_rows
            &&& after.board.square_size.same(board.square_size) || after.board == board
            &&& after.items.len() == state.items.len()
        }),
        ({
            let after = state.reboarded(board);
            &&& after.board == board
            &&& after.baseline is None && after.binding is None
            &&& after.admission_revision != state.admission_revision
            &&& after.selected == state.selected && after.next_id == state.next_id
            &&& after.next_job == state.next_job
            &&& work_voided(state, after)
            &&& forall|i: int|
                0 <= i < state.items.len() ==> {
                    let item = #[trigger] after.items[i];
                    &&& same_source(item, state.items[i])
                    &&& item.pnp_observation is None && item.admission_pnp_observation is None
                    &&& state.board.inner_cols != board.inner_cols || state.board.inner_rows
                        != board.inner_rows ==> item.status is Pending
                    &&& state.board.inner_cols == board.inner_cols && state.board.inner_rows
                        == board.inner_rows && !state.items[i].status.busy() ==> item.status
                        == state.items[i].status
                }
        }),
{
    let after = state.reboarded(board);
    assert forall|i: int| 0 <= i < state.items.len() implies {
        let item = #[trigger] after.items[i];
        &&& same_source(item, state.items[i])
        &&& item.status is Found ==> item.status == state.items[i].status
        &&& item.status is Found ==> state.board.inner_cols == board.inner_cols
            && state.board.inner_rows == board.inner_rows
    } by {}
    if !state.board.same(board) {
        assert forall|i: int|
            0 <= i < after.items.len() && (#[trigger] after.items[i]).status is Found implies
            after.items[i].status->Found_0.corners@.len() == board.inner_cols
            * board.inner_rows by {
            assert(state.items[i].status is Found);
        }
    }
}

/// Resetting leaves no detection, no evidence and no work in progress, and every item as it is
/// otherwise.
pub proof fn law_reset_leaves_no_detection(state: SessionState)
    ensures
        ({
            let after = state.detections_reset();
            &&& after.items.len() == state.items.len()
            &&& work_voided(state, after)
            &&& after.board == state.board && after.selected == state.selected
            &&& after.baseline == state.baseline && after.binding == state.binding
            &&& after.admission_revision == state.admission_revision
            &&& after.next_id == state.next_id && after.next_job == state.next_job
            &&& forall|i: int|
                0 <= i < state.items.len() ==> {
                    let item = #[trigger] after.items[i];
                    &&& same_source(item, state.items[i])
                    &&& item.status is Pending
                    &&& item.pnp_observation is None && item.admission_pnp_observation is None
                }
        }),
{
}

/// Voiding jobs ends the work on every item and leaves everything else of it as it is.
pub proof fn law_voided_jobs_leave_results_alone(state: SessionState, i: int)
    requires
        0 <= i < state.items.len(),
    ensures
        work_voided(state, state.jobs_voided()),
        ({
            let after = state.jobs_voided();
            let item = after.items[i];
            &&& after.items.len() == state.items.len()
            &&& after.board == state.board && after.selected == state.selected
            &&& after.baseline == state.baseline && after.binding == state.binding
            &&& after.admission_revision == state.admission_revision
            &&& after.next_id == state.next_id && after.next_job == state.next_job
            &&& same_source(item, state.items[i])
            &&& item.pnp_observation == state.items[i].pnp_observation
            &&& item.admission_pnp_observation == state.items[i].admission_pnp_observation
            &&& state.items[i].status is Found || state.items[i].status is NotFound
                || state.items[i].status is Failed || state.items[i].status is Pending
                ==> item.status == state.items[i].status
            &&& !(state.items[i].status is Found || state.items[i].status is NotFound
                || state.items[i].status is Failed) ==> item.status is Pending
        }),
{
}

/// A new input becomes the last item, enabled and still to be detected; the items before it keep
/// their places, and a selection stays where it is.
pub proof fn law_added_input_comes_last(
    state: SessionState,
    input: CalibrationInputKey,
    revision: CalibrationInputRevision,
    display_name: String,
    key: Option<AutoCaptureAcquisitionKey>,
)
    ensures
        ({
            let after = state.added(input, revision, display_name, key);
            let n = state.items.len() as int;
            let item = after.items[n];
            &&& after.items.len() == n + 1
            &&& work_voided(state, after)
            &&& item.id.0 == state.next_id
            &&& item.input == input && item.revision == revision
            &&& item.display_name == display_name && item.acquisition_key == key
            &&& item.enabled && item.status is Pending
            &&& item.pnp_observation is None && item.admission_pnp_observation is None
            &&& after.selected == (if state.selected is None {
                Some(item.id)
            } else {
                state.selected
            })
            &&& state.next_id < u64::MAX ==> after.next_id == state.next_id + 1
            &&& after.next_id != state.next_id && after.next_id != 0
            &&& after.board == state.board && after.baseline == state.baseline
            &&& after.binding == state.binding
            &&& forall|i: int|
                0 <= i < n ==> same_source(#[trigger] after.items[i], state.items[i]) && (
                state.items[i].status is Found ==> after.items[i].status == state.items[i].status)
        }),
{
}

/// An input that came back changed keeps its identity, its place and whether it is enabled; nothing
/// that was found in the old revision stays, and no other item changes.
pub proof fn law_refreshed_input_starts_over(
    state: SessionState,
    i: int,
    revision: CalibrationInputRevision,
    display_name: String,
    key: Option<AutoCaptureAcquisitionKey>,
)
    requires
        0 <= i < state.items.len(),
    ensures
        ({
            let after = state.refreshed(i, revision, display_name, key);
            let item = after.items[i];
            &&& after.items.len() == state.items.len()
            &&& work_voided(state, after)
            &&& item.id == state.items[i].id && item.input == state.items[i].input
            &&& item.enabled == state.items[i].enabled
            &&& item.revision == revision && item.display_name == display_name
            &&& item.acquisition_key == key
            &&& item.status is Pending
            &&& item.pnp_observation is None && item.admission_pnp_observation is None
            &&& after.selected == state.selected && after.next_id == state.next_id
            &&& forall|j: int|
                0 <= j < state.items.len() && j != i ==> same_source(
                    #[trigger] after.items[j],
                    state.items[j],
                ) && (state.items[j].status is Found ==> after.items[j].status
                    == state.items[j].status)
        }),
{
}

/// Removing an item takes that one item out and no other. A selection on it goes to the item that
/// follows it, or else to the one before it, and to none once the dataset is empty; a selection on
/// another item stays.
pub proof fn law_removal_takes_one_item(state: SessionState, id: CalibrationItemId)
    requires
        index_of(state.items, id) is Some,
    ensures
        ({
            let after = state.removed(id);
            let i = index_of(state.items, id)->Some_0;
            let n = state.items.len() as int;
            &&& 0 <= i < n && state.items[i].id == id
            &&& after.items.len() == n - 1
            &&& work_voided(state, after)
            &&& forall|j: int|
                0 <= j < n - 1 ==> same_source(
                    #[trigger] after.items[j],
                    state.items[if j < i {
                        j
                    } else {
                        j + 1
                    }],
                )
            &&& state.selected != Some(id) ==> after.selected == state.selected
            &&& state.selected == Some(id) && n == 1 ==> after.selected is None
            &&& state.selected == Some(id) && i + 1 < n ==> after.selected == Some(
                state.items[i + 1].id,
            )
            &&& state.selected == Some(id) && n > 1 && i + 1 == n ==> after.selected == Some(
                state.items[i - 1].id,
            )
            &&& after.next_id == state.next_id && after.board == state.board
        }),
{
    lemma_index_of(state.items, id);
    let i = index_of(state.items, id)->Some_0;
    let rest = state.items.remove(i);
    let after = state.removed(id);
    assert forall|j: int| 0 <= j < state.items.len() - 1 implies same_source(
        #[trigger] after.items[j],
        state.items[if j < i {
            j
        } else {
            j + 1
        }],
    ) by {
        assert(rest[j] == state.items[if j < i {
            j
        } else {
            j + 1
        }]);
    }
}

/// A cleared session has no items and no selection, and nothing of its work is left.
pub proof fn law_cleared_session_is_empty(state: SessionState)
    ensures
        state.cleared().items.len() == 0,
        state.items.len() > 0 ==> state.cleared().selected is None && work_voided(
            state,
            state.cleared(),
        ),
        state.items.len() == 0 ==> state.cleared() == state,
        state.cleared().board == state.board && state.cleared().next_id == state.next_id,
        state.cleared().baseline == state.baseline && state.cleared().binding == state.binding,
{
}

/// A detection starts exactly where the item exists and no work is in progress on it. It changes the
/// status of that item alone, keeps what was found of its pose, and voids the solution; the token
/// names the item, its revision, the board and the epoch of the session.
pub proof fn law_detection_starts_on_idle_items(
    state: SessionState,
    id: CalibrationItemId,
    status: CalibrationItemStatus,
)
    requires
        status.busy(),
        status is ReadQueued || status is DetectQueued,
    ensures
        state.begin_fault(id) is None <==> {
            &&& exists|i: int| 0 <= i < state.items.len() && (#[trigger] state.items[i]).id == id
            &&& !state.jobs.contains_key(id.0)
            &&& !state.items[index_of(state.items, id)->Some_0].status.busy()
        },
        state.begin_fault(id) is None ==> {
            let after = state.begun(id, status);
            let i = index_of(state.items, id)->Some_0;
            let t = state.token_for(id);
            &&& 0 <= i < state.items.len() && state.items[i].id == id
            &&& after.items.len() == state.items.len()
            &&& after.items[i].status == status
            &&& same_source(after.items[i], state.items[i])
            &&& after.items[i].pnp_observation == state.items[i].pnp_observation
            &&& forall|j: int|
                0 <= j < state.items.len() && j != i ==> #[trigger] after.items[j]
                    == state.items[j]
            &&& after.jobs.contains_key(id.0) && after.jobs[id.0] == t.job_id
            &&& forall|k: u64|
                k != id.0 ==> (#[trigger] after.jobs.contains_key(k) <==> state.jobs.contains_key(k))
            &&& t.item_id == id && t.board == state.board
            &&& t.detection_epoch == state.detection_epoch
            &&& t.source_revision == state.items[i].revision
            &&& after.next_job != t.job_id
            &&& after.detection_epoch == state.detection_epoch
            &&& after.solution_revision != state.solution_revision && after.installed is None
            &&& !state.board.square_size.nan() ==> after.active_token_fault(t) is None
        },
{
    lemma_index_of(state.items, id);
    if state.begin_fault(id) is None {
        let after = state.begun(id, status);
        let i = index_of(state.items, id)->Some_0;
        lemma_index_of(after.items, id);
        let k = index_of(after.items, id)->Some_0;
        assert(after.items[i].id == id);
        assert(k == i) by {
            if k < i {
                assert(after.items[k] == state.items[k]);
            }
        }
    }
}

/// A token is taken exactly while it is the running one: the epoch and the board are still those of
/// the session, the item is there in the revision that the token names, and the job on it is the
/// token's.
pub proof fn law_only_the_running_token_is_taken(state: SessionState, t: JobTokenView)
    ensures
        state.active_token_fault(t) is None <==> {
            let i = index_of(state.items, t.item_id)->Some_0;
            &&& t.detection_epoch == state.detection_epoch
            &&& t.board.inner_cols == state.board.inner_cols
            &&& t.board.inner_rows == state.board.inner_rows
            &&& t.board.square_size.same(state.board.square_size)
            &&& exists|j: int|
                0 <= j < state.items.len() && (#[trigger] state.items[j]).id == t.item_id
            &&& state.items[i].revision@ == t.source_revision@
            &&& state.items[i].status.busy()
            &&& state.jobs.contains_key(t.item_id.0) && state.jobs[t.item_id.0] == t.job_id
        },
        t.detection_epoch != state.detection_epoch ==> state.active_token_fault(t) == Some(
            CalibrationSessionError::StaleResult,
        ),
{
    lemma_index_of(state.items, t.item_id);
}

/// A job goes through its stages one by one: only a job that waits to be read is read, only one that
/// was read waits for the detector, and only one that waits is detected. A step changes the status
/// of its item and nothing else.
pub proof fn law_stages_follow_each_other(state: SessionState, t: JobTokenView, from: JobStage, to: JobStage)
    ensures
        JobStage::ReadQueued.status() is ReadQueued,
        JobStage::Reading.status() is Reading,
        JobStage::DetectQueued.status() is DetectQueued,
        JobStage::Detecting.status() is Detecting,
        stage_fault(state, t, from) is None ==> {
            let i = index_of(state.items, t.item_id)->Some_0;
            let after = staged(state, t, to);
            &&& state.active_token_fault(t) is None
            &&& 0 <= i < state.items.len()
            &&& state.items[i].status == from.status()
            &&& after.items[i] == (CalibrationDatasetItem {
                status: to.status(),
                ..state.items[i]
            })
            &&& after == (SessionState { items: after.items, ..state })
            &&& forall|j: int|
                0 <= j < state.items.len() && j != i ==> #[trigger] after.items[j]
                    == state.items[j]
        },
        from != to ==> from.status() != to.status(),
{
    lemma_index_of(state.items, t.item_id);
}

/// What a finished job leaves: its item as it was given, every other item untouched, no job on the
/// item, every other job running, and the solution void.
pub proof fn law_ended_job_touches_its_item_alone(
    state: SessionState,
    id: CalibrationItemId,
    item: CalibrationDatasetItem,
)
    requires
        index_of(state.items, id) is Some,
    ensures
        ({
            let after = state.job_ended(id, item);
            let i = index_of(state.items, id)->Some_0;
            &&& 0 <= i < state.items.len() && state.items[i].id == id
            &&& after.items.len() == state.items.len()
            &&& after.items[i] == item
            &&& forall|j: int|
                0 <= j < state.items.len() && j != i ==> #[trigger] after.items[j]
                    == state.items[j]
            &&& !after.jobs.contains_key(id.0)
            &&& forall|k: u64|
                k != id.0 ==> (#[trigger] after.jobs.contains_key(k) <==> state.jobs.contains_key(
                    k,
                )) && (state.jobs.contains_key(k) ==> after.jobs[k] == state.jobs[k])
            &&& after.detection_epoch == state.detection_epoch
            &&& after.solution_revision != state.solution_revision && after.installed is None
            &&& after.selected == state.selected && after.board == state.board
            &&& after.admission_revision == state.admission_revision
        }),
{
    lemma_index_of(state.items, id);
}

/// A detection is taken exactly where its token is the running one, the image is still the one that
/// was looked at, and the result is usable: a board found in full with usable evidence or none, or
/// no board and no evidence. The item then shows it. A changed image sends the item back, and any
/// other refusal changes nothing.
pub proof fn law_detection_is_taken_whole_or_not(
    state: SessionState,
    t: JobTokenView,
    observed: RevisionView,
    outcome: ChessboardDetectionOutcome,
    pnp: Option<PnpEvidence>,
)
    ensures
        ({
            let (after, r) = detection_installed(state, t, observed, outcome, pnp);
            let i = index_of(state.items, t.item_id)->Some_0;
            let running = state.active_token_fault(t) is None;
            &&& !running ==> r is Err && after == state
            &&& running && observed != t.source_revision@ ==> {
                &&& r == Err::<(), CalibrationSessionError>(
                    CalibrationSessionError::SourceChanged(t.item_id),
                )
                &&& after.items[i].status is Pending
                &&& after.items[i].pnp_observation is None
                &&& after.items[i].admission_pnp_observation is None
                &&& same_source(after.items[i], state.items[i])
                &&& !after.jobs.contains_key(t.item_id.0)
            }
            &&& running && observed == t.source_revision@ && r is Err ==> after == state
            &&& r is Ok ==> {
                &&& running && observed == t.source_revision@
                &&& same_source(after.items[i], state.items[i])
                &&& after.items[i].admission_pnp_observation is None
                &&& !after.jobs.contains_key(t.item_id.0)
                &&& after.solution_revision != state.solution_revision && after.installed is None
                &&& match outcome {
                    ChessboardDetectionOutcome::Found(detection) => {
                        &&& after.items[i].status == CalibrationItemStatus::Found(detection)
                        &&& complete_view(detection.corners@, t.board)
                        &&& after.items[i].pnp_observation == (match pnp {
                            Some(evidence) => Some(evidence.observation),
                            None => None::<PnPObservation>,
                        })
                        &&& pnp matches Some(evidence) ==> evidence.observation.features(
                            t.board,
                            evidence.pose,
                        ) is Ok
                    },
                    ChessboardDetectionOutcome::NotFound { image_size } => {
                        &&& after.items[i].status == CalibrationItemStatus::NotFound { image_size }
                        &&& after.items[i].pnp_observation is None && pnp is None
                    },
                }
            }
            &&& running && observed == t.source_revision@ && pnp is None && (match outcome {
                ChessboardDetectionOutcome::Found(detection) => view_fault(
                    detection.corners@,
                    t.board,
                ) is None,
                _ => true,
            }) ==> r is Ok
            &&& forall|j: int|
                0 <= j < state.items.len() && j != i ==> #[trigger] after.items[j]
                    == state.items[j]
        }),
{
    lemma_index_of(state.items, t.item_id);
}

/// Admission is configured with a baseline and a binding that are both usable and agree on the
/// source, on the image size and with the board of the session, or with neither. What is installed
/// is what was given.
pub proof fn law_admission_needs_agreeing_parts(
    state: SessionState,
    baseline: Option<AutoCaptureBaseline>,
    binding: Option<InitialIntrinsicsBinding>,
)
    ensures
        configuration_fault(baseline, binding, state.board) is None <==> match (baseline, binding) {
            (Some(a), Some(b)) => {
                &&& a.fault() is None && b.fault() is None
                &&& a.board.inner_cols == state.board.inner_cols
                &&& a.board.inner_rows == state.board.inner_rows
                &&& a.board.square_size.same(state.board.square_size)
                &&& a.image_size == b.reference_image_size
                &&& a.acquisition_key@ == b.acquisition_key@
            },
            (None, None) => true,
            _ => false,
        },
        state.active_admission_fault() is None <==> state.baseline is Some && state.binding is Some
            && configuration_fault(state.baseline, state.binding, state.board) is None,
        state.baseline is None ==> state.active_admission_fault() == Some(
            CalibrationSessionError::RejectMissingBaseline,
        ),
        ({
            let after = state.configured(baseline, binding);
            &&& after == state || after.baseline == baseline && after.binding == binding
                && after.admission_revision != state.admission_revision
            &&& after.items == state.items && after.jobs == state.jobs
            &&& after.installed == state.installed && after.solution_revision
                == state.solution_revision
            &&& baseline is None && state.baseline is Some ==> after.baseline is None
            &&& baseline is Some && state.baseline is None ==> after.baseline == baseline
            &&& binding is Some && state.binding is None ==> after.binding == binding
        }),
{
}

/// A live image is bound exactly where its frame is not in the dataset yet, its revision is a frozen
/// image with content, and a source that comes with it is usable and of the frame's own channel.
pub proof fn law_only_new_frozen_frames_are_bound(
    state: SessionState,
    frame: StreamFrameIdentity,
    revision: CalibrationInputRevision,
    key: Option<AutoCaptureAcquisitionKey>,
)
    ensures
        bind_fault(state, frame, revision, key) is None <==> {
            &&& forall|i: int| 0 <= i < state.items.len() ==> !is_capture_of(#[trigger] state.items[i].input, frame)
            &&& revision is EphemeralPng && revision->content_sha256@.len() > 0
                && revision->encoded_bytes > 0
            &&& key matches Some(k) ==> k@.fault() is None && k.channel == frame.channel
        },
{
    let input = CalibrationInputKey::StreamCapture(
        crate::calibration::input::StreamCaptureId::of(frame),
    );
    lemma_input_index(state.items, input@);
    assert forall|i: int| 0 <= i < state.items.len() implies (is_capture_of(
        #[trigger] state.items[i].input,
        frame,
    ) <==> state.items[i].input@ == input@) by {}
}

/// Whether an input is the capture of a frame: of its stream, its channel and its number.
pub open spec fn is_capture_of(input: CalibrationInputKey, frame: StreamFrameIdentity) -> bool {
    match input {
        CalibrationInputKey::StreamCapture(capture) => capture.stream_id.value@
            == frame.stream_id.value@ && capture.channel == frame.channel && capture.frame_sequence
            == frame.frame_sequence,
        CalibrationInputKey::File(_) => false,
    }
}

/// A candidate passes only while nothing that it was bound to has changed: board, solution and
/// admission revision; its image is the one that was frozen; its frame is still new to the dataset;
/// the board was found in full; and it comes from the source that is admitted.
pub proof fn law_only_current_candidates_pass(
    state: SessionState,
    commit: AutoCandidateCommit,
    dm: DetectionMeasurement,
    pm: PnpMeasurement,
)
    ensures
        commit_fault(state, commit, dm, pm) is None ==> {
            let t = commit.token@;
            &&& t.board.inner_cols == state.board.inner_cols
            &&& t.board.inner_rows == state.board.inner_rows
            &&& t.board.square_size.same(state.board.square_size)
            &&& t.fit_manifest_revision == state.solution_revision
            &&& t.admission_revision == state.admission_revision
            &&& commit.observed_revision@ == t.source_revision@
            &&& is_capture_of(t.input, t.frame_identity)
            &&& forall|i: int|
                0 <= i < state.items.len() ==> (#[trigger] state.items[i]).input@ != t.input@
            &&& complete_view(commit.detection.corners@, t.board)
            &&& state.active_admission_fault() is None
            &&& t.source_acquisition_key is Some && t.source_acquisition_key->Some_0@
                == state.baseline->Some_0.acquisition_key@
            &&& commit.detection.image_size == state.binding->Some_0.reference_image_size
            &&& commit.pnp_observation.binding_digest == state.binding->Some_0.digest
        },
        ({
            let t = commit.token@;
            t.fit_manifest_revision != state.solution_revision || t.admission_revision
                != state.admission_revision || t.board.inner_cols != state.board.inner_cols
                || t.board.inner_rows != state.board.inner_rows ==> commit_fault(
                state,
                commit,
                dm,
                pm,
            ) == Some(CalibrationSessionError::StaleAutoCandidate)
        }),
{
    lemma_input_index(state.items, commit.token@.input@);
}

/// A committed candidate is the last item: enabled, found with its own corners, selected, from its
/// own source, and with its evidence both as it was admitted and under the digest of the dataset.
/// The items before it and the running jobs stay.
pub proof fn law_committed_candidate_comes_last(state: SessionState, commit: AutoCandidateCommit)
    ensures
        ({
            let after = committed(state, commit);
            let n = state.items.len() as int;
            let item = after.items[n];
            let t = commit.token@;
            &&& after.items.len() == n + 1
            &&& after.items.take(n) == state.items
            &&& item.id.0 == state.next_id && after.selected == Some(item.id)
            &&& item.enabled
            &&& item.status == CalibrationItemStatus::Found(commit.detection)
            &&& item.input == t.input && item.revision == t.source_revision
            &&& item.display_name == t.display_name
            &&& item.acquisition_key == t.source_acquisition_key
            &&& item.admission_pnp_observation == Some(commit.pnp_observation)
            &&& item.pnp_observation is Some
            &&& item.pnp_observation->Some_0.binding_digest == dataset_digest(
                state.binding->Some_0.initial_intrinsics,
                commit.detection.image_size,
            )
            &&& item.pnp_observation->Some_0.rotation_vector
                == commit.pnp_observation.rotation_vector
            &&& item.pnp_observation->Some_0.translation_vector
                == commit.pnp_observation.translation_vector
            &&& item.pnp_observation->Some_0.reprojection_rmse
                == commit.pnp_observation.reprojection_rmse
            &&& item.pnp_observation->Some_0.max_reprojection_error
                == commit.pnp_observation.max_reprojection_error
            &&& after.jobs == state.jobs && after.detection_epoch == state.detection_epoch
            &&& after.solution_revision != state.solution_revision && after.installed is None
            &&& after.admission_revision == state.admission_revision
            &&& after.baseline == state.baseline && after.binding == state.binding
            &&& after.next_id != state.next_id
        }),
{
    let after = committed(state, commit);
    assert(after.items.take(state.items.len() as int) =~= state.items);
}

/// Another baseline or another binding takes effect, and the candidates of the earlier ones are void;
/// the same two again change nothing.
pub proof fn law_other_evidence_takes_effect(
    state: SessionState,
    baseline: Option<AutoCaptureBaseline>,
    binding: Option<InitialIntrinsicsBinding>,
)
    ensures
        ({
            let after = state.configured(baseline, binding);
            let taken = after.baseline == baseline && after.binding == binding
                && after.admission_revision != state.admission_revision;
            &&& (state.baseline is Some != baseline is Some) || (state.binding is Some != binding
                is Some) ==> taken
            &&& state.baseline is Some && baseline is Some && (state.baseline->Some_0.digest
                != baseline->Some_0.digest || state.baseline->Some_0.image_size
                != baseline->Some_0.image_size || state.baseline->Some_0.acquisition_key@
                != baseline->Some_0.acquisition_key@ || !state.baseline->Some_0.board.same(
                baseline->Some_0.board,
            ) || !state.baseline->Some_0.criteria.same(baseline->Some_0.criteria)) ==> taken
            &&& state.binding is Some && binding is Some && (state.binding->Some_0.digest
                != binding->Some_0.digest || state.binding->Some_0.reference_image_size
                != binding->Some_0.reference_image_size || state.binding->Some_0.crop
                != binding->Some_0.crop || state.binding->Some_0.acquisition_key@
                != binding->Some_0.acquisition_key@) ==> taken
            &&& state.baseline is None && baseline is None && state.binding is None && binding is None
                ==> after == state
        }),
{
}

/// A session starts with its board and nothing else.
pub proof fn law_fresh_session_holds_its_board_alone(board: BoardSpec)
    ensures
        ({
            let state = SessionState::fresh(board);
            &&& state.board == board
            &&& state.items.len() == 0 && state.selected is None && state.installed is None
            &&& state.baseline is None && state.binding is None
            &&& forall|k: u64| !(#[trigger] state.jobs.contains_key(k))
            &&& state.next_id > 0 && state.next_job > 0
        }),
{
}

/// The gain of a candidate is what it adds to the filled part of each quota over the items that the
/// same baseline and binding admit.
pub proof fn law_commit_gains_over_the_admitted_items(
    state: SessionState,
    ms: Seq<ItemMeasurement>,
    commit: AutoCandidateCommit,
    dm: DetectionMeasurement,
    pm: PnpMeasurement,
    covers: Seq<CoverageView>,
    cover: CoverageView,
    c: AutoCaptureAcceptanceCriteria,
)
    requires
        state.baseline is Some && state.baseline->Some_0.criteria == c,
        state.binding is Some,
        covers == admission_covers(
            state.items,
            ms,
            state.board,
            state.baseline->Some_0,
            state.binding->Some_0,
        ),
        Ok::<CoverageView, CalibrationSessionError>(cover) == candidate_cover(
            commit.detection,
            commit.pnp_observation,
            dm,
            pm,
            state.board,
            state.baseline->Some_0,
            state.binding->Some_0,
        ),
        c.fault() is None,
        all_fit(covers, c),
        cover.fits(c),
    ensures
        ({
            let gain = commit_gain(state, ms, commit, dm, pm);
            let after = covers.push(cover);
            let cells = (c.field_columns * c.field_rows) as nat;
            let bins = c.pnp_depth_bins as nat;
            &&& gain.field == capped_total(field_after(after, cells), c.field_target_per_cell)
                - capped_total(field_after(covers, cells), c.field_target_per_cell)
            &&& gain.depth == capped_total(depth_after(after, bins), c.depth_target_per_bin)
                - capped_total(depth_after(covers, bins), c.depth_target_per_bin)
            &&& gain.pose == capped_total(
                pose_after(after, c.pose_bins() as nat),
                c.pose_target_per_bin,
            ) - capped_total(pose_after(covers, c.pose_bins() as nat), c.pose_target_per_bin)
        }),
{
    law_candidate_gain_is_growth(covers, cover, c);
}

/// A detection that cannot start is refused for what stands against it: a job that runs for the item,
/// an item that is not there, or one that is busy.
pub proof fn law_refused_starts_say_why(state: SessionState, id: CalibrationItemId)
    ensures
        state.jobs.contains_key(id.0) ==> state.begin_fault(id) == Some(
            CalibrationSessionError::ItemBusy(id),
        ),
        !state.jobs.contains_key(id.0) && (forall|i: int|
            0 <= i < state.items.len() ==> (#[trigger] state.items[i]).id != id)
            ==> state.begin_fault(id) == Some(CalibrationSessionError::UnknownItem(id)),
        state.begin_fault(id) matches Some(CalibrationSessionError::UnknownItem(unknown)) ==> unknown
            == id && forall|i: int|
            0 <= i < state.items.len() ==> (#[trigger] state.items[i]).id != id,
{
    lemma_index_of(state.items, id);
}

/// A result is refused for what changed since its job started: the epoch or the board, the item, or
/// its revision.
pub proof fn law_refused_results_say_why(state: SessionState, t: JobTokenView, i: int)
    requires
        0 <= i < state.items.len(),
        forall|j: int, k: int|
            0 <= j < k < state.items.len() ==> (#[trigger] state.items[j]).id != (
            #[trigger] state.items[k]).id,
    ensures
        !t.board.same(state.board) ==> state.token_fault(t) == Some(
            CalibrationSessionError::StaleResult,
        ),
        t.detection_epoch == state.detection_epoch && t.board.same(state.board) && (forall|j: int|
            0 <= j < state.items.len() ==> (#[trigger] state.items[j]).id != t.item_id)
            ==> state.token_fault(t) == Some(CalibrationSessionError::UnknownItem(t.item_id)),
        t.detection_epoch == state.detection_epoch && t.board.same(state.board) && state.items[i].id
            == t.item_id && state.items[i].revision@ != t.source_revision@ ==> state.token_fault(t)
            == Some(CalibrationSessionError::SourceChanged(t.item_id)),
{
    lemma_index_of(state.items, t.item_id);
    if state.items[i].id == t.item_id {
        let at = index_of(state.items, t.item_id)->Some_0;
        if at < i {
            assert(state.items[at].id != state.items[i].id);
        } else if i < at {
            assert(state.items[i].id != state.items[at].id);
        }
    }
}

/// A frame that cannot be bound is refused for being there already before its image is looked at, and
/// a candidate of another source for its channel.
pub proof fn law_refused_frames_say_why(
    state: SessionState,
    frame: StreamFrameIdentity,
    revision: CalibrationInputRevision,
    key: Option<AutoCaptureAcquisitionKey>,
)
    ensures
        (exists|i: int|
            0 <= i < state.items.len() && is_capture_of(#[trigger] state.items[i].input, frame))
            ==> bind_fault(state, frame, revision, key) == Some(
            CalibrationSessionError::AutoCandidateAlreadyPresent,
        ),
        (forall|i: int|
            0 <= i < state.items.len() ==> !is_capture_of(#[trigger] state.items[i].input, frame))
            && !(revision is EphemeralPng) ==> bind_fault(state, frame, revision, key) == Some(
            CalibrationSessionError::InvalidAutoCandidateRevision,
        ),
{
    let input = CalibrationInputKey::StreamCapture(
        crate::calibration::input::StreamCaptureId::of(frame),
    );
    lemma_input_index(state.items, input@);
}

} // verus!
