//! Laws of the session and of the assessment that span several operations.
use crate::calibration::admission::{
    AutoCaptureAcceptanceCriteria, AutoCaptureAcquisitionKey, AutoCaptureBaseline,
    InitialIntrinsicsBinding,
};
use crate::calibration::assess::{
    all_fit, contribution_at, contributions, depth_after, field_after, gain_over, lemma_after_len,
    pose_after, totals, AutoAdmissionAssessment, AutoAdmissionItemContribution, CoverageView,
    DetectionMeasurement,
};
use crate::calibration::coverage::{
    capped_total, lemma_capped_total_within_quota, lemma_gain_is_growth, lemma_quota_filled, zeros,
};
use crate::calibration::error::CalibrationSessionError;
use crate::calibration::input::{CalibrationInputKey, CalibrationInputRevision, CalibrationItemId};
use crate::calibration::item::{CalibrationDatasetItem, CalibrationItemStatus};
use crate::calibration::pnp::PnpMeasurement;
use crate::calibration::session::{
    commit_fault, committed, idle_item, index_of, input_index, lemma_index_of, lemma_input_index,
    reboarded_item, reset_item, staged, AutoCandidateCommit, JobStage, JobTokenView, SessionState,
};
use crate::model::BoardSpec;
use vstd::prelude::*;

verus! {

/// The sum of the field gains of some contributions.
pub open spec fn field_gain_sum(list: Seq<AutoAdmissionItemContribution>) -> nat
    decreases list.len(),
{
    if list.len() == 0 {
        0
    } else {
        field_gain_sum(list.drop_last()) + list.last().gain.field as nat
    }
}

/// The sum of the depth gains of some contributions.
pub open spec fn depth_gain_sum(list: Seq<AutoAdmissionItemContribution>) -> nat
    decreases list.len(),
{
    if list.len() == 0 {
        0
    } else {
        depth_gain_sum(list.drop_last()) + list.last().gain.depth as nat
    }
}

/// The sum of the pose gains of some contributions.
pub open spec fn pose_gain_sum(list: Seq<AutoAdmissionItemContribution>) -> nat
    decreases list.len(),
{
    if list.len() == 0 {
        0
    } else {
        pose_gain_sum(list.drop_last()) + list.last().gain.pose as nat
    }
}

proof fn lemma_zero_total(n: nat, target: usize)
    ensures
        capped_total(zeros(n), target) == 0,
    decreases n,
{
    if n > 0 {
        assert(zeros(n).drop_last() =~= zeros((n - 1) as nat));
        lemma_zero_total((n - 1) as nat, target);
    }
}

proof fn lemma_quota_fits(c: AutoCaptureAcceptanceCriteria)
    requires
        c.fault() is None,
    ensures
        1 <= c.cells(),
        1 <= c.pose_bins(),
        c.cells() * c.field_target_per_cell <= usize::MAX,
        c.pnp_depth_bins * c.depth_target_per_bin <= usize::MAX,
        c.pose_bins() * c.pose_target_per_bin <= usize::MAX,
{
    let cols = c.field_columns as int;
    let rows = c.field_rows as int;
    assert(1 <= cols * rows) by (nonlinear_arith)
        requires
            1 <= cols,
            1 <= rows,
    ;
    let t = c.pnp_tilt_bins as int;
    let s = c.pnp_azimuth_sectors as int;
    assert(1 <= t * s) by (nonlinear_arith)
        requires
            1 <= t,
            1 <= s,
    ;
}

/// No gain is lost or counted twice: the gains that are attributed to the items of a dataset add
/// up to the part of each quota that the dataset fills, and never exceed the quota.
pub proof fn law_gains_fill_the_quota(covers: Seq<CoverageView>, c: AutoCaptureAcceptanceCriteria)
    requires
        c.fault() is None,
        all_fit(covers, c),
    ensures
        field_gain_sum(contributions(covers, c)) == capped_total(
            field_after(covers, c.cells() as nat),
            c.field_target_per_cell,
        ) <= c.cells() * c.field_target_per_cell,
        depth_gain_sum(contributions(covers, c)) == capped_total(
            depth_after(covers, c.pnp_depth_bins as nat),
            c.depth_target_per_bin,
        ) <= c.pnp_depth_bins * c.depth_target_per_bin,
        pose_gain_sum(contributions(covers, c)) == capped_total(
            pose_after(covers, c.pose_bins() as nat),
            c.pose_target_per_bin,
        ) <= c.pose_bins() * c.pose_target_per_bin,
    decreases covers.len(),
{
    lemma_quota_fits(c);
    lemma_after_len(covers, c);
    let field = field_after(covers, c.cells() as nat);
    let depth = depth_after(covers, c.pnp_depth_bins as nat);
    let pose = pose_after(covers, c.pose_bins() as nat);
    lemma_capped_total_within_quota(field, c.field_target_per_cell);
    lemma_capped_total_within_quota(depth, c.depth_target_per_bin);
    lemma_capped_total_within_quota(pose, c.pose_target_per_bin);
    if covers.len() == 0 {
        lemma_zero_total(c.cells() as nat, c.field_target_per_cell);
        lemma_zero_total(c.pnp_depth_bins as nat, c.depth_target_per_bin);
        lemma_zero_total(c.pose_bins() as nat, c.pose_target_per_bin);
    } else {
        let earlier = covers.drop_last();
        let last = covers.last();
        assert(all_fit(earlier, c)) by {
            assert forall|i: int| 0 <= i < earlier.len() implies (#[trigger] earlier[i]).fits(c) by {
                assert(earlier[i] == covers[i]);
            }
        }
        assert(last.fits(c)) by {
            assert(last == covers[covers.len() - 1]);
        }
        law_gains_fill_the_quota(earlier, c);
        lemma_after_len(earlier, c);
        let all = contributions(covers, c);
        assert forall|i: int| 0 <= i < earlier.len() implies all[i] == contributions(
            earlier,
            c,
        )[i] by {
            assert(covers.take(i) =~= earlier.take(i));
        }
        assert(all.drop_last() =~= contributions(earlier, c));
        assert(covers.take(covers.len() - 1) =~= earlier);
        assert(all.last() == contribution_at(covers, covers.len() - 1, c));
        lemma_gain_is_growth(
            field_after(earlier, c.cells() as nat),
            c.field_target_per_cell,
            last.field,
        );
        lemma_gain_is_growth(
            depth_after(earlier, c.pnp_depth_bins as nat),
            c.depth_target_per_bin,
            last.depth,
        );
        lemma_gain_is_growth(
            pose_after(earlier, c.pose_bins() as nat),
            c.pose_target_per_bin,
            last.pose(),
        );
    }
}

/// A target is met exactly when every region has collected its share: no region can make up for
/// another.
pub proof fn law_targets_need_every_region(
    a: AutoAdmissionAssessment,
    c: AutoCaptureAcceptanceCriteria,
    covers: Seq<CoverageView>,
)
    requires
        c.fault() is None,
        all_fit(covers, c),
        totals(a, c, covers),
    ensures
        a.field_target_met <==> (forall|i: int|
            0 <= i < a.field_counts@.len() ==> #[trigger] a.field_counts@[i]
                >= c.field_target_per_cell),
        a.depth_target_met <==> (forall|i: int|
            0 <= i < a.depth_bin_counts@.len() ==> #[trigger] a.depth_bin_counts@[i]
                >= c.depth_target_per_bin),
        a.pose_target_met <==> (forall|i: int|
            0 <= i < a.pose_bin_counts@.len() ==> #[trigger] a.pose_bin_counts@[i]
                >= c.pose_target_per_bin),
{
    lemma_quota_fits(c);
    lemma_after_len(covers, c);
    lemma_capped_total_within_quota(a.field_counts@, c.field_target_per_cell);
    lemma_capped_total_within_quota(a.depth_bin_counts@, c.depth_target_per_bin);
    lemma_capped_total_within_quota(a.pose_bin_counts@, c.pose_target_per_bin);
    lemma_quota_filled(a.field_counts@, c.field_target_per_cell);
    lemma_quota_filled(a.depth_bin_counts@, c.depth_target_per_bin);
    lemma_quota_filled(a.pose_bin_counts@, c.pose_target_per_bin);
}

/// The gain of a candidate is exactly what it adds to the filled part of each quota.
pub proof fn law_candidate_gain_is_growth(
    covers: Seq<CoverageView>,
    cover: CoverageView,
    c: AutoCaptureAcceptanceCriteria,
)
    requires
        c.fault() is None,
        all_fit(covers, c),
        cover.fits(c),
    ensures
        ({
            let gain = gain_over(covers, cover, c);
            let after = covers.push(cover);
            &&& gain.field == capped_total(
                field_after(after, c.cells() as nat),
                c.field_target_per_cell,
            ) - capped_total(field_after(covers, c.cells() as nat), c.field_target_per_cell)
            &&& gain.depth == capped_total(
                depth_after(after, c.pnp_depth_bins as nat),
                c.depth_target_per_bin,
            ) - capped_total(depth_after(covers, c.pnp_depth_bins as nat), c.depth_target_per_bin)
            &&& gain.pose == capped_total(
                pose_after(after, c.pose_bins() as nat),
                c.pose_target_per_bin,
            ) - capped_total(pose_after(covers, c.pose_bins() as nat), c.pose_target_per_bin)
        }),
{
    let after = covers.push(cover);
    assert(all_fit(after, c)) by {
        assert forall|i: int| 0 <= i < after.len() implies (#[trigger] after[i]).fits(c) by {
            if i < covers.len() {
                assert(after[i] == covers[i]);
            }
        }
    }
    assert(after.drop_last() =~= covers);
    assert(after.last() == cover);
    lemma_quota_fits(c);
    lemma_after_len(covers, c);
    lemma_after_len(after, c);
    lemma_capped_total_within_quota(
        field_after(after, c.cells() as nat),
        c.field_target_per_cell,
    );
    lemma_capped_total_within_quota(
        depth_after(after, c.pnp_depth_bins as nat),
        c.depth_target_per_bin,
    );
    lemma_capped_total_within_quota(pose_after(after, c.pose_bins() as nat), c.pose_target_per_bin);
    lemma_gain_is_growth(field_after(covers, c.cells() as nat), c.field_target_per_cell, cover.field);
    lemma_gain_is_growth(
        depth_after(covers, c.pnp_depth_bins as nat),
        c.depth_target_per_bin,
        cover.depth,
    );
    lemma_gain_is_growth(
        pose_after(covers, c.pose_bins() as nat),
        c.pose_target_per_bin,
        cover.pose(),
    );
}

/// Once jobs are voided, every token of the voided epoch is refused as stale.
pub proof fn law_voided_tokens_are_stale(state: SessionState, t: JobTokenView)
    requires
        t.detection_epoch == state.detection_epoch,
    ensures
        state.jobs_voided().active_token_fault(t) == Some(CalibrationSessionError::StaleResult),
{
}

/// A job reports once: after it has ended, its token is refused.
pub proof fn law_ended_job_is_refused(
    state: SessionState,
    t: JobTokenView,
    item: CalibrationDatasetItem,
)
    requires
        state.active_token_fault(t) is None,
        item.id == t.item_id,
    ensures
        state.job_ended(t.item_id, item).active_token_fault(t) is Some,
{
    let after = state.job_ended(t.item_id, item);
    assert(!after.jobs.contains_key(t.item_id.0));
}

/// Committing a candidate leaves every running detection job its right to report.
pub proof fn law_commit_keeps_detection_jobs(
    state: SessionState,
    commit: AutoCandidateCommit,
    t: JobTokenView,
)
    requires
        state.active_token_fault(t) is None,
    ensures
        committed(state, commit).active_token_fault(t) is None,
{
    let after = committed(state, commit);
    let i = index_of(state.items, t.item_id)->Some_0;
    lemma_index_of(state.items, t.item_id);
    lemma_index_of(after.items, t.item_id);
    assert(after.items[i] == state.items[i]);
    assert forall|j: int| 0 <= j < i implies (#[trigger] after.items[j]).id != t.item_id by {
        assert(after.items[j] == state.items[j]);
    }
    let k = index_of(after.items, t.item_id)->Some_0;
    assert(k == i) by {
        if k < i {
            assert(after.items[k].id == t.item_id);
        }
    }
}

/// A committed candidate voids every other candidate that was bound before it.
pub proof fn law_commit_voids_other_candidates(
    state: SessionState,
    first: AutoCandidateCommit,
    second: AutoCandidateCommit,
    dm: DetectionMeasurement,
    pm: PnpMeasurement,
)
    requires
        second.token@.fit_manifest_revision == state.solution_revision,
    ensures
        commit_fault(committed(state, first), second, dm, pm) == Some(
            CalibrationSessionError::StaleAutoCandidate,
        ),
{
}

/// A snapshot is refused as stale once anything has voided the solution.
pub proof fn law_snapshots_age(state: SessionState)
    ensures
        state.solution_voided().solution_revision != state.solution_revision,
        state.solution_voided().installed is None,
        state.jobs_voided().solution_revision != state.solution_revision,
        state.jobs_voided().installed is None,
{
}

/// Configuring admission anew voids the candidates that were bound under the old configuration,
/// and configuring what is already active does not.
pub proof fn law_reconfiguration_voids_candidates(
    state: SessionState,
    baseline: Option<AutoCaptureBaseline>,
    binding: Option<InitialIntrinsicsBinding>,
)
    ensures
        state.configured(baseline, binding) == state || state.configured(
            baseline,
            binding,
        ).admission_revision != state.admission_revision,
        state.configured(baseline, binding).items == state.items,
        state.configured(baseline, binding).jobs == state.jobs,
        state.configured(baseline, binding).solution_revision == state.solution_revision,
{
}

impl SessionState {
    /// The session's own consistency: identities are fresh and unique, no input is present twice,
    /// exactly the busy items have a running job, and there is a selection exactly when there are
    /// items.
    pub open spec fn consistent(self) -> bool {
        &&& forall|i: int|
            0 <= i < self.items.len() ==> 1 <= (#[trigger] self.items[i]).id.0 < self.next_id
        &&& forall|i: int, j: int|
            0 <= i < j < self.items.len() ==> (#[trigger] self.items[i]).id != (
            #[trigger] self.items[j]).id
        &&& forall|i: int, j: int|
            0 <= i < j < self.items.len() ==> (#[trigger] self.items[i]).input@ != (
            #[trigger] self.items[j]).input@
        &&& forall|i: int|
            0 <= i < self.items.len() ==> ((#[trigger] self.items[i]).status.busy()
                <==> self.jobs.contains_key(self.items[i].id.0))
        &&& forall|k: u64| #[trigger] self.jobs.contains_key(k) ==> has_id(self.items, k)
        &&& match self.selected {
            Some(id) => has_id(self.items, id.0),
            None => self.items.len() == 0,
        }
    }
}

/// Whether some item has the given identity.
pub open spec fn has_id(items: Seq<CalibrationDatasetItem>, id: u64) -> bool {
    exists|i: int| 0 <= i < items.len() && (#[trigger] items[i]).id.0 == id
}

/// Whether two datasets agree item by item on identity and input.
spec fn same_members(a: Seq<CalibrationDatasetItem>, b: Seq<CalibrationDatasetItem>) -> bool {
    a.len() == b.len() && forall|i: int|
        0 <= i < a.len() ==> (#[trigger] a[i]).id == b[i].id && a[i].input == b[i].input
}

proof fn lemma_same_members_has_id(
    a: Seq<CalibrationDatasetItem>,
    b: Seq<CalibrationDatasetItem>,
    id: u64,
)
    requires
        same_members(a, b),
        has_id(b, id),
    ensures
        has_id(a, id),
{
    let i = choose|i: int| 0 <= i < b.len() && (#[trigger] b[i]).id.0 == id;
    assert(a[i].id == b[i].id);
}

/// A consistent state stays consistent when its jobs are voided after items have changed without
/// changing identity or input.
proof fn lemma_consistent_after_voiding(before: SessionState, after: SessionState)
    requires
        before.consistent(),
        same_members(after.items, before.items),
        after.next_id == before.next_id,
        after.selected == before.selected,
    ensures
        after.jobs_voided().consistent(),
{
    let end = after.jobs_voided();
    assert forall|i: int| 0 <= i < end.items.len() implies {
        &&& (#[trigger] end.items[i]).id == before.items[i].id
        &&& end.items[i].input == before.items[i].input
        &&& !end.items[i].status.busy()
    } by {
        assert(end.items[i] == idle_item(after.items[i]));
        assert(after.items[i].id == before.items[i].id);
    }
    assert(same_members(end.items, before.items));
    match before.selected {
        Some(id) => {
            lemma_same_members_has_id(end.items, before.items, id.0);
        },
        None => {},
    }
}

/// A new session is consistent.
pub proof fn law_fresh_session_is_consistent(board: BoardSpec)
    ensures
        SessionState::fresh(board).consistent(),
{
}

/// Adding an input that is not present keeps the session consistent, as long as identities last.
pub proof fn law_adding_keeps_consistency(
    state: SessionState,
    input: CalibrationInputKey,
    revision: CalibrationInputRevision,
    display_name: String,
    key: Option<AutoCaptureAcquisitionKey>,
)
    requires
        state.consistent(),
        input_index(state.items, input@) is None,
        1 <= state.next_id < u64::MAX,
    ensures
        state.added(input, revision, display_name, key).consistent(),
{
    let end = state.added(input, revision, display_name, key);
    lemma_input_index(state.items, input@);
    let n = state.items.len() as int;
    assert(end.items.len() == n + 1);
    assert forall|i: int| 0 <= i < n implies {
        &&& (#[trigger] end.items[i]).id == state.items[i].id
        &&& end.items[i].input == state.items[i].input
        &&& !end.items[i].status.busy()
    } by {
        assert(end.items[i] == idle_item(state.items[i]));
    }
    assert(end.items[n].id.0 == state.next_id);
    match state.selected {
        Some(id) => {
            let i = choose|i: int| 0 <= i < state.items.len() && (#[trigger] state.items[i]).id.0
                == id.0;
            assert(end.items[i].id.0 == id.0);
        },
        None => {
            assert(end.items[n].id.0 == state.next_id);
        },
    }
}

/// Refreshing an input keeps the session consistent.
pub proof fn law_refreshing_keeps_consistency(
    state: SessionState,
    i: int,
    revision: CalibrationInputRevision,
    display_name: String,
    key: Option<AutoCaptureAcquisitionKey>,
)
    requires
        state.consistent(),
        0 <= i < state.items.len(),
    ensures
        state.refreshed(i, revision, display_name, key).consistent(),
{
    let after = state.with_item(
        i,
        CalibrationDatasetItem {
            revision,
            display_name,
            acquisition_key: key,
            ..reset_item(state.items[i])
        },
    );
    lemma_consistent_after_voiding(state, after);
}

/// Removing an item keeps the session consistent.
pub proof fn law_removing_keeps_consistency(state: SessionState, id: CalibrationItemId)
    requires
        state.consistent(),
        index_of(state.items, id) is Some,
    ensures
        state.removed(id).consistent(),
{
    lemma_index_of(state.items, id);
    let i = index_of(state.items, id)->Some_0;
    let rest = state.items.remove(i);
    let end = state.removed(id);
    assert forall|j: int| 0 <= j < rest.len() implies {
        &&& (#[trigger] end.items[j]).id == state.items[if j < i { j } else { j + 1 }].id
        &&& end.items[j].input == state.items[if j < i { j } else { j + 1 }].input
        &&& !end.items[j].status.busy()
    } by {
        assert(end.items[j] == idle_item(rest[j]));
        assert(rest[j] == state.items[if j < i { j } else { j + 1 }]);
    }
    if state.selected == Some(id) {
        if rest.len() > 0 {
            let at = if i < rest.len() {
                i
            } else {
                rest.len() - 1
            };
            assert(end.items[at] == idle_item(rest[at]));
        }
    } else {
        match state.selected {
            Some(selected) => {
                let k = choose|k: int|
                    0 <= k < state.items.len() && (#[trigger] state.items[k]).id.0 == selected.0;
                assert(state.items[k].id == selected);
                let at = if k < i {
                    k
                } else {
                    k - 1
                };
                assert(end.items[at].id == state.items[k].id);
            },
            None => {},
        }
    }
}

/// Clearing the dataset keeps the session consistent.
pub proof fn law_clearing_keeps_consistency(state: SessionState)
    requires
        state.consistent(),
    ensures
        state.cleared().consistent(),
{
}

/// Changing the board keeps the session consistent.
pub proof fn law_reboarding_keeps_consistency(state: SessionState, board: BoardSpec)
    requires
        state.consistent(),
    ensures
        state.reboarded(board).consistent(),
{
    let layout_changed = state.board.inner_cols != board.inner_cols || state.board.inner_rows
        != board.inner_rows;
    let after = SessionState {
        board,
        baseline: None,
        binding: None,
        items: state.items.map_values(
            |item: CalibrationDatasetItem| reboarded_item(item, layout_changed),
        ),
        ..state
    }.candidates_voided();
    assert(same_members(after.items, state.items));
    lemma_consistent_after_voiding(state, after);
}

/// Resetting detections keeps the session consistent.
pub proof fn law_resetting_keeps_consistency(state: SessionState)
    requires
        state.consistent(),
    ensures
        state.detections_reset().consistent(),
{
    let after = SessionState {
        items: state.items.map_values(|item: CalibrationDatasetItem| reset_item(item)),
        ..state
    };
    assert(same_members(after.items, state.items));
    lemma_consistent_after_voiding(state, after);
}

proof fn lemma_with_members(state: SessionState, i: int, item: CalibrationDatasetItem)
    requires
        0 <= i < state.items.len(),
        item.id == state.items[i].id,
        item.input == state.items[i].input,
    ensures
        same_members(state.with_item(i, item).items, state.items),
{
}

/// Starting a detection keeps the session consistent.
pub proof fn law_beginning_keeps_consistency(
    state: SessionState,
    id: CalibrationItemId,
    status: CalibrationItemStatus,
)
    requires
        state.consistent(),
        state.begin_fault(id) is None,
        status.busy(),
    ensures
        state.begun(id, status).consistent(),
{
    lemma_index_of(state.items, id);
    let i = index_of(state.items, id)->Some_0;
    let end = state.begun(id, status);
    lemma_with_members(state, i, CalibrationDatasetItem { status, ..state.items[i] });
    assert(same_members(end.items, state.items));
    assert forall|k: u64| #[trigger] end.jobs.contains_key(k) implies has_id(end.items, k) by {
        if k == id.0 {
            assert(end.items[i].id.0 == k);
        } else {
            assert(state.jobs.contains_key(k));
            lemma_same_members_has_id(end.items, state.items, k);
        }
    }
    assert forall|j: int| 0 <= j < end.items.len() implies ((#[trigger] end.items[j]).status.busy()
        <==> end.jobs.contains_key(end.items[j].id.0)) by {
        assert(end.items[j].id == state.items[j].id);
        if j != i {
            assert(end.items[j] == state.items[j]);
            if j < i {
                assert(state.items[j].id != state.items[i].id);
            } else {
                assert(state.items[i].id != state.items[j].id);
            }
        }
    }
    match state.selected {
        Some(selected) => {
            lemma_same_members_has_id(end.items, state.items, selected.0);
        },
        None => {},
    }
}

/// Moving a job to another stage keeps the session consistent.
pub proof fn law_staging_keeps_consistency(state: SessionState, t: JobTokenView, to: JobStage)
    requires
        state.consistent(),
        state.active_token_fault(t) is None,
    ensures
        staged(state, t, to).consistent(),
{
    lemma_index_of(state.items, t.item_id);
    let i = index_of(state.items, t.item_id)->Some_0;
    let end = staged(state, t, to);
    lemma_with_members(state, i, CalibrationDatasetItem { status: to.status(), ..state.items[i] });
    assert forall|k: u64| #[trigger] end.jobs.contains_key(k) implies has_id(end.items, k) by {
        assert(state.jobs.contains_key(k));
        lemma_same_members_has_id(end.items, state.items, k);
    }
    match state.selected {
        Some(selected) => {
            lemma_same_members_has_id(end.items, state.items, selected.0);
        },
        None => {},
    }
}

/// Ending a job keeps the session consistent, whatever result it leaves.
pub proof fn law_ending_keeps_consistency(
    state: SessionState,
    t: JobTokenView,
    item: CalibrationDatasetItem,
)
    requires
        state.consistent(),
        state.active_token_fault(t) is None,
        item.id == state.item(t.item_id).id,
        item.input == state.item(t.item_id).input,
        !item.status.busy(),
    ensures
        state.job_ended(t.item_id, item).consistent(),
{
    lemma_index_of(state.items, t.item_id);
    let i = index_of(state.items, t.item_id)->Some_0;
    let end = state.job_ended(t.item_id, item);
    lemma_with_members(state, i, item);
    assert(same_members(end.items, state.items));
    assert forall|k: u64| #[trigger] end.jobs.contains_key(k) implies has_id(end.items, k) by {
        assert(state.jobs.contains_key(k));
        lemma_same_members_has_id(end.items, state.items, k);
    }
    assert forall|j: int| 0 <= j < end.items.len() implies ((#[trigger] end.items[j]).status.busy()
        <==> end.jobs.contains_key(end.items[j].id.0)) by {
        assert(end.items[j].id == state.items[j].id);
        if j != i {
            assert(end.items[j] == state.items[j]);
            if j < i {
                assert(state.items[j].id != state.items[i].id);
            } else {
                assert(state.items[i].id != state.items[j].id);
            }
        }
    }
    match state.selected {
        Some(selected) => {
            lemma_same_members_has_id(end.items, state.items, selected.0);
        },
        None => {},
    }
}

/// Committing a candidate keeps the session consistent, as long as identities last.
pub proof fn law_committing_keeps_consistency(
    state: SessionState,
    commit: AutoCandidateCommit,
    dm: DetectionMeasurement,
    pm: PnpMeasurement,
)
    requires
        state.consistent(),
        commit_fault(state, commit, dm, pm) is None,
        1 <= state.next_id < u64::MAX,
    ensures
        committed(state, commit).consistent(),
{
    let end = committed(state, commit);
    let n = state.items.len() as int;
    lemma_input_index(state.items, commit.token@.input@);
    assert forall|i: int| 0 <= i < n implies #[trigger] end.items[i] == state.items[i] by {}
    assert(end.items[n].id.0 == state.next_id);
    assert forall|k: u64| #[trigger] end.jobs.contains_key(k) implies has_id(end.items, k) by {
        assert(state.jobs.contains_key(k));
        let i = choose|i: int| 0 <= i < state.items.len() && (#[trigger] state.items[i]).id.0 == k;
        assert(end.items[i].id.0 == k);
    }
    assert(!end.jobs.contains_key(state.next_id)) by {
        if state.jobs.contains_key(state.next_id) {
            assert(has_id(state.items, state.next_id));
        }
    }
}

} // verus!
