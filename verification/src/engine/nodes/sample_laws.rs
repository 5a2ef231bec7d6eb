//! Laws of the nodes that collect samples: how settings are read, when a frame is captured, what a
//! collector keeps, and what a dataset covers.
use crate::engine::dataset::{DatasetSampleAcceptance, DatasetSampleScore, DatasetView, SampleView};
use crate::engine::node::NodeErrorView;
use crate::engine::nodes::capture_logic::{
    after_signal, builder_fault, built_request, capture_mode, capture_target, expected_corners,
    gated, hold_count, hold_step, scored, source_fault, threshold, HoldState,
};
use crate::engine::nodes::collector::{
    frame_index, id_index, lemma_frame_index, lemma_id_index, most_samples, taken_in,
    CollectorState,
};
use crate::engine::nodes::composite::{
    cell_at, coverage_tree, dataset_fault, first_missing, geometries_fault, geometry_fault, grid,
    missing_cells, occupied_cells, on_grid, overlay_tree, provenance_sequence, sample_fault,
    samples_fault, target_tree, with_overlay, GridCell, GridCoverage,
};
use crate::engine::nodes::config::{
    bool_or, filled_text, real_or, strict_real, strict_u16, strict_u64, text_or, trimmed_text,
    u16_or, u32_or, uint_or,
};
use crate::engine::nodes::frame_cache::{
    entry_index, lemma_entry_index, stored, swap_removed, taken, value_of, EntryView,
};
use crate::engine::nodes::frame_text::provenance_tree;
use crate::engine::packet::{CaptureMode, CaptureTarget, IdentityView, ImageFrameView, PacketView};
use crate::engine::runtime::{EffectView, RuntimeView};
use crate::ieee::Real64;
use crate::json::JsonTree;
use crate::model::ChessboardDetection;
use crate::text::{blank, decimal, trimmed};
use vstd::prelude::*;

verus! {

/// A setting is read from the member of its own name, where that has the right sort and range; any
/// other member, and a missing one, gives way to the fallback.
pub proof fn law_settings_are_read_from_their_own_member(
    config: JsonTree,
    key: Seq<char>,
    text: Seq<char>,
    number: u64,
    short: u16,
    word: u32,
    flag: bool,
)
    ensures
        config.member(key) is None ==> {
            &&& text_or(config, key, text) == text
            &&& filled_text(config, key) is None && trimmed_text(config, key) is None
            &&& uint_or(config, key, u64::MAX, number) == number
            &&& bool_or(config, key, flag) == flag
            &&& real_or(config, key, number) == (Real64 { bits: number })
        },
        config.member(key) matches Some(JsonTree::Text(s)) ==> {
            &&& text_or(config, key, text) == s
            &&& filled_text(config, key) == (if blank(s) {
                None
            } else {
                Some(s)
            })
            &&& !blank(s) ==> trimmed_text(config, key) == Some(trimmed(s))
            &&& uint_or(config, key, u64::MAX, number) == number
            &&& bool_or(config, key, flag) == flag
        },
        config.member(key) matches Some(JsonTree::Uint(n)) ==> {
            &&& uint_or(config, key, u64::MAX, number) == n
            &&& n <= 0xffff ==> u16_or(config, key, short) == n
            &&& n > 0xffff ==> u16_or(config, key, short) == short
            &&& n <= 0xffff_ffff ==> u32_or(config, key, word) == n
            &&& n > 0xffff_ffff ==> u32_or(config, key, word) == word
            &&& text_or(config, key, text) == text
        },
        config.member(key) matches Some(JsonTree::Bool(b)) ==> bool_or(config, key, flag) == b,
        config.member(key) matches Some(JsonTree::Real(x)) ==> real_or(config, key, number) == x,
{
}

/// A strict setting is missing, or it is of its sort and range; anything else is an error.
pub proof fn law_strict_settings_refuse_other_sorts(
    config: JsonTree,
    key: Seq<char>,
    number: u64,
    short: u16,
)
    ensures
        strict_u64(config, key, number) is Ok <==> (config.member(key) is None || config.member(
            key,
        )->Some_0 is Uint),
        strict_u16(config, key, short) is Ok <==> (config.member(key) is None || config.member(
            key,
        )->Some_0 is Uint && config.member(key)->Some_0->Uint_0 <= 0xffff),
        strict_real(config, key, number) is Ok <==> (config.member(key) is None || config.member(
            key,
        )->Some_0 is Real || config.member(key)->Some_0 is Uint || config.member(key)->Some_0
            is Int),
        config.member(key) is None ==> strict_u64(config, key, number)->Ok_0 == number
            && strict_u16(config, key, short)->Ok_0 == short && strict_real(
            config,
            key,
            number,
        )->Ok_0.bits == number,
        config.member(key) matches Some(JsonTree::Uint(n)) ==> strict_u64(config, key, number)->Ok_0
            == n && (n <= 0xffff ==> strict_u16(config, key, short)->Ok_0 == n),
        config.member(key) matches Some(JsonTree::Real(x)) ==> strict_real(
            config,
            key,
            number,
        )->Ok_0 == x,
{
}

/// A scorer expects a positive number of corners, 88 where none is set.
pub proof fn law_scorer_expects_corners(config: JsonTree)
    ensures
        config.member("expectedCorners"@) is None ==> expected_corners(config) == Ok::<
            u64,
            NodeErrorView,
        >(88),
        config.member("expectedCorners"@) matches Some(JsonTree::Uint(n)) ==> (expected_corners(
            config,
        ) is Ok <==> 0 < n <= usize::MAX) && (0 < n <= usize::MAX ==> expected_corners(config)->Ok_0
            == n),
{
}

/// Whether the log grew by an emission on a port and one note.
pub open spec fn emitted_and_noted(
    before: RuntimeView,
    after: RuntimeView,
    port: Seq<char>,
    packet: PacketView,
) -> bool {
    &&& after.log.len() == before.log.len() + 2
    &&& after.log.take(before.log.len() as int) == before.log
    &&& after.log[before.log.len() as int] == (EffectView::Emit { port, packet })
    &&& after.log.last() is Event
}

/// A score goes out with the identity of its frame; a gate lets a frame pass exactly where its score
/// is at least the threshold.
pub proof fn law_gate_passes_scores_from_its_threshold_up(
    rt: RuntimeView,
    score: Real64,
    limit: Real64,
    identity: IdentityView,
    config: JsonTree,
)
    ensures
        emitted_and_noted(
            rt,
            scored(rt, score, identity),
            "score"@,
            PacketView::Score { score, identity },
        ),
        limit.at_most(score) ==> emitted_and_noted(
            rt,
            gated(rt, score, limit, identity),
            "signal"@,
            PacketView::CaptureSignal { accepted: true, identity },
        ),
        !limit.at_most(score) ==> emitted_and_noted(
            rt,
            gated(rt, score, limit, identity),
            "signal"@,
            PacketView::CaptureSignal { accepted: false, identity },
        ),
        threshold(config) matches Ok(x) ==> x.finite() && (Real64 { bits: 0 }).at_most(x)
            && x.at_most(Real64 { bits: 0x3ff0_0000_0000_0000 }),
        config.member("threshold"@) matches Some(JsonTree::Real(x)) ==> (threshold(config) is Ok
            <==> x.finite() && (Real64 { bits: 0 }).at_most(x) && x.at_most(
            Real64 { bits: 0x3ff0_0000_0000_0000 },
        )) && (threshold(config) is Ok ==> threshold(config)->Ok_0 == x),
        config.member("threshold"@) is None ==> threshold(config) == Ok::<Real64, NodeErrorView>(
            Real64 { bits: 0x3fd9_9999_9999_999a },
        ),
{
    assert(scored(rt, score, identity).log.take(rt.log.len() as int) =~= rt.log);
    assert(gated(rt, score, limit, identity).log.take(rt.log.len() as int) =~= rt.log);
}

/// A hold counts each frame once: a frame that was seen last is passed over, a rejected one starts
/// the count over, an accepted one is one more, and the one that fills the row fires and starts the
/// count over.
pub proof fn law_hold_counts_accepted_frames(
    state: HoldState,
    accepted: bool,
    identity: IdentityView,
    hold: u8,
    config: JsonTree,
)
    ensures
        ({
            let step = hold_step(state, accepted, identity, hold);
            let after = after_signal(state, accepted, identity, hold);
            &&& step is Duplicate <==> state.last == Some(identity)
            &&& step is Duplicate ==> after == state
            &&& !(step is Duplicate) ==> after.last == Some(identity)
            &&& step is Rejected <==> state.last != Some(identity) && !accepted
            &&& step is Rejected ==> after.count == 0
            &&& state.count < 255 ==> (step is Fire <==> state.last != Some(identity) && accepted
                && state.count + 1 >= hold)
            &&& step is Fire ==> after.count == 0
            &&& state.count < 255 && (step is Holding) ==> after.count == state.count + 1
                && step->Holding_0 == state.count + 1
        }),
        config.member("holdCount"@) is None ==> hold_count(config) == Ok::<u8, NodeErrorView>(3),
        config.member("holdCount"@) matches Some(JsonTree::Uint(n)) ==> (hold_count(config) is Ok
            <==> 1 <= n <= 30) && (1 <= n <= 30 ==> hold_count(config)->Ok_0 == n),
{
}

/// A request asks for what the settings name: a channel of the video, or a camera of the sensor,
/// each by its own setting, and the newest frame, the frame by its number or by its time.
pub proof fn law_requests_ask_for_what_is_set(config: JsonTree, identity: IdentityView)
    ensures
        config.member("target"@) is None ==> (capture_target(config) matches Ok(target)
            ==> target is Yuv),
        config.member("target"@) == Some(JsonTree::Text("yuv"@)) ==> (capture_target(
            config,
        ) matches Ok(target) ==> target is Yuv),
        config.member("target"@) == Some(JsonTree::Text("raw"@)) ==> (capture_target(
            config,
        ) matches Ok(target) ==> target is Raw),
        capture_target(config) matches Ok(CaptureTarget::Yuv { channel }) ==> match config.member(
            "channel"@,
        ) {
            None => channel == 0,
            Some(JsonTree::Uint(n)) => channel == n,
            _ => false,
        },
        capture_target(config) matches Ok(CaptureTarget::Raw { camera }) ==> match config.member(
            "camera"@,
        ) {
            None => camera == 0,
            Some(JsonTree::Uint(n)) => camera == n,
            _ => false,
        },
        capture_mode(config, identity) matches Ok(CaptureMode::FrameId(n)) ==> n
            == identity.frame_sequence,
        capture_mode(config, identity) matches Ok(CaptureMode::TimestampNs(t))
            ==> identity.device_timestamp_ns == Some(t),
        config.member("mode"@) is None ==> capture_mode(config, identity) == Ok::<
            CaptureMode,
            NodeErrorView,
        >(CaptureMode::Latest),
        config.member("mode"@) == Some(JsonTree::Text("frame_id"@)) ==> capture_mode(
            config,
            identity,
        ) == Ok::<CaptureMode, NodeErrorView>(CaptureMode::FrameId(identity.frame_sequence)),
        config.member("mode"@) == Some(JsonTree::Text("timestamp_ns"@)) ==> (capture_mode(
            config,
            identity,
        ) is Ok <==> identity.device_timestamp_ns is Some),
        source_fault(identity.provenance) is None <==> identity.provenance is Stream
            || identity.provenance is Device,
        built_request(config, identity) is Ok <==> source_fault(identity.provenance) is None
            && capture_target(config) is Ok && capture_mode(config, identity) is Ok,
        built_request(config, identity) matches Ok(request) ==> request.source_identity == Some(
            identity,
        ) && capture_target(config) == Ok::<CaptureTarget, NodeErrorView>(request.target)
            && capture_mode(config, identity) == Ok::<CaptureMode, NodeErrorView>(request.mode),
{
    reveal_strlit("yuv");
    reveal_strlit("raw");
    reveal_strlit("latest");
    reveal_strlit("frame_id");
    reveal_strlit("timestamp_ns");
    assert("yuv"@[0] != "raw"@[0]);
    assert("latest"@[0] != "frame_id"@[0] && "latest"@[0] != "timestamp_ns"@[0] && "frame_id"@[0]
        != "timestamp_ns"@[0]);
}

proof fn lemma_swapped<V>(entries: Seq<EntryView<V>>, i: int, identity: IdentityView)
    requires
        0 <= i < entries.len(),
        entries[i].identity != identity,
        forall|j: int, k: int|
            0 <= j < k < entries.len() ==> (#[trigger] entries[j]).identity != (#[trigger]
            entries[k]).identity,
    ensures
        value_of(swap_removed(entries, i), identity) == value_of(entries, identity),
{
    let less = swap_removed(entries, i);
    lemma_entry_index(entries, identity);
    lemma_entry_index(less, identity);
    let n = entries.len() - 1;
    match entry_index(entries, identity) {
        Some(at) => {
            if at == n {
                assert(less[i] == entries[n]);
                assert(less[i].identity == identity);
            } else {
                assert(less[at] == entries[at]);
                assert(less[at].identity == identity);
            }
            let got = entry_index(less, identity)->Some_0;
            if got == i {
                assert(less[got] == entries[n]);
                if at < n {
                    assert(entries[at].identity != entries[n].identity);
                }
            } else {
                assert(less[got] == entries[got]);
                if got < at {
                    assert(entries[got].identity != entries[at].identity);
                } else if at < got {
                    assert(entries[at].identity != entries[got].identity);
                }
            }
        },
        None => {
            if entry_index(less, identity) is Some {
                let got = entry_index(less, identity)->Some_0;
                if got == i {
                    assert(less[got] == entries[n]);
                    assert(entries[n].identity != identity);
                } else {
                    assert(less[got] == entries[got]);
                    assert(entries[got].identity != identity);
                }
            }
        },
    }
}

/// Taking the value of a frame out of a cache leaves none for it, and leaves the values of the other
/// frames.
pub proof fn law_taken_values_are_gone<V>(
    entries: Seq<EntryView<V>>,
    identity: IdentityView,
    other: IdentityView,
)
    requires
        forall|j: int, k: int|
            0 <= j < k < entries.len() ==> (#[trigger] entries[j]).identity != (#[trigger]
            entries[k]).identity,
        other != identity,
    ensures
        value_of(taken(entries, identity), identity) is None,
        value_of(taken(entries, identity), other) == value_of(entries, other),
{
    lemma_entry_index(entries, identity);
    match entry_index(entries, identity) {
        Some(i) => {
            lemma_swapped(entries, i, other);
            let less = swap_removed(entries, i);
            lemma_entry_index(less, identity);
            if entry_index(less, identity) is Some {
                let got = entry_index(less, identity)->Some_0;
                let n = entries.len() - 1;
                if got == i {
                    assert(less[got] == entries[n]);
                    assert(entries[i].identity != entries[n].identity);
                } else {
                    assert(less[got] == entries[got]);
                    if got < i {
                        assert(entries[got].identity != entries[i].identity);
                    } else {
                        assert(entries[i].identity != entries[got].identity);
                    }
                }
            }
        },
        None => {},
    }
}

/// Storing a value touches no other frame, but for the oldest one where the cache is full.
pub proof fn law_stored_values_touch_no_other<V>(
    entries: Seq<EntryView<V>>,
    entry: EntryView<V>,
    most: nat,
    other: IdentityView,
)
    requires
        forall|j: int, k: int|
            0 <= j < k < entries.len() ==> (#[trigger] entries[j]).identity != (#[trigger]
            entries[k]).identity,
        other != entry.identity,
        entries.len() < most || entry_index(entries, entry.identity) is Some || entries[0].identity
            != other,
        most > 0,
    ensures
        value_of(stored(entries, entry, most), other) == value_of(entries, other),
{
    lemma_entry_index(entries, entry.identity);
    lemma_entry_index(entries, other);
    let after = stored(entries, entry, most);
    lemma_entry_index(after, other);
    if entry_index(entries, entry.identity) is Some {
        let i = entry_index(entries, entry.identity)->Some_0;
        assert(forall|j: int| 0 <= j < entries.len() && j != i ==> after[j] == entries[j]);
        match entry_index(entries, other) {
            Some(at) => {
                assert(after[at] == entries[at]);
                let got = entry_index(after, other)->Some_0;
                assert(after[got] == entries[got]);
            },
            None => {},
        }
    } else {
        let base = if entries.len() >= most && entries.len() > 0 {
            lemma_swapped(entries, 0, other);
            swap_removed(entries, 0)
        } else {
            entries
        };
        lemma_entry_index(base, other);
        assert(after =~= base.push(entry));
        assert(forall|j: int| 0 <= j < base.len() ==> after[j] == base[j]);
        match entry_index(base, other) {
            Some(at) => {
                assert(after[at] == base[at]);
                let got = entry_index(after, other)->Some_0;
                assert(got < base.len());
                assert(after[got] == base[got]);
            },
            None => {
                if entry_index(after, other) is Some {
                    let got = entry_index(after, other)->Some_0;
                    assert(got < base.len());
                    assert(base[got].identity == other);
                }
            },
        }
    }
}

/// A score between zero and one joins the sample of its own frame, with the number of that frame, and
/// no other sample; any other score is refused and changes nothing.
pub proof fn law_score_joins_its_own_frame(
    state: CollectorState,
    score: Real64,
    identity: IdentityView,
    i: int,
)
    requires
        0 <= i < state.samples.len(),
        forall|j: int, k: int|
            0 <= j < k < state.samples.len() ==> (#[trigger] state.samples[j]).identity != (
            #[trigger] state.samples[k]).identity,
    ensures
        ({
            let (after, error) = state.score_recorded(score, identity);
            let fits = score.finite() && (Real64 { bits: 0 }).at_most(score) && score.at_most(
                Real64 { bits: 0x3ff0_0000_0000_0000 },
            );
            &&& !fits ==> error is Some && after == state
            &&& after.samples.len() == state.samples.len()
            &&& fits && state.samples[i].identity == identity ==> error is None && {
                let sample = after.samples[i].sample;
                &&& sample.score == Some(
                    DatasetSampleScore { score, frame_sequence: identity.frame_sequence },
                )
                &&& sample.id == state.samples[i].sample.id
                &&& sample.detection == state.samples[i].sample.detection
                &&& sample.image_ref == state.samples[i].sample.image_ref
                &&& sample.acceptance == state.samples[i].sample.acceptance
            }
            &&& state.samples[i].identity != identity ==> after.samples[i] == state.samples[i]
            &&& after.selected == state.selected && after.config == state.config
        }),
{
    lemma_frame_index(state.samples, identity);
    if state.samples[i].identity == identity {
        let at = frame_index(state.samples, identity)->Some_0;
        if at < i {
            assert(state.samples[at].identity != state.samples[i].identity);
        }
    }
}

/// A detection of a new frame becomes the last sample, where there is room: numbered, accepted and
/// enabled, with the score that came before it. A full collector takes none.
pub proof fn law_new_detection_is_the_last_sample(
    state: CollectorState,
    detection: ChessboardDetection,
    identity: IdentityView,
)
    requires
        forall|i: int|
            0 <= i < state.samples.len() ==> (#[trigger] state.samples[i]).identity != identity,
        state.next_id < u64::MAX,
    ensures
        ({
            let (after, error) = state.detection_recorded(detection, identity);
            let sample = after.samples.last();
            &&& state.samples.len() < most_samples(state.config) ==> {
                &&& error is None
                &&& after.samples.len() == state.samples.len() + 1
                &&& after.samples.take(state.samples.len() as int) == state.samples
                &&& sample.identity == identity
                &&& sample.sample.detection == detection
                &&& sample.sample.id == "sample-"@ + decimal(state.next_id as nat)
                &&& sample.sample.acceptance.accepted && sample.sample.acceptance.enabled
                &&& sample.sample.score == value_of(state.pending_scores, identity)
                &&& value_of(state.pending_images, identity) matches Some(image)
                    ==> sample.sample.image_ref == image
                &&& value_of(state.pending_images, identity) is None
                    ==> sample.sample.image_ref.width == detection.image_size.width
                    && sample.sample.image_ref.height == detection.image_size.height
                    && sample.sample.image_ref.format is None
                &&& after.next_id == state.next_id + 1
            }
            &&& state.samples.len() >= most_samples(state.config) ==> after.samples == state.samples
                && after.next_id == state.next_id
            &&& after.cached_images == state.cached_images && after.selected == state.selected
        }),
{
    lemma_frame_index(state.samples, identity);
    let after = state.detection_recorded(detection, identity).0;
    if state.samples.len() < most_samples(state.config) {
        assert(after.samples.take(state.samples.len() as int) =~= state.samples);
    }
}

/// A detection of a frame that has a sample replaces the detection of that sample: its name and its
/// judgement stay, and so do the other samples.
pub proof fn law_later_detection_replaces_the_earlier(
    state: CollectorState,
    detection: ChessboardDetection,
    identity: IdentityView,
    i: int,
)
    requires
        0 <= i < state.samples.len(),
        exists|j: int| 0 <= j < state.samples.len() && (#[trigger] state.samples[j]).identity
            == identity,
        forall|j: int, k: int|
            0 <= j < k < state.samples.len() ==> (#[trigger] state.samples[j]).identity != (
            #[trigger] state.samples[k]).identity,
    ensures
        ({
            let (after, error) = state.detection_recorded(detection, identity);
            &&& error is None && after.samples.len() == state.samples.len() && after.next_id
                == state.next_id
            &&& state.samples[i].identity == identity ==> {
                let sample = after.samples[i].sample;
                &&& sample.detection == detection
                &&& sample.id == state.samples[i].sample.id
                &&& sample.acceptance == state.samples[i].sample.acceptance
                &&& after.samples[i].identity == identity
                &&& value_of(state.pending_scores, identity) is None ==> sample.score
                    == state.samples[i].sample.score
                &&& value_of(state.pending_images, identity) is None ==> sample.image_ref
                    == state.samples[i].sample.image_ref
                &&& value_of(state.pending_scores, identity) matches Some(score) ==> sample.score
                    == Some(score)
                &&& value_of(state.pending_images, identity) matches Some(image)
                    ==> sample.image_ref == image
            }
            &&& state.samples[i].identity != identity ==> after.samples[i] == state.samples[i]
        }),
{
    lemma_frame_index(state.samples, identity);
    if state.samples[i].identity == identity {
        let at = frame_index(state.samples, identity)->Some_0;
        if at < i {
            assert(state.samples[at].identity != state.samples[i].identity);
        }
    }
}

/// An action on a sample touches that sample alone: a judgement changes the one flag that it names,
/// a deletion takes the sample out and unselects it.
pub proof fn law_judgements_touch_one_flag_of_one_sample(
    state: CollectorState,
    id: Seq<char>,
    i: int,
    j: int,
)
    requires
        0 <= i < state.samples.len(),
        state.samples[i].sample.id == id,
        0 <= j < state.samples.len(),
        j != i,
        forall|k: int, l: int|
            0 <= k < l < state.samples.len() ==> (#[trigger] state.samples[k]).sample.id != (
            #[trigger] state.samples[l]).sample.id,
    ensures
        ({
            let was = state.samples[i].sample.acceptance;
            let accepted = state.acted("accept"@, id).0;
            let rejected = state.acted("reject"@, id).0;
            let enabled = state.acted("enable"@, id).0;
            let disabled = state.acted("disable"@, id).0;
            let deleted = state.acted("delete"@, id).0;
            &&& accepted.samples[i].sample.acceptance == (DatasetSampleAcceptance {
                accepted: true,
                enabled: was.enabled,
            })
            &&& rejected.samples[i].sample.acceptance == (DatasetSampleAcceptance {
                accepted: false,
                enabled: was.enabled,
            })
            &&& enabled.samples[i].sample.acceptance == (DatasetSampleAcceptance {
                accepted: was.accepted,
                enabled: true,
            })
            &&& disabled.samples[i].sample.acceptance == (DatasetSampleAcceptance {
                accepted: was.accepted,
                enabled: false,
            })
            &&& accepted.samples[j] == state.samples[j] && rejected.samples[j] == state.samples[j]
            &&& enabled.samples[j] == state.samples[j] && disabled.samples[j] == state.samples[j]
            &&& deleted.samples == state.samples.remove(i)
            &&& state.selected == Some(id) ==> deleted.selected is None
            &&& state.selected == Some(state.samples[j].sample.id) ==> deleted.selected
                == state.selected
            &&& state.acted("delete"@, id).1 is None && state.acted("accept"@, id).1 is None
        }),
{
    reveal_strlit("delete");
    reveal_strlit("accept");
    reveal_strlit("reject");
    reveal_strlit("enable");
    reveal_strlit("disable");
    assert("delete"@[0] == 'd' && "accept"@[0] == 'a' && "reject"@[0] == 'r' && "enable"@[0]
        == 'e' && "disable"@[0] == 'd');
    assert("delete"@.len() != "disable"@.len());
    lemma_id_index(state.samples, id);
    let at = id_index(state.samples, id)->Some_0;
    assert(at == i) by {
        if at < i {
            assert(state.samples[at].sample.id != state.samples[i].sample.id);
        }
    }
    let left = state.samples.remove(i);
    assert forall|k: int| 0 <= k < left.len() implies (#[trigger] left[k]).sample.id != id by {
        if k < i {
            assert(state.samples[k].sample.id != state.samples[i].sample.id);
        } else {
            assert(state.samples[i].sample.id != state.samples[k + 1].sample.id);
        }
    }
    lemma_id_index(left, id);
    let other = state.samples[j].sample.id;
    lemma_id_index(left, other);
    let k = if j < i {
        j
    } else {
        j - 1
    };
    assert(left[k] == state.samples[j]);
    assert(left[k].sample.id == other);
}

/// An action on a sample that is not there is refused, as is an unknown one, and changes nothing.
pub proof fn law_unknown_samples_are_not_judged(
    state: CollectorState,
    action: Seq<char>,
    id: Seq<char>,
)
    requires
        forall|i: int|
            0 <= i < state.samples.len() ==> (#[trigger] state.samples[i]).sample.id != id,
    ensures
        state.acted(action, id).0 == state,
        state.acted(action, id).1 is Some,
        state.preview(id) is Err,
{
    lemma_id_index(state.samples, id);
}

/// A dataset lists every sample in order, with their number, the board that is set and the sample
/// that is selected.
pub proof fn law_dataset_lists_every_sample(state: CollectorState, i: int)
    requires
        0 <= i < state.samples.len() <= usize::MAX,
    ensures
        state.dataset().kind == "calib.dataset.v1"@,
        state.dataset().samples.len() == state.samples.len(),
        state.dataset().samples[i] == state.samples[i].sample,
        state.dataset().count == state.samples.len(),
        state.dataset().selected_sample_id == state.selected,
        state.config.member("board"@) matches Some(board) ==> state.dataset().board == board,
        state.config.member("board"@) is None ==> state.dataset().board == JsonTree::Null,
{
}

/// Clearing leaves nothing but the settings and the next number; other settings keep the samples that
/// came first, as many as they allow.
pub proof fn law_settings_keep_the_first_samples(state: CollectorState, config: JsonTree, i: int)
    ensures
        ({
            let after = state.cleared();
            &&& after.samples.len() == 0 && after.pending_images.len() == 0
            &&& after.pending_scores.len() == 0 && after.cached_images.len() == 0
            &&& after.selected is None && after.config == state.config && after.next_id
                == state.next_id
        }),
        ({
            let after = state.configured(config);
            &&& after.config == config && after.next_id == state.next_id
            &&& after.samples.len() == (if state.samples.len() > most_samples(config) {
                most_samples(config)
            } else {
                state.samples.len()
            })
            &&& 0 <= i < after.samples.len() ==> after.samples[i] == state.samples[i]
        }),
        config.member("maxSamples"@) is None ==> most_samples(config) == 80,
        config.member("maxSamples"@) matches Some(JsonTree::Uint(n)) ==> n <= usize::MAX
            ==> most_samples(config) == n,
{
}

/// A packet is taken as what its port is for, and from no other port; a packet of another sort is
/// refused and changes nothing.
pub proof fn law_packets_are_taken_by_port(
    state: CollectorState,
    port: Seq<char>,
    image: ImageFrameView,
    detection: ChessboardDetection,
    score: Real64,
    identity: IdentityView,
    rt: RuntimeView,
)
    ensures
        taken_in(state, "image"@, PacketView::ImageFrame(image), rt).0 == state.image_recorded(image).0,
        taken_in(state, "score"@, PacketView::Score { score, identity }, rt).0
            == state.score_recorded(score, identity).0,
        taken_in(state, "detection"@, PacketView::Detection { detection, identity }, rt).0
            == state.detection_recorded(detection, identity).0,
        taken_in(state, "image"@, PacketView::Score { score, identity }, rt).0 == state
            && taken_in(state, "image"@, PacketView::Score { score, identity }, rt).2 is Some,
        taken_in(state, "score"@, PacketView::ImageFrame(image), rt).0 == state && taken_in(
            state,
            "score"@,
            PacketView::ImageFrame(image),
            rt,
        ).2 is Some,
        port != "frames"@ && port != "image"@ && port != "detection"@ && port != "score"@ ==> taken_in(
            state,
            port,
            PacketView::ImageFrame(image),
            rt,
        ) == (state, rt, None::<NodeErrorView>),
{
    reveal_strlit("frames");
    reveal_strlit("image");
    reveal_strlit("detection");
    reveal_strlit("score");
    assert("frames"@[0] == 'f' && "image"@[0] == 'i' && "detection"@[0] == 'd' && "score"@[0]
        == 's');
}

/// A dataset goes out on its own port as what the collector holds, or not at all.
pub proof fn law_published_dataset_is_what_is_held(state: CollectorState, rt: RuntimeView)
    ensures
        rt.accepts("dataset"@) ==> state.published(rt).1 && emitted_and_noted(
            rt,
            state.published(rt).0,
            "dataset"@,
            PacketView::Dataset(state.dataset()),
        ),
        !rt.accepts("dataset"@) ==> state.published(rt) == (rt, false),
{
    assert(state.published(rt).0.log.take(rt.log.len() as int) =~= rt.log);
}

/// Whether a sample is one: it is named, refers to an image of the size of its detection, says which
/// frame it is from, and has no score or one between zero and one of that frame.
pub open spec fn sample_sound(sample: SampleView) -> bool {
    let sequence = provenance_sequence(sample.provenance);
    &&& !blank(sample.id) && !blank(sample.image_ref.reference)
    &&& 0 < sample.image_ref.width == sample.detection.image_size.width
    &&& 0 < sample.image_ref.height == sample.detection.image_size.height
    &&& sequence is Some
    &&& sample.score matches Some(score) ==> score.score.finite() && (Real64 { bits: 0 }).at_most(
        score.score,
    ) && score.score.at_most(Real64 { bits: 0x3ff0_0000_0000_0000 }) && score.frame_sequence
        == sequence->Some_0
}

proof fn lemma_samples(samples: Seq<SampleView>)
    ensures
        samples_fault(samples) is None <==> forall|i: int|
            0 <= i < samples.len() ==> sample_sound(#[trigger] samples[i]),
    decreases samples.len(),
{
    if samples.len() > 0 {
        let init = samples.drop_last();
        lemma_samples(init);
        assert(forall|i: int| 0 <= i < init.len() ==> init[i] == samples[i]);
        assert(samples.last() == samples[samples.len() - 1]);
        assert(sample_fault(samples.last(), samples.len() - 1) is None <==> sample_sound(
            samples.last(),
        ));
        if samples_fault(samples) is None {
            assert forall|i: int| 0 <= i < samples.len() implies sample_sound(
                #[trigger] samples[i],
            ) by {
                if i < init.len() {
                    assert(sample_sound(init[i]));
                }
            }
        }
        if forall|i: int| 0 <= i < samples.len() ==> sample_sound(#[trigger] samples[i]) {
            assert forall|i: int| 0 <= i < init.len() implies sample_sound(#[trigger] init[i]) by {
                assert(sample_sound(samples[i]));
            }
            assert(sample_sound(samples[samples.len() - 1]));
        }
    }
}

/// A dataset is taken exactly where it says what it is, counts its samples right, and every sample is
/// one.
pub proof fn law_datasets_hold_sound_samples(dataset: DatasetView)
    ensures
        dataset_fault(dataset) is None <==> dataset.kind == "calib.dataset.v1"@ && dataset.count
            == dataset.samples.len() && forall|i: int|
            0 <= i < dataset.samples.len() ==> sample_sound(#[trigger] dataset.samples[i]),
{
    lemma_samples(dataset.samples);
}

/// What is written down of a frame's origin says the number of the frame.
pub proof fn law_written_origin_says_the_frame(identity: IdentityView)
    ensures
        provenance_sequence(provenance_tree(identity)) == Some(identity.frame_sequence),
{
    reveal_strlit("source");
    reveal_strlit("frameIdentity");
    assert("source"@[0] != "frameIdentity"@[0]);
    reveal_with_fuel(crate::json::find_member, 3);
    let members = provenance_tree(identity)->Object_0;
    assert(members[0].0 == "source"@);
    assert(members.drop_first()[0] == members[1]);
    let inner = members[1].1->Object_0;
    assert(inner[0].0 == "frameSequence"@);
}

/// A grid has the columns and rows that are set, six and four where none are, none of them zero.
pub proof fn law_grid_is_the_one_set(config: JsonTree)
    ensures
        grid(config) matches Ok(size) ==> {
            &&& size.0 > 0 && size.1 > 0 && size.0 * size.1 <= u64::MAX
            &&& match config.member("gridCols"@) {
                Some(JsonTree::Uint(n)) => size.0 == n,
                _ => size.0 == 6,
            }
            &&& match config.member("gridRows"@) {
                Some(JsonTree::Uint(n)) => size.1 == n,
                _ => size.1 == 4,
            }
        },
        config.member("gridCols"@) is None && config.member("gridRows"@) is None ==> grid(config)
            is Ok,
        config.member("gridCols"@) == Some(JsonTree::Uint(0)) || config.member("gridRows"@) == Some(
            JsonTree::Uint(0),
        ) ==> grid(config) is Err,
{
}

/// Whether a detection can be placed: its image has an extent, and it has corners, all finite.
pub open spec fn placeable(detection: ChessboardDetection) -> bool {
    &&& detection.image_size.width > 0 && detection.image_size.height > 0
    &&& detection.corners@.len() > 0
    &&& forall|i: int|
        0 <= i < detection.corners@.len() ==> (#[trigger] detection.corners@[i]).x.finite()
            && detection.corners@[i].y.finite()
}

/// Detections are placed on a grid exactly where every one of them can be.
pub proof fn law_only_finite_detections_are_placed(items: Seq<ChessboardDetection>)
    ensures
        geometries_fault(items) is None <==> forall|i: int|
            0 <= i < items.len() ==> placeable(#[trigger] items[i]),
    decreases items.len(),
{
    if items.len() > 0 {
        let init = items.drop_last();
        law_only_finite_detections_are_placed(init);
        assert(forall|i: int| 0 <= i < init.len() ==> init[i] == items[i]);
        assert(items.last() == items[items.len() - 1]);
        assert(geometry_fault(items.last(), items.len() - 1) is None <==> placeable(items.last()));
        if geometries_fault(items) is None {
            assert forall|i: int| 0 <= i < items.len() implies placeable(#[trigger] items[i]) by {
                if i < init.len() {
                    assert(placeable(init[i]));
                }
            }
        }
        if forall|i: int| 0 <= i < items.len() ==> placeable(#[trigger] items[i]) {
            assert forall|i: int| 0 <= i < init.len() implies placeable(#[trigger] init[i]) by {
                assert(placeable(items[i]));
            }
            assert(placeable(items[items.len() - 1]));
        }
    }
}

/// A cell beyond the grid is that of its edge, one on the grid is itself; a cell is occupied exactly
/// where a sample lies in it, and cells are numbered row by row.
pub proof fn law_cells_lie_on_the_grid(
    cells: Seq<GridCell>,
    cell: GridCell,
    cols: u64,
    rows: u64,
    k: int,
)
    requires
        cols > 0,
        rows > 0,
        0 <= k < cols * rows,
        cols * rows <= u64::MAX,
    ensures
        on_grid(cell, cols, rows).col < cols && on_grid(cell, cols, rows).row < rows,
        cell.col < cols ==> on_grid(cell, cols, rows).col == cell.col,
        cell.row < rows ==> on_grid(cell, cols, rows).row == cell.row,
        cell.col >= cols ==> on_grid(cell, cols, rows).col == cols - 1,
        cell.row >= rows ==> on_grid(cell, cols, rows).row == rows - 1,
        occupied_cells(cells, cols, rows).contains(cell) <==> exists|i: int|
            0 <= i < cells.len() && on_grid(#[trigger] cells[i], cols, rows) == cell,
        cell_at(k, cols).row * cols + cell_at(k, cols).col == k,
        cell_at(k, cols).col < cols,
{
    let mapped = cells.map_values(|c: GridCell| on_grid(c, cols, rows));
    if occupied_cells(cells, cols, rows).contains(cell) {
        let i = choose|i: int| 0 <= i < mapped.len() && mapped[i] == cell;
        assert(on_grid(cells[i], cols, rows) == cell);
    }
    if exists|i: int| 0 <= i < cells.len() && on_grid(#[trigger] cells[i], cols, rows) == cell {
        let i = choose|i: int| 0 <= i < cells.len() && on_grid(#[trigger] cells[i], cols, rows) == cell;
        assert(mapped[i] == cell);
    }
    vstd::arithmetic::div_mod::lemma_fundamental_div_mod(k, cols as int);
    let q = k / cols as int;
    let r = k % cols as int;
    assert(0 <= q <= k) by (nonlinear_arith)
        requires
            q == k / (cols as int),
            k >= 0,
            cols > 0,
    ;
    assert(cols * q == q * cols) by (nonlinear_arith);
}

/// The next cell to take is the first that is missing.
pub proof fn law_guided_cell_is_the_first_missing(coverage: JsonTree)
    ensures
        first_missing(coverage) matches Some(cell) ==> (coverage.member("missingCells"@) matches Some(
            JsonTree::Array(items),
        ) && items.len() > 0 && items[0].member("col"@) == Some(JsonTree::Uint(cell.col))
            && items[0].member("row"@) == Some(JsonTree::Uint(cell.row))),
        coverage.member("missingCells"@) matches Some(JsonTree::Array(items)) ==> items.len() > 0
            && items[0].member("col"@) is Some && items[0].member("col"@)->Some_0 is Uint
            && items[0].member("row"@) is Some && items[0].member("row"@)->Some_0 is Uint
            ==> first_missing(coverage) is Some,
{
}

/// A packet and its overlay go out on their own ports, in that order; where the first port is full
/// neither does.
pub proof fn law_overlays_follow_their_packet(
    rt: RuntimeView,
    port: Seq<char>,
    packet: PacketView,
    tree: JsonTree,
)
    ensures
        !rt.accepts(port) ==> with_overlay(rt, port, packet, Some(tree)) == (rt, false),
        rt.accepts(port) && rt.accepts("overlay"@) ==> with_overlay(rt, port, packet, Some(tree)).1
            && with_overlay(rt, port, packet, Some(tree)).0.log == rt.log.push(
            EffectView::Emit { port, packet },
        ).push(EffectView::Emit { port: "overlay"@, packet: PacketView::Json(tree) }),
        rt.accepts(port) ==> with_overlay(rt, port, packet, None).1 && with_overlay(
            rt,
            port,
            packet,
            None,
        ).0.log == rt.log.push(EffectView::Emit { port, packet }),
{
}

/// Settings of a request builder are refused exactly where they name no target or no mode.
pub proof fn law_builder_settings_name_target_and_mode(config: JsonTree)
    ensures
        builder_fault(config) is None <==> capture_target(config) is Ok && (text_or(
            config,
            "mode"@,
            "latest"@,
        ) == "latest"@ || text_or(config, "mode"@, "latest"@) == "frame_id"@ || text_or(
            config,
            "mode"@,
            "latest"@,
        ) == "timestamp_ns"@),
{
}

/// A coverage states the grid, how many samples were placed, how many cells they lie in, and which
/// cells are left.
pub proof fn law_coverage_states_its_grid(
    coverage: GridCoverage,
    cells: Seq<GridCell>,
    cols: u64,
    rows: u64,
)
    requires
        coverage.describes(cells, cols, rows),
        cols * rows <= u64::MAX,
    ensures
        coverage.sample_count == cells.len(),
        coverage.occupied == occupied_cells(cells, cols, rows).len(),
        coverage.total == cols * rows,
        coverage.cols == cols && coverage.rows == rows,
        forall|i: int|
            0 <= i < coverage.missing@.len() ==> !occupied_cells(cells, cols, rows).contains(
                #[trigger] coverage.missing@[i],
            ),
{
    lemma_missing((cols * rows) as nat, cols, occupied_cells(cells, cols, rows));
}

proof fn lemma_missing(k: nat, cols: u64, occupied: Set<GridCell>)
    ensures
        forall|i: int|
            0 <= i < missing_cells(k, cols, occupied).len() ==> !occupied.contains(
                #[trigger] missing_cells(k, cols, occupied)[i],
            ),
    decreases k,
{
    if k > 0 {
        lemma_missing((k - 1) as nat, cols, occupied);
        let rest = missing_cells((k - 1) as nat, cols, occupied);
        let all = missing_cells(k, cols, occupied);
        assert forall|i: int| 0 <= i < all.len() implies !occupied.contains(#[trigger] all[i]) by {
            if i < rest.len() {
                assert(all[i] == rest[i]);
            }
        }
    }
}

/// What is written down of a coverage, and of the cell to take next, is what it states, each figure
/// under its own name.
pub proof fn law_written_coverage_is_what_is_stated(
    coverage: GridCoverage,
    ratio: Real64,
    cell: GridCell,
    name: Seq<char>,
    shown: JsonTree,
)
    ensures
        ({
            let tree = coverage_tree(coverage, ratio)->Object_0;
            &&& tree.len() == 8
            &&& tree[1] == ("sampleCount"@, JsonTree::Uint(coverage.sample_count as u64))
            &&& tree[2] == ("occupiedCells"@, JsonTree::Uint(coverage.occupied as u64))
            &&& tree[3] == ("totalCells"@, JsonTree::Uint(coverage.total))
            &&& tree[4] == ("coverageRatio"@, JsonTree::Real(ratio))
            &&& tree[5] == ("gridCols"@, JsonTree::Uint(coverage.cols))
            &&& tree[6] == ("gridRows"@, JsonTree::Uint(coverage.rows))
        }),
        target_tree(cell).member("gridCol"@) == Some(JsonTree::Uint(cell.col)),
        target_tree(cell).member("gridRow"@) == Some(JsonTree::Uint(cell.row)),
        name != "kind"@ ==> overlay_tree(name, shown).member(name) == Some(shown),
{
    reveal_strlit("kind");
    reveal_strlit("gridCol");
    reveal_strlit("gridRow");
    reveal_with_fuel(crate::json::find_member, 5);
    assert("gridCol"@[4] == 'C' && "gridRow"@[4] == 'R');
    assert("kind"@.len() == 4 && "gridCol"@.len() == 7 && "gridRow"@.len() == 7);
    let t = target_tree(cell)->Object_0;
    let t1 = t.drop_first();
    let t2 = t1.drop_first();
    assert(t[0].0 == "kind"@ && t[1].0 == "gridCol"@ && t[2].0 == "gridRow"@);
    assert(t1[0] == t[1] && t2[0] == t[2]);
    let o = overlay_tree(name, shown)->Object_0;
    assert(o.drop_first()[0] == o[1]);
}

/// A target can be asked for exactly where it is one of the two or not set, and its own number is short
/// where it is set; a mode exactly where it is one of the three or not set, and the time it needs is
/// known.
pub proof fn law_usable_requests_are_built(config: JsonTree, identity: IdentityView)
    ensures
        capture_target(config) is Ok <==> {
            let target = text_or(config, "target"@, "yuv"@);
            ||| target == "yuv"@ && strict_u16(config, "channel"@, 0) is Ok
            ||| target == "raw"@ && strict_u16(config, "camera"@, 0) is Ok
        },
        capture_mode(config, identity) is Ok <==> {
            let mode = text_or(config, "mode"@, "latest"@);
            ||| mode == "latest"@ || mode == "frame_id"@
            ||| mode == "timestamp_ns"@ && identity.device_timestamp_ns is Some
        },
        config.member("mode"@) == Some(JsonTree::Text("latest"@)) ==> capture_mode(config, identity)
            == Ok::<CaptureMode, NodeErrorView>(CaptureMode::Latest),
{
    reveal_strlit("yuv");
    reveal_strlit("raw");
    reveal_strlit("latest");
    reveal_strlit("frame_id");
    reveal_strlit("timestamp_ns");
    assert("yuv"@[0] != "raw"@[0]);
    assert("latest"@[0] != "frame_id"@[0] && "latest"@[0] != "timestamp_ns"@[0] && "frame_id"@[0]
        != "timestamp_ns"@[0]);
}

/// A grid can be used exactly where neither of its numbers is zero and their product can be counted.
pub proof fn law_usable_grids(config: JsonTree)
    ensures
        grid(config) is Ok <==> uint_or(config, "gridCols"@, u64::MAX, 6) > 0 && uint_or(
            config,
            "gridRows"@,
            u64::MAX,
            4,
        ) > 0 && uint_or(config, "gridCols"@, u64::MAX, 6) * uint_or(
            config,
            "gridRows"@,
            u64::MAX,
            4,
        ) <= u64::MAX,
{
}

} // verus!
