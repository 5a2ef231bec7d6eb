//! What always holds of a dataset collector.
use crate::engine::dataset::DatasetSampleAcceptance;
use crate::engine::node::NodeAction;
use crate::engine::nodes::collector::{
    carried_out, frame_index, id_index, image_ref_of, lemma_frame_index, lemma_id_index,
    most_samples, new_collector, sample_name, taken_in, CollectedView, CollectorState,
};
use crate::engine::nodes::frame_cache::{
    law_cache_stays_bounded, law_shrunk_cache_is_bounded, law_store_then_get, lemma_entry_index,
    EntryView,
};
use crate::engine::packet::{IdentityView, ImageFrame, ImageFrameView, PacketView};
use crate::engine::runtime::RuntimeView;
use crate::json::JsonTree;
use crate::model::ChessboardDetection;
use crate::text::{decimal, digit_char};
use vstd::prelude::*;

verus! {

/// Whether a collector holds no more than its configuration lets in.
pub open spec fn bounded(state: CollectorState) -> bool {
    let most = most_samples(state.config);
    &&& most > 0
    &&& state.samples.len() <= most
    &&& state.pending_images.len() <= most
    &&& state.pending_scores.len() <= most
    &&& state.cached_images.len() <= most
}

/// Whether an id was given out before the next one.
pub open spec fn given_out(id: Seq<char>, next_id: u64) -> bool {
    exists|n: nat| n < next_id && id == #[trigger] sample_name(n)
}

/// Whether every sample has an id that was given out.
pub open spec fn numbered(state: CollectorState) -> bool {
    forall|i: int|
        0 <= i < state.samples.len() ==> given_out(
            (#[trigger] state.samples[i]).sample.id,
            state.next_id,
        )
}

/// Whether no two samples share an id.
pub open spec fn ids_differ(samples: Seq<CollectedView>) -> bool {
    forall|i: int, j: int|
        0 <= i < j < samples.len() ==> (#[trigger] samples[i]).sample.id != (
        #[trigger] samples[j]).sample.id
}

/// Whether no two samples share a frame.
pub open spec fn frames_differ(samples: Seq<CollectedView>) -> bool {
    forall|i: int, j: int|
        0 <= i < j < samples.len() ==> (#[trigger] samples[i]).identity != (
        #[trigger] samples[j]).identity
}

/// Whether the selection names a sample, where there is one.
pub open spec fn selection_exists(state: CollectorState) -> bool {
    state.selected is Some ==> id_index(state.samples, state.selected->Some_0) is Some
}

/// What holds of every collector with a usable configuration.
pub open spec fn sound(state: CollectorState) -> bool {
    &&& bounded(state)
    &&& numbered(state)
    &&& ids_differ(state.samples)
    &&& frames_differ(state.samples)
    &&& selection_exists(state)
}

proof fn lemma_decimal_injective(a: nat, b: nat)
    requires
        decimal(a) == decimal(b),
    ensures
        a == b,
    decreases a,
{
    let x = decimal(a);
    let y = decimal(b);
    lemma_decimal_length(a);
    lemma_decimal_length(b);
    assert(x.last() == digit_char(a % 10));
    assert(y.last() == digit_char(b % 10));
    if a >= 10 {
        assert(x.drop_last() =~= decimal(a / 10));
        assert(y.drop_last() =~= decimal(b / 10));
        lemma_decimal_injective(a / 10, b / 10);
    }
}

proof fn lemma_decimal_length(n: nat)
    ensures
        decimal(n).len() >= 1,
        n < 10 <==> decimal(n).len() == 1,
        decimal(n).last() == digit_char(n % 10),
    decreases n,
{
    if n >= 10 {
        lemma_decimal_length(n / 10);
    }
}

proof fn lemma_names_differ(a: nat, b: nat)
    requires
        a != b,
    ensures
        sample_name(a) != sample_name(b),
{
    if sample_name(a) == sample_name(b) {
        let prefix = "sample-"@;
        let k = prefix.len() as int;
        assert(sample_name(a).skip(k) =~= decimal(a));
        assert(sample_name(b).skip(k) =~= decimal(b));
        lemma_decimal_injective(a, b);
    }
}

/// Samples that keep their ids and frames keep what is said of these.
proof fn lemma_same_names(before: CollectorState, after: CollectorState)
    requires
        numbered(before),
        ids_differ(before.samples),
        frames_differ(before.samples),
        selection_exists(before),
        after.samples.len() == before.samples.len(),
        after.next_id == before.next_id,
        after.selected == before.selected,
        forall|i: int|
            0 <= i < before.samples.len() ==> (#[trigger] after.samples[i]).sample.id
                == before.samples[i].sample.id && after.samples[i].identity
                == before.samples[i].identity,
    ensures
        numbered(after),
        ids_differ(after.samples),
        frames_differ(after.samples),
        selection_exists(after),
{
    assert forall|i: int| 0 <= i < after.samples.len() implies given_out(
        (#[trigger] after.samples[i]).sample.id,
        after.next_id,
    ) by {
        assert(given_out(before.samples[i].sample.id, before.next_id));
    }
    assert forall|i: int, j: int| 0 <= i < j < after.samples.len() implies (
    #[trigger] after.samples[i]).sample.id != (#[trigger] after.samples[j]).sample.id by {
        assert(before.samples[i].sample.id != before.samples[j].sample.id);
    }
    assert forall|i: int, j: int| 0 <= i < j < after.samples.len() implies (
    #[trigger] after.samples[i]).identity != (#[trigger] after.samples[j]).identity by {
        assert(before.samples[i].identity != before.samples[j].identity);
    }
    if after.selected is Some {
        let id = after.selected->Some_0;
        lemma_id_index(before.samples, id);
        lemma_id_index(after.samples, id);
        let k = id_index(before.samples, id)->Some_0;
        assert(after.samples[k].sample.id == id);
    }
}

proof fn lemma_image_keeps_soundness(state: CollectorState, image: ImageFrameView)
    requires
        sound(state),
    ensures
        sound(state.image_recorded(image).0),
        state.image_recorded(image).1 is None,
{
    let after = state.image_recorded(image).0;
    let identity = image.identity;
    law_cache_stays_bounded(
        state.cached_images,
        EntryView { identity, value: image },
        most_samples(state.config),
    );
    law_cache_stays_bounded(
        state.pending_images,
        EntryView { identity, value: image_ref_of(image) },
        most_samples(state.config),
    );
    lemma_frame_index(state.samples, identity);
    lemma_same_names(state, after);
}

proof fn lemma_score_keeps_soundness(
    state: CollectorState,
    score: crate::ieee::Real64,
    identity: IdentityView,
)
    requires
        sound(state),
    ensures
        sound(state.score_recorded(score, identity).0),
{
    let after = state.score_recorded(score, identity).0;
    law_cache_stays_bounded(
        state.pending_scores,
        EntryView {
            identity,
            value: crate::engine::dataset::DatasetSampleScore {
                score,
                frame_sequence: identity.frame_sequence,
            },
        },
        most_samples(state.config),
    );
    lemma_frame_index(state.samples, identity);
    lemma_same_names(state, after);
}

proof fn lemma_detection_keeps_soundness(
    state: CollectorState,
    detection: ChessboardDetection,
    identity: IdentityView,
)
    requires
        sound(state),
    ensures
        sound(state.detection_recorded(detection, identity).0),
{
    let (after, error) = state.detection_recorded(detection, identity);
    lemma_entry_index(state.pending_images, identity);
    lemma_entry_index(state.pending_scores, identity);
    lemma_frame_index(state.samples, identity);
    if after.samples.len() == state.samples.len() {
        lemma_same_names(state, after);
    } else {
        let k = state.samples.len() as int;
        assert forall|i: int| 0 <= i < k implies #[trigger] after.samples[i]
            == state.samples[i] by {}
        let fresh = after.samples[k];
        assert(fresh.sample.id == sample_name(state.next_id as nat));
        assert(fresh.identity == identity);
        assert forall|i: int| 0 <= i < after.samples.len() implies given_out(
            (#[trigger] after.samples[i]).sample.id,
            after.next_id,
        ) by {
            if i < k {
                assert(given_out(state.samples[i].sample.id, state.next_id));
                let n = choose|n: nat|
                    n < state.next_id && state.samples[i].sample.id == #[trigger] sample_name(n);
                assert(after.samples[i].sample.id == sample_name(n));
            } else {
                assert(after.samples[i].sample.id == sample_name(state.next_id as nat));
            }
        }
        assert forall|i: int, j: int| 0 <= i < j < after.samples.len() implies (
        #[trigger] after.samples[i]).sample.id != (#[trigger] after.samples[j]).sample.id by {
            assert(after.samples[i] == state.samples[i]);
            if j == k {
                assert(given_out(state.samples[i].sample.id, state.next_id));
                let n = choose|n: nat|
                    n < state.next_id && state.samples[i].sample.id == #[trigger] sample_name(n);
                lemma_names_differ(n, state.next_id as nat);
            } else {
                assert(after.samples[j] == state.samples[j]);
            }
        }
        assert forall|i: int, j: int| 0 <= i < j < after.samples.len() implies (
        #[trigger] after.samples[i]).identity != (#[trigger] after.samples[j]).identity by {
            assert(after.samples[i] == state.samples[i]);
            if j < k {
                assert(after.samples[j] == state.samples[j]);
            }
        }
        if after.selected is Some {
            let id = after.selected->Some_0;
            lemma_id_index(state.samples, id);
            lemma_id_index(after.samples, id);
            let i = id_index(state.samples, id)->Some_0;
            assert(after.samples[i].sample.id == id);
        }
    }
}

/// A new collector with a usable configuration is sound.
pub proof fn law_new_collector_is_sound(config: JsonTree)
    requires
        most_samples(config) > 0,
    ensures
        sound(new_collector(config)),
{
}

/// Every packet keeps a collector sound: it stays bounded, ids and frames stay distinct, and the
/// selection names a sample.
pub proof fn law_packets_keep_collector_sound(
    state: CollectorState,
    port: Seq<char>,
    packet: PacketView,
    rt: RuntimeView,
)
    requires
        sound(state),
    ensures
        sound(taken_in(state, port, packet, rt).0),
{
    match packet {
        PacketView::VideoFrame(frame) => {
            lemma_image_keeps_soundness(state, ImageFrame::of_video(frame));
        },
        PacketView::ImageFrame(image) => {
            lemma_image_keeps_soundness(state, image);
        },
        PacketView::Detection { detection, identity } => {
            lemma_detection_keeps_soundness(state, detection, identity);
        },
        PacketView::Score { score, identity } => {
            lemma_score_keeps_soundness(state, score, identity);
        },
        _ => {},
    }
}

/// Samples that were left out take nothing with them but themselves.
proof fn lemma_fewer_samples(before: CollectorState, after: CollectorState, at: int)
    requires
        numbered(before),
        ids_differ(before.samples),
        frames_differ(before.samples),
        after.next_id == before.next_id,
        0 <= at <= after.samples.len() <= before.samples.len(),
        forall|i: int| 0 <= i < at ==> #[trigger] after.samples[i] == before.samples[i],
        forall|i: int|
            at <= i < after.samples.len() ==> i + 1 < before.samples.len()
                && #[trigger] after.samples[i] == before.samples[i + 1],
    ensures
        numbered(after),
        ids_differ(after.samples),
        frames_differ(after.samples),
{
    let samples = after.samples;
    let source = |i: int| if i < at { i } else { i + 1 };
    assert forall|i: int| 0 <= i < samples.len() implies 0 <= #[trigger] source(i)
        < before.samples.len() && samples[i] == before.samples[source(i)] by {
        if i < at {
            assert(samples[i] == before.samples[i]);
        } else {
            assert(samples[i] == before.samples[i + 1]);
        }
    }
    assert forall|i: int| 0 <= i < after.samples.len() implies given_out(
        (#[trigger] after.samples[i]).sample.id,
        after.next_id,
    ) by {
        let k = source(i);
        assert(given_out(before.samples[k].sample.id, before.next_id));
    }
    assert forall|i: int, j: int| 0 <= i < j < samples.len() implies (
    #[trigger] samples[i]).sample.id != (#[trigger] samples[j]).sample.id by {
        assert(before.samples[source(i)].sample.id != before.samples[source(j)].sample.id);
    }
    assert forall|i: int, j: int| 0 <= i < j < samples.len() implies (
    #[trigger] samples[i]).identity != (#[trigger] samples[j]).identity by {
        assert(before.samples[source(i)].identity != before.samples[source(j)].identity);
    }
}

proof fn lemma_selection_kept(state: CollectorState)
    ensures
        selection_exists(state.selection_kept()),
        state.selection_kept() == (CollectorState {
            selected: state.selection_kept().selected,
            ..state
        }),
{
}

/// Every action keeps a collector sound.
pub proof fn law_actions_keep_collector_sound(
    state: CollectorState,
    action: NodeAction,
    rt: RuntimeView,
)
    requires
        sound(state),
    ensures
        sound(carried_out(state, action, rt).0),
{
    let after = carried_out(state, action, rt).0;
    match action {
        NodeAction::Custom { name, payload } => {
            if name@ == "clear"@ {
                assert(after == state.cleared());
            } else {
                let id = crate::engine::nodes::config::filled_text(payload@, "sampleId"@);
                if id is Some {
                    let id = id->Some_0;
                    lemma_id_index(state.samples, id);
                    match id_index(state.samples, id) {
                        Some(i) => {
                            let left = state.samples.remove(i);
                            let shorter = CollectorState { samples: left, ..state };
                            lemma_fewer_samples(state, shorter, i);
                            lemma_selection_kept(shorter);
                            if name@ == "select"@ {
                                lemma_same_names(
                                    CollectorState { selected: None, ..state },
                                    CollectorState { selected: None, ..after },
                                );
                            } else if after.samples.len() == state.samples.len() {
                                lemma_same_names(state, after);
                            }
                        },
                        None => {},
                    }
                }
            }
        },
        _ => {},
    }
}

/// Another usable configuration leaves a collector sound, however much smaller it is.
pub proof fn law_configuration_keeps_collector_sound(state: CollectorState, config: JsonTree)
    requires
        sound(state),
        most_samples(config) > 0,
    ensures
        sound(state.configured(config)),
{
    let most = most_samples(config);
    law_shrunk_cache_is_bounded(state.pending_images, most);
    law_shrunk_cache_is_bounded(state.pending_scores, most);
    law_shrunk_cache_is_bounded(state.cached_images, most);
    let samples = if state.samples.len() > most {
        state.samples.take(most as int)
    } else {
        state.samples
    };
    let middle = CollectorState {
        config,
        samples,
        pending_images: crate::engine::nodes::frame_cache::shrunk(state.pending_images, most),
        pending_scores: crate::engine::nodes::frame_cache::shrunk(state.pending_scores, most),
        cached_images: crate::engine::nodes::frame_cache::shrunk(state.cached_images, most),
        ..state
    };
    lemma_selection_kept(middle);
    lemma_fewer_samples(state, state.configured(config), samples.len() as int);
}

/// An image joins the sample of its own frame and of no other.
pub proof fn law_image_joins_its_own_frame(state: CollectorState, image: ImageFrameView, i: int)
    requires
        0 <= i < state.samples.len(),
        state.samples[i].identity != image.identity,
    ensures
        state.image_recorded(image).0.samples.len() == state.samples.len(),
        state.image_recorded(image).0.samples[i] == state.samples[i],
{
    lemma_frame_index(state.samples, image.identity);
}

/// An image that came before the detection of its frame is the image of the sample.
pub proof fn law_early_image_joins_detection(
    state: CollectorState,
    image: ImageFrameView,
    detection: ChessboardDetection,
)
    requires
        sound(state),
        state.next_id < u64::MAX,
        state.samples.len() < most_samples(state.config),
        frame_index(state.samples, image.identity) is None,
    ensures
        ({
            let after = state.image_recorded(image).0.detection_recorded(
                detection,
                image.identity,
            ).0;
            let sample = after.samples.last();
            &&& after.samples.len() == state.samples.len() + 1
            &&& sample.identity == image.identity
            &&& sample.sample.image_ref == image_ref_of(image)
            &&& sample.sample.detection == detection
            &&& sample.sample.acceptance == (DatasetSampleAcceptance {
                accepted: true,
                enabled: true,
            })
        }),
{
    law_store_then_get(
        state.pending_images,
        EntryView { identity: image.identity, value: image_ref_of(image) },
        most_samples(state.config),
    );
}

/// A sample can be shown as soon as its image came in, and the image that is shown is that one.
pub proof fn law_preview_is_the_image_of_the_sample(
    state: CollectorState,
    image: ImageFrameView,
    i: int,
)
    requires
        sound(state),
        0 <= i < state.samples.len(),
        state.samples[i].identity == image.identity,
    ensures
        state.image_recorded(image).0.preview(state.samples[i].sample.id) == Ok::<
            ImageFrameView,
            crate::engine::node::NodeErrorView,
        >(image),
{
    let id = state.samples[i].sample.id;
    let after = state.image_recorded(image).0;
    law_store_then_get(
        state.cached_images,
        EntryView { identity: image.identity, value: image },
        most_samples(state.config),
    );
    lemma_frame_index(state.samples, image.identity);
    lemma_id_index(after.samples, id);
    assert(frame_index(state.samples, image.identity) is Some);
    assert(after.samples[i].sample.id == id);
    let k = id_index(after.samples, id)->Some_0;
    assert(after.samples[k].sample.id == state.samples[k].sample.id);
    if k != i {
        if k < i {
            assert(state.samples[k].sample.id != state.samples[i].sample.id);
        } else {
            assert(state.samples[i].sample.id != state.samples[k].sample.id);
        }
    }
}

/// A sample that was rejected and accepted again is what it was, and so is one that was disabled and
/// enabled again.
pub proof fn law_judgements_can_be_undone(state: CollectorState, id: Seq<char>)
    requires
        id_index(state.samples, id) is Some,
        state.samples[id_index(state.samples, id)->Some_0].sample.acceptance.accepted,
        state.samples[id_index(state.samples, id)->Some_0].sample.acceptance.enabled,
    ensures
        state.acted("reject"@, id).0.acted("accept"@, id).0 == state,
        state.acted("disable"@, id).0.acted("enable"@, id).0 == state,
{
    reveal_strlit("delete");
    reveal_strlit("accept");
    reveal_strlit("reject");
    reveal_strlit("enable");
    reveal_strlit("disable");
    assert("delete"@[0] == 'd' && "accept"@[0] == 'a' && "reject"@[0] == 'r' && "enable"@[0]
        == 'e' && "disable"@[0] == 'd');
    assert("delete"@.len() != "disable"@.len());
    lemma_id_index(state.samples, id);
    let rejected = state.acted("reject"@, id).0;
    let disabled = state.acted("disable"@, id).0;
    lemma_id_index(rejected.samples, id);
    lemma_id_index(disabled.samples, id);
    let i = id_index(state.samples, id)->Some_0;
    assert(rejected.samples[i].sample.id == id);
    assert(disabled.samples[i].sample.id == id);
    assert forall|j: int| 0 <= j < i implies (#[trigger] rejected.samples[j]).sample.id != id by {
        assert(rejected.samples[j] == state.samples[j]);
    }
    assert forall|j: int| 0 <= j < i implies (#[trigger] disabled.samples[j]).sample.id != id by {
        assert(disabled.samples[j] == state.samples[j]);
    }
    assert(rejected.acted("accept"@, id).0.samples =~= state.samples);
    assert(disabled.acted("enable"@, id).0.samples =~= state.samples);
}

} // verus!
