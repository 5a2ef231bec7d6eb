//! The kinds of nodes that come with the engine.
use crate::engine::registry::{
    kinds_distinct, law_registering_keeps_kinds_distinct, named, registered, NodeRegistry,
};
use vstd::prelude::*;

verus! {

/// The kinds that come with the engine, in the order of their registration.
pub open spec fn builtin_kinds() -> Seq<Seq<char>> {
    seq![
        "rtspSource"@,
        "rtspDecoder"@,
        "frameSampler"@,
        "videoLayer"@,
        "demosaic"@,
        "imageLayer"@,
        "viewer"@,
        "calibrationBoardParams"@,
        "cameraInitialParams"@,
        "calibrationSolver"@,
        "autoCaptureController"@,
        "overlayComposer"@,
        "datasetCollector"@,
        "coverageAnalyzer"@,
        "poseGuide"@,
        "poseEstimator"@,
        "chessboardDetector"@,
        "calibrationFrameScorer"@,
        "scoreThresholdGate"@,
        "consecutiveHoldGate"@,
        "captureRequestBuilder"@,
        "localFileSource"@,
        "sftpFileSource"@,
        "sshSession"@,
        "x5233Driver"@,
        "hexArmDevice"@,
        "sshConnection"@,
        "structuredFieldExtractor"@,
        "i2cTaskBuilder"@,
    ]
}

/// Texts by their characters.
pub open spec fn names(items: Seq<&'static str>) -> Seq<Seq<char>> {
    items.map_values(|item: &'static str| item@)
}

fn list_builtin_kinds() -> (r: Vec<&'static str>)
    ensures
        names(r@) == builtin_kinds(),
{
    let mut r: Vec<&'static str> = Vec::new();
    r.push("rtspSource");
    r.push("rtspDecoder");
    r.push("frameSampler");
    r.push("videoLayer");
    r.push("demosaic");
    r.push("imageLayer");
    r.push("viewer");
    r.push("calibrationBoardParams");
    r.push("cameraInitialParams");
    r.push("calibrationSolver");
    r.push("autoCaptureController");
    r.push("overlayComposer");
    r.push("datasetCollector");
    r.push("coverageAnalyzer");
    r.push("poseGuide");
    r.push("poseEstimator");
    r.push("chessboardDetector");
    r.push("calibrationFrameScorer");
    r.push("scoreThresholdGate");
    r.push("consecutiveHoldGate");
    r.push("captureRequestBuilder");
    r.push("localFileSource");
    r.push("sftpFileSource");
    r.push("sshSession");
    r.push("x5233Driver");
    r.push("hexArmDevice");
    r.push("sshConnection");
    r.push("structuredFieldExtractor");
    r.push("i2cTaskBuilder");
    proof {
        assert(names(r@) =~= builtin_kinds());
    }
    r
}

/// Kinds with some more, registered one after the other.
pub open spec fn registered_all(kinds: Seq<Seq<char>>, more: Seq<Seq<char>>) -> Seq<Seq<char>>
    decreases more.len(),
{
    if more.len() == 0 {
        kinds
    } else {
        registered(registered_all(kinds, more.drop_last()), more.last())
    }
}

/// Registers the nodes that come with the engine.
pub fn register_builtin(registry: &mut NodeRegistry)
    ensures
        final(registry)@ == registered_all(old(registry)@, builtin_kinds()),
{
    let kinds: Vec<&'static str> = list_builtin_kinds();
    let ghost views = builtin_kinds();
    let mut i: usize = 0;
    proof {
        assert(names(kinds@).len() == kinds@.len());
    }
    while i < kinds.len()
        invariant
            i <= kinds@.len() == views.len(),
            names(kinds@) == views,
            views == builtin_kinds(),
            registry@ == registered_all(old(registry)@, views.take(i as int)),
        decreases kinds@.len() - i,
    {
        let ghost next = views.take(i + 1);
        proof {
            assert(next.drop_last() =~= views.take(i as int));
            assert(next.last() == names(kinds@)[i as int]);
        }
        registry.register(kinds[i]);
        i = i + 1;
    }
    proof {
        assert(views.take(i as int) =~= views);
    }
}

/// Kinds that are registered one after the other are all known afterwards, each of them once, and
/// none that was known is forgotten.
pub proof fn law_registered_kinds_are_known(kinds: Seq<Seq<char>>, more: Seq<Seq<char>>)
    requires
        kinds_distinct(kinds),
    ensures
        kinds_distinct(registered_all(kinds, more)),
        forall|i: int|
            0 <= i < more.len() ==> named(registered_all(kinds, more), #[trigger] more[i]),
        forall|i: int|
            0 <= i < kinds.len() ==> named(registered_all(kinds, more), #[trigger] kinds[i]),
    decreases more.len(),
{
    let all = registered_all(kinds, more);
    if more.len() == 0 {
        assert forall|i: int| 0 <= i < kinds.len() implies named(all, #[trigger] kinds[i]) by {
            assert(all[i] == kinds[i]);
        }
    } else {
        let init = more.drop_last();
        let earlier = registered_all(kinds, init);
        law_registered_kinds_are_known(kinds, init);
        law_registering_keeps_kinds_distinct(earlier, more.last());
        assert forall|kind: Seq<char>| named(earlier, kind) implies #[trigger] named(all, kind) by {
            let i = choose|i: int| 0 <= i < earlier.len() && #[trigger] earlier[i] == kind;
            assert(all[i] == kind);
        }
        assert forall|i: int| 0 <= i < more.len() implies named(all, #[trigger] more[i]) by {
            if i < init.len() {
                assert(more[i] == init[i]);
                assert(named(earlier, init[i]));
            }
        }
        assert forall|i: int| 0 <= i < kinds.len() implies named(all, #[trigger] kinds[i]) by {
            assert(named(earlier, kinds[i]));
        }
    }
}

} // verus!
