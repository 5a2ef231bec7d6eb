//! Counting coverage regions up to a target, and the gain that an item adds.
use vstd::prelude::*;

verus! {

/// The sum of two counts, stopping at the largest count.
pub open spec fn saturated(a: int, b: int) -> usize {
    if a + b > usize::MAX {
        usize::MAX
    } else {
        (a + b) as usize
    }
}

/// A total as a count, stopping at the largest count.
pub open spec fn count_of(total: nat) -> usize {
    saturated(total as int, 0)
}

/// The part of a count that a target asks for.
pub open spec fn capped(count: usize, target: usize) -> usize {
    if count <= target {
        count
    } else {
        target
    }
}

/// The counts after each increment has been added to its region.
pub open spec fn accumulated(counts: Seq<usize>, increments: Seq<(usize, usize)>) -> Seq<usize>
    decreases increments.len(),
{
    if increments.len() == 0 {
        counts
    } else {
        let before = accumulated(counts, increments.drop_last());
        let (region, n) = increments.last();
        before.update(region as int, saturated(before[region as int] as int, n as int))
    }
}

/// The growth of the capped counts while the increments are added one after the other.
pub open spec fn gained(counts: Seq<usize>, target: usize, increments: Seq<(usize, usize)>) -> nat
    decreases increments.len(),
{
    if increments.len() == 0 {
        0
    } else {
        let before = accumulated(counts, increments.drop_last());
        let after = accumulated(counts, increments);
        let region = increments.last().0 as int;
        gained(counts, target, increments.drop_last()) + (capped(after[region], target) - capped(
            before[region],
            target,
        )) as nat
    }
}

/// Whether every increment names an existing region.
pub open spec fn within(increments: Seq<(usize, usize)>, regions: nat) -> bool {
    forall|i: int| 0 <= i < increments.len() ==> (#[trigger] increments[i]).0 < regions
}

/// The total of the counts, each capped at the target.
pub open spec fn capped_total(counts: Seq<usize>, target: usize) -> nat
    decreases counts.len(),
{
    if counts.len() == 0 {
        0
    } else {
        capped_total(counts.drop_last(), target) + capped(counts.last(), target) as nat
    }
}

/// The number of regions that hold anything.
pub open spec fn occupied_count(counts: Seq<usize>) -> nat
    decreases counts.len(),
{
    if counts.len() == 0 {
        0
    } else {
        occupied_count(counts.drop_last()) + if counts.last() != 0 {
            1nat
        } else {
            0nat
        }
    }
}

/// The regions that hold anything, each with its count, in order.
pub open spec fn occupied(counts: Seq<usize>) -> Seq<(usize, usize)>
    decreases counts.len(),
{
    if counts.len() == 0 {
        Seq::empty()
    } else if counts.last() != 0 {
        occupied(counts.drop_last()).push(((counts.len() - 1) as usize, counts.last()))
    } else {
        occupied(counts.drop_last())
    }
}

/// Empty counts for a number of regions.
pub open spec fn zeros(n: nat) -> Seq<usize> {
    Seq::new(n, |i: int| 0usize)
}

/// One increment of one for each listed region.
pub open spec fn ones(regions: Seq<usize>) -> Seq<(usize, usize)> {
    regions.map_values(|region: usize| (region, 1usize))
}

/// Adding increments keeps the number of regions.
pub proof fn lemma_accumulated_len(counts: Seq<usize>, increments: Seq<(usize, usize)>)
    requires
        within(increments, counts.len()),
    ensures
        accumulated(counts, increments).len() == counts.len(),
    decreases increments.len(),
{
    if increments.len() > 0 {
        lemma_within_drop_last(increments, counts.len());
        lemma_accumulated_len(counts, increments.drop_last());
        assert(increments.last() == increments[increments.len() - 1]);
    }
}

proof fn lemma_within_drop_last(increments: Seq<(usize, usize)>, regions: nat)
    requires
        increments.len() > 0,
        within(increments, regions),
    ensures
        within(increments.drop_last(), regions),
{
    let earlier = increments.drop_last();
    assert forall|i: int| 0 <= i < earlier.len() implies (#[trigger] earlier[i]).0 < regions by {
        assert(earlier[i] == increments[i]);
    }
}

proof fn lemma_capped_total_update(counts: Seq<usize>, target: usize, region: int, value: usize)
    requires
        0 <= region < counts.len(),
    ensures
        capped_total(counts.update(region, value), target) == capped_total(counts, target) + capped(
            value,
            target,
        ) - capped(counts[region], target),
    decreases counts.len(),
{
    let updated = counts.update(region, value);
    if region == counts.len() - 1 {
        assert(updated.drop_last() =~= counts.drop_last());
    } else {
        assert(updated.drop_last() =~= counts.drop_last().update(region, value));
        lemma_capped_total_update(counts.drop_last(), target, region, value);
    }
}

/// The gain of some increments is exactly what they add to the capped total.
pub proof fn lemma_gain_is_growth(
    counts: Seq<usize>,
    target: usize,
    increments: Seq<(usize, usize)>,
)
    requires
        within(increments, counts.len()),
    ensures
        capped_total(accumulated(counts, increments), target) == capped_total(counts, target)
            + gained(counts, target, increments),
    decreases increments.len(),
{
    if increments.len() > 0 {
        let earlier = increments.drop_last();
        lemma_within_drop_last(increments, counts.len());
        lemma_gain_is_growth(counts, target, earlier);
        let before = accumulated(counts, earlier);
        lemma_accumulated_len(counts, earlier);
        let (region, n) = increments.last();
        assert(region < counts.len()) by {
            assert(increments.last() == increments[increments.len() - 1]);
        }
        lemma_capped_total_update(
            before,
            target,
            region as int,
            saturated(before[region as int] as int, n as int),
        );
    }
}

/// No total exceeds the quota: the number of regions times the target.
pub proof fn lemma_capped_total_within_quota(counts: Seq<usize>, target: usize)
    ensures
        capped_total(counts, target) <= counts.len() * target,
    decreases counts.len(),
{
    if counts.len() > 0 {
        lemma_capped_total_within_quota(counts.drop_last(), target);
        assert((counts.len() - 1) * target + target == counts.len() * target) by (nonlinear_arith);
    } else {
        assert(counts.len() * target == 0) by (nonlinear_arith)
            requires
                counts.len() == 0,
        ;
    }
}

/// A total reaches the quota exactly when every region has reached the target.
pub proof fn lemma_quota_filled(counts: Seq<usize>, target: usize)
    ensures
        capped_total(counts, target) == counts.len() * target <==> (forall|i: int|
            0 <= i < counts.len() ==> #[trigger] counts[i] >= target),
    decreases counts.len(),
{
    if counts.len() > 0 {
        let init = counts.drop_last();
        lemma_quota_filled(init, target);
        lemma_capped_total_within_quota(init, target);
        assert((counts.len() - 1) * target + target == counts.len() * target) by (nonlinear_arith);
        assert(forall|i: int| 0 <= i < init.len() ==> init[i] == counts[i]);
        assert(counts.last() == counts[counts.len() - 1]);
        if capped_total(counts, target) == counts.len() * target {
            assert forall|i: int| 0 <= i < counts.len() implies #[trigger] counts[i] >= target by {
                if i < init.len() {
                    assert(init[i] >= target);
                }
            }
        }
        if forall|i: int| 0 <= i < counts.len() ==> #[trigger] counts[i] >= target {
            assert forall|i: int| 0 <= i < init.len() implies #[trigger] init[i] >= target by {
                assert(counts[i] >= target);
            }
        }
    } else {
        assert(counts.len() * target == 0) by (nonlinear_arith)
            requires
                counts.len() == 0,
        ;
    }
}

fn add_saturating(a: usize, b: usize) -> (r: usize)
    ensures
        r == saturated(a as int, b as int),
{
    if a > usize::MAX - b {
        usize::MAX
    } else {
        a + b
    }
}

fn cap(count: usize, target: usize) -> (r: usize)
    ensures
        r == capped(count, target),
{
    if count <= target {
        count
    } else {
        target
    }
}

/// Adds the increments to their regions and returns how much the capped counts grew.
pub fn target_capped_region_gain(
    counts: &mut Vec<usize>,
    target_per_region: usize,
    increments: &Vec<(usize, usize)>,
) -> (gain: usize)
    requires
        within(increments@, old(counts)@.len()),
    ensures
        final(counts)@ == accumulated(old(counts)@, increments@),
        gain == count_of(gained(old(counts)@, target_per_region, increments@)),
{
    let ghost start = counts@;
    let mut gain: usize = 0;
    let mut i: usize = 0;
    proof {
        assert(increments@.take(0) =~= Seq::<(usize, usize)>::empty());
    }
    while i < increments.len()
        invariant
            i <= increments@.len(),
            within(increments@, start.len()),
            counts@ == accumulated(start, increments@.take(i as int)),
            counts@.len() == start.len(),
            gain == count_of(gained(start, target_per_region, increments@.take(i as int))),
        decreases increments@.len() - i,
    {
        let (region, increment) = increments[i];
        proof {
            let next = increments@.take(i + 1);
            assert(next.drop_last() =~= increments@.take(i as int));
            assert(next.last() == increments@[i as int]);
            assert(increments@[i as int].0 < start.len());
        }
        let before: usize = cap(counts[region], target_per_region);
        let raised: usize = add_saturating(counts[region], increment);
        counts.set(region, raised);
        let after: usize = cap(raised, target_per_region);
        gain = add_saturating(gain, after - before);
        i = i + 1;
    }
    proof {
        assert(increments@.take(i as int) =~= increments@);
    }
    gain
}

/// Adds the increments to their regions.
pub fn add_counts(counts: &mut Vec<usize>, increments: &Vec<(usize, usize)>)
    requires
        within(increments@, old(counts)@.len()),
    ensures
        final(counts)@ == accumulated(old(counts)@, increments@),
{
    let _gain: usize = target_capped_region_gain(counts, 0, increments);
}

/// The total of the counts, each capped at the target.
pub fn capped_region_score(counts: &Vec<usize>, target_per_region: usize) -> (r: usize)
    ensures
        r == count_of(capped_total(counts@, target_per_region)),
{
    let mut total: usize = 0;
    let mut i: usize = 0;
    proof {
        assert(counts@.take(0) =~= Seq::<usize>::empty());
    }
    while i < counts.len()
        invariant
            i <= counts@.len(),
            total == count_of(capped_total(counts@.take(i as int), target_per_region)),
        decreases counts@.len() - i,
    {
        proof {
            let next = counts@.take(i + 1);
            assert(next.drop_last() =~= counts@.take(i as int));
            assert(next.last() == counts@[i as int]);
        }
        total = add_saturating(total, cap(counts[i], target_per_region));
        i = i + 1;
    }
    proof {
        assert(counts@.take(i as int) =~= counts@);
    }
    total
}

/// The quota of a number of regions.
pub fn capped_region_target(region_count: usize, target_per_region: usize) -> (r: usize)
    ensures
        r == count_of((region_count * target_per_region) as nat),
{
    proof {
        assert(region_count * target_per_region >= 0) by (nonlinear_arith)
            requires
                region_count >= 0,
                target_per_region >= 0,
        ;
    }
    match region_count.checked_mul(target_per_region) {
        Some(n) => n,
        None => usize::MAX,
    }
}

/// The number of regions that hold anything.
pub fn count_occupied(counts: &Vec<usize>) -> (r: usize)
    ensures
        r == occupied_count(counts@),
        r <= counts@.len(),
{
    let mut n: usize = 0;
    let mut i: usize = 0;
    proof {
        assert(counts@.take(0) =~= Seq::<usize>::empty());
    }
    while i < counts.len()
        invariant
            i <= counts@.len(),
            n <= i,
            n == occupied_count(counts@.take(i as int)),
        decreases counts@.len() - i,
    {
        proof {
            let next = counts@.take(i + 1);
            assert(next.drop_last() =~= counts@.take(i as int));
            assert(next.last() == counts@[i as int]);
        }
        if counts[i] != 0 {
            n = n + 1;
        }
        i = i + 1;
    }
    proof {
        assert(counts@.take(i as int) =~= counts@);
    }
    n
}

/// The regions that hold anything, each with its count.
pub fn occupied_regions(counts: &Vec<usize>) -> (r: Vec<(usize, usize)>)
    ensures
        r@ == occupied(counts@),
        within(r@, counts@.len()),
{
    let mut out: Vec<(usize, usize)> = Vec::new();
    let mut i: usize = 0;
    proof {
        assert(counts@.take(0) =~= Seq::<usize>::empty());
    }
    while i < counts.len()
        invariant
            i <= counts@.len(),
            out@ == occupied(counts@.take(i as int)),
            within(out@, counts@.len()),
        decreases counts@.len() - i,
    {
        proof {
            let next = counts@.take(i + 1);
            assert(next.drop_last() =~= counts@.take(i as int));
            assert(next.last() == counts@[i as int]);
        }
        if counts[i] != 0 {
            out.push((i, counts[i]));
        }
        i = i + 1;
    }
    proof {
        assert(counts@.take(i as int) =~= counts@);
    }
    out
}

/// Empty counts.
pub fn zero_counts(n: usize) -> (r: Vec<usize>)
    ensures
        r@ == zeros(n as nat),
{
    let mut out: Vec<usize> = Vec::new();
    let mut i: usize = 0;
    while i < n
        invariant
            i <= n,
            out@ == zeros(i as nat),
        decreases n - i,
    {
        out.push(0);
        i = i + 1;
        proof {
            assert(out@ =~= zeros(i as nat));
        }
    }
    out
}

} // verus!
