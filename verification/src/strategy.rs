//! The transfer strategies: their names, and where each slot of the transferred
//! knowledge comes from under the strategies that copy rather than blend.

use vstd::prelude::*;

verus! {

/// The four ways of moving knowledge from a source task to a target task.
#[derive(Debug, Clone, Copy, PartialEq, Eq, Structural)]
pub enum StrategyKind {
    /// Copy source knowledge directly to the target.
    DirectCopy,
    /// Blend source knowledge with the target baseline.
    WeightedBlend,
    /// Transfer only selected features.
    SelectiveTransfer,
    /// Blend repeatedly with a decaying share of the source.
    Progressive,
}

impl StrategyKind {
    /// The name of the strategy.
    pub open spec fn spec_name(self) -> Seq<char> {
        match self {
            StrategyKind::DirectCopy => "direct_copy"@,
            StrategyKind::WeightedBlend => "weighted_blend"@,
            StrategyKind::SelectiveTransfer => "selective_transfer"@,
            StrategyKind::Progressive => "progressive"@,
        }
    }

    /// A human-readable name for this strategy.
    pub fn name(self) -> (r: &'static str)
        ensures
            r@ == self.spec_name(),
    {
        match self {
            StrategyKind::DirectCopy => "direct_copy",
            StrategyKind::WeightedBlend => "weighted_blend",
            StrategyKind::SelectiveTransfer => "selective_transfer",
            StrategyKind::Progressive => "progressive",
        }
    }
}

/// Where one weight of the transferred knowledge is taken from.
#[derive(Debug, Clone, Copy, PartialEq, Eq, Structural)]
pub enum SlotOrigin {
    /// The source weight at the same position.
    Source,
    /// The target's baseline weight at the same position.
    Baseline,
    /// Neither: the weight is zero.
    Zero,
}

/// Under a direct copy, slot `i` of a target with `source_len` source weights.
pub open spec fn direct_copy_origin(i: int, source_len: int) -> SlotOrigin {
    if i < source_len {
        SlotOrigin::Source
    } else {
        SlotOrigin::Zero
    }
}

/// Under a selective transfer of `indices`, slot `i` of the transferred knowledge.
pub open spec fn selective_origin(indices: Seq<usize>, i: int, source_len: int, baseline_len: int) -> SlotOrigin {
    if 0 <= i < source_len && indices.contains(i as usize) {
        SlotOrigin::Source
    } else if i < baseline_len {
        SlotOrigin::Baseline
    } else {
        SlotOrigin::Zero
    }
}

/// The slots of a direct copy into a target of `n` features: the source weights
/// where the source has them, zero past the end of the source (the copy is
/// padded when the source is smaller and truncated when it is larger).
pub fn direct_copy_plan(n: usize, source_len: usize) -> (r: Vec<SlotOrigin>)
    ensures
        r.len() == n,
        forall|i: int| 0 <= i < n ==> #[trigger] r@[i] == direct_copy_origin(i, source_len as int),
        forall|i: int| 0 <= i < n && i < source_len ==> #[trigger] r@[i] == SlotOrigin::Source,
        forall|i: int| 0 <= i < n && i >= source_len ==> #[trigger] r@[i] == SlotOrigin::Zero,
{
    let mut r: Vec<SlotOrigin> = Vec::new();
    let mut i: usize = 0;
    while i < n
        invariant
            i <= n,
            r.len() == i,
            forall|k: int| 0 <= k < i ==> #[trigger] r@[k] == direct_copy_origin(k, source_len as int),
        decreases n - i,
    {
        if i < source_len {
            r.push(SlotOrigin::Source);
        } else {
            r.push(SlotOrigin::Zero);
        }
        i = i + 1;
    }
    assert forall|i: int| 0 <= i < n implies
        (i < source_len ==> #[trigger] r@[i] == SlotOrigin::Source) && (i >= source_len ==> r@[i] == SlotOrigin::Zero) by {
    }
    r
}

/// The slots of a selective transfer into a target of `n` features: a selected
/// index takes the source weight where both the source and the target have that
/// position; every other slot keeps the baseline weight, or zero past the end of
/// the baseline. Indices out of range are ignored.
pub fn selective_plan(indices: &Vec<usize>, n: usize, source_len: usize, baseline_len: usize) -> (r: Vec<SlotOrigin>)
    ensures
        r.len() == n,
        forall|i: int| 0 <= i < n ==> #[trigger] r@[i] == selective_origin(indices@, i, source_len as int, baseline_len as int),
        forall|i: int, k: int| #![trigger r@[i], indices@[k]]
            0 <= i < n && i < source_len && 0 <= k < indices.len() && indices@[k] == i
            ==> r@[i] == SlotOrigin::Source,
        forall|i: int| 0 <= i < n && !(i < source_len && exists|k: int| 0 <= k < indices.len() && indices@[k] == i)
            ==> #[trigger] r@[i] == (if i < baseline_len { SlotOrigin::Baseline } else { SlotOrigin::Zero }),
{
    let mut r: Vec<SlotOrigin> = Vec::new();
    let mut i: usize = 0;
    while i < n
        invariant
            i <= n,
            r.len() == i,
            forall|k: int| 0 <= k < i ==> r@[k] == (if k < baseline_len { SlotOrigin::Baseline } else { SlotOrigin::Zero }),
        decreases n - i,
    {
        if i < baseline_len {
            r.push(SlotOrigin::Baseline);
        } else {
            r.push(SlotOrigin::Zero);
        }
        i = i + 1;
    }
    let mut j: usize = 0;
    while j < indices.len()
        invariant
            j <= indices.len(),
            r.len() == n,
            forall|k: int| 0 <= k < n ==> r@[k] == (
                if k < source_len && indices@.take(j as int).contains(k as usize) {
                    SlotOrigin::Source
                } else if k < baseline_len {
                    SlotOrigin::Baseline
                } else {
                    SlotOrigin::Zero
                }),
        decreases indices.len() - j,
    {
        let idx = indices[j];
        let ghost seen = indices@.take(j as int);
        let ghost next = indices@.take(j + 1);
        assert(next =~= seen.push(idx));
        let ghost before = r@;
        if idx < n && idx < source_len {
            r.set(idx, SlotOrigin::Source);
        }
        assert forall|k: int| 0 <= k < n implies #[trigger] r@[k] == (
                if k < source_len && next.contains(k as usize) {
                    SlotOrigin::Source
                } else if k < baseline_len {
                    SlotOrigin::Baseline
                } else {
                    SlotOrigin::Zero
                }) by {
            assert(k != idx ==> r@[k] == before[k]);
            assert(next[j as int] == idx);
            if next.contains(k as usize) && !seen.contains(k as usize) {
                let w = choose|w: int| 0 <= w < next.len() && next[w] == k as usize;
                assert(w == j);
            }
            if seen.contains(k as usize) {
                let w = choose|w: int| 0 <= w < seen.len() && seen[w] == k as usize;
                assert(next[w] == k as usize);
            }
        }
        j = j + 1;
    }
    assert(indices@.take(indices.len() as int) =~= indices@);
    assert forall|i: int, k: int| #![trigger r@[i], indices@[k]]
        0 <= i < n && i < source_len && 0 <= k < indices.len() && indices@[k] == i
        implies r@[i] == SlotOrigin::Source by {
        assert(indices@.contains(i as usize));
    }
    assert forall|i: int| 0 <= i < n && !(i < source_len && exists|k: int| 0 <= k < indices.len() && indices@[k] == i)
        implies #[trigger] r@[i] == (if i < baseline_len { SlotOrigin::Baseline } else { SlotOrigin::Zero }) by {
        if i < source_len && indices@.contains(i as usize) {
            let k = choose|k: int| 0 <= k < indices.len() && indices@[k] == i as usize;
            assert(indices@[k] == i);
        }
    }
    r
}

/// A direct copy takes every source weight that fits in the target and nothing
/// else: a slot before the end of the source is a source slot, every later slot is zero.
pub proof fn lemma_direct_copy_slots(i: int, source_len: int)
    requires
        0 <= i,
    ensures
        i < source_len ==> direct_copy_origin(i, source_len) == SlotOrigin::Source,
        i >= source_len ==> direct_copy_origin(i, source_len) == SlotOrigin::Zero,
        direct_copy_origin(i, source_len) != SlotOrigin::Baseline,
{
}

/// Under a selective transfer, a selected index inside the source is a source slot
/// whatever the baseline's length; an unselected slot, or one past the source, keeps
/// the baseline where there is one and is zero past it. So the baseline's length
/// never decides whether a slot takes the source weight.
pub proof fn lemma_selective_slots(indices: Seq<usize>, i: int, source_len: int, baseline_len: int, other_baseline_len: int)
    requires
        0 <= i <= usize::MAX,
    ensures
        (i < source_len && exists|k: int| 0 <= k < indices.len() && indices[k] == i)
            ==> selective_origin(indices, i, source_len, baseline_len) == SlotOrigin::Source,
        !(i < source_len && exists|k: int| 0 <= k < indices.len() && indices[k] == i)
            ==> selective_origin(indices, i, source_len, baseline_len)
                == (if i < baseline_len { SlotOrigin::Baseline } else { SlotOrigin::Zero }),
        (selective_origin(indices, i, source_len, baseline_len) == SlotOrigin::Source)
            == (selective_origin(indices, i, source_len, other_baseline_len) == SlotOrigin::Source),
{
    if i < source_len && exists|k: int| 0 <= k < indices.len() && indices[k] == i {
        let k = choose|k: int| 0 <= k < indices.len() && indices[k] == i;
        assert(indices.contains(i as usize));
    }
    if i < source_len && indices.contains(i as usize) {
        let k = choose|k: int| 0 <= k < indices.len() && indices[k] == i as usize;
        assert(indices[k] == i);
    }
}

} // verus!
