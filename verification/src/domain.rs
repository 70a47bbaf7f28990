//! The name matching behind the domain gap between a source and a target task:
//! which source features the target shares, where their partners stand, and on
//! how many of them the expected ternary direction disagrees.

use vstd::prelude::*;
use crate::task::{FeatureTag, has_name, is_first_position, position_of_name, shared_names};

verus! {

/// The names of the features, in order.
pub open spec fn names_of(features: Seq<FeatureTag>) -> Seq<Seq<char>> {
    features.map_values(|f: FeatureTag| f.name@)
}

/// The first target feature named like `f` expects another ternary direction than `f`.
pub open spec fn disagrees(target: Seq<FeatureTag>, f: FeatureTag) -> bool {
    exists|j: int| is_first_position(target, f.name@, j) && target[j].ternary_bias != f.ternary_bias
}

/// How many source features have a partner in the target (the first target
/// feature of the same name) whose ternary bias differs from theirs.
pub open spec fn bias_disagreements(source: Seq<FeatureTag>, target: Seq<FeatureTag>) -> nat
    decreases source.len(),
{
    if source.len() == 0 {
        0
    } else {
        bias_disagreements(source.drop_last(), target) + if disagrees(target, source.last()) {
            1nat
        } else {
            0nat
        }
    }
}

/// How source and target features correspond by name.
pub struct FeatureMatch {
    /// For each source feature, the position of the first target feature with
    /// the same name, if the target has one.
    pub partners: Vec<Option<usize>>,
    /// Number of source features whose name the target also has.
    pub shared_count: usize,
    /// Number of shared source features whose partner expects another ternary direction.
    pub bias_disagreements: usize,
    /// Number of source features plus number of target features.
    pub total_features: usize,
}

/// A name has at most one first position.
pub proof fn lemma_first_position_unique(features: Seq<FeatureTag>, name: Seq<char>, j1: int, j2: int)
    requires
        is_first_position(features, name, j1),
        is_first_position(features, name, j2),
    ensures
        j1 == j2,
{
    if j1 < j2 {
        assert(features[j1].name@ != name);
    } else if j2 < j1 {
        assert(features[j2].name@ != name);
    }
}

impl FeatureMatch {
    /// Matches every source feature with the first target feature of the same name,
    /// and counts the shared features and the disagreements in ternary bias among them.
    pub fn compute(source: &Vec<FeatureTag>, target: &Vec<FeatureTag>) -> (r: FeatureMatch)
        requires
            source.len() + target.len() <= usize::MAX,
        ensures
            r.partners.len() == source.len(),
            forall|i: int| 0 <= i < source.len() ==> {
                &&& (#[trigger] r.partners@[i] matches Some(j) ==> is_first_position(target@, source@[i].name@, j as int))
                &&& (r.partners@[i] is None <==> !has_name(target@, source@[i].name@))
            },
            r.shared_count == shared_names(source@, target@).len(),
            r.bias_disagreements == bias_disagreements(source@, target@),
            r.total_features == source.len() + target.len(),
            r.bias_disagreements <= r.shared_count <= source.len(),
    {
        let mut partners: Vec<Option<usize>> = Vec::new();
        let mut shared_count: usize = 0;
        let mut disagreements: usize = 0;
        let mut i: usize = 0;
        while i < source.len()
            invariant
                i <= source.len(),
                partners.len() == i,
                forall|k: int| 0 <= k < i ==> {
                    &&& (partners@[k] matches Some(j) ==> is_first_position(target@, source@[k].name@, j as int))
                    &&& (partners@[k] is None <==> !has_name(target@, source@[k].name@))
                },
                shared_count == shared_names(source@.take(i as int), target@).len(),
                disagreements == bias_disagreements(source@.take(i as int), target@),
                disagreements <= shared_count <= i,
            decreases source.len() - i,
        {
            let ghost prefix = source@.take(i + 1);
            assert(prefix.drop_last() =~= source@.take(i as int));
            assert(prefix.last() == source@[i as int]);
            let found = position_of_name(target, &source[i].name);
            match found {
                Some(j) => {
                    shared_count = shared_count + 1;
                    if target[j].ternary_bias != source[i].ternary_bias {
                        disagreements = disagreements + 1;
                        assert(disagrees(target@, source@[i as int]));
                    } else {
                        assert(!disagrees(target@, source@[i as int])) by {
                            if disagrees(target@, source@[i as int]) {
                                let j2 = choose|j2: int| is_first_position(target@, source@[i as int].name@, j2)
                                    && target@[j2].ternary_bias != source@[i as int].ternary_bias;
                                lemma_first_position_unique(target@, source@[i as int].name@, j as int, j2);
                            }
                        }
                    }
                },
                None => {
                    assert(!disagrees(target@, source@[i as int]));
                },
            }
            partners.push(found);
            i = i + 1;
        }
        assert(source@.take(source.len() as int) =~= source@);
        FeatureMatch {
            partners,
            shared_count,
            bias_disagreements: disagreements,
            total_features: source.len() + target.len(),
        }
    }
}

/// Every shared name is the name of some source feature and of some target
/// feature, and there are no more shared names than source features.
pub proof fn lemma_shared_names_origin(source: Seq<FeatureTag>, target: Seq<FeatureTag>)
    ensures
        shared_names(source, target).len() <= source.len(),
        forall|k: int| 0 <= k < shared_names(source, target).len() ==> {
            &&& has_name(target, #[trigger] shared_names(source, target)[k])
            &&& names_of(source).contains(shared_names(source, target)[k])
        },
    decreases source.len(),
{
    if source.len() > 0 {
        let rest = source.drop_last();
        lemma_shared_names_origin(rest, target);
        assert forall|k: int| 0 <= k < shared_names(source, target).len() implies
            names_of(source).contains(#[trigger] shared_names(source, target)[k]) by {
            if k < shared_names(rest, target).len() {
                let e = shared_names(rest, target)[k];
                let w = choose|w: int| 0 <= w < names_of(rest).len() && names_of(rest)[w] == e;
                assert(names_of(source)[w] == e);
            } else {
                assert(names_of(source)[source.len() - 1] == source.last().name@);
            }
        }
    }
}

/// Where no two source features share a name, no shared name appears twice.
pub proof fn lemma_shared_names_distinct(source: Seq<FeatureTag>, target: Seq<FeatureTag>)
    requires
        names_of(source).no_duplicates(),
    ensures
        shared_names(source, target).no_duplicates(),
    decreases source.len(),
{
    if source.len() > 0 {
        let rest = source.drop_last();
        assert(names_of(rest) =~= names_of(source).drop_last());
        lemma_shared_names_distinct(rest, target);
        lemma_shared_names_origin(rest, target);
        if has_name(target, source.last().name@) {
            let last = source.last().name@;
            assert(!names_of(rest).contains(last)) by {
                if names_of(rest).contains(last) {
                    let w = choose|w: int| 0 <= w < names_of(rest).len() && names_of(rest)[w] == last;
                    assert(names_of(source)[w] == names_of(source)[source.len() - 1]);
                }
            }
            assert forall|a: int, b: int|
                0 <= a < shared_names(source, target).len() && 0 <= b < shared_names(source, target).len()
                && a != b implies shared_names(source, target)[a] != shared_names(source, target)[b] by {
                let n = shared_names(rest, target).len();
                if a < n && b < n {
                } else if a < n {
                    assert(names_of(rest).contains(shared_names(rest, target)[a]));
                } else if b < n {
                    assert(names_of(rest).contains(shared_names(rest, target)[b]));
                }
            }
        }
    }
}

/// The number of disagreements in ternary bias never exceeds the number of shared features.
pub proof fn lemma_disagreements_within_shared(source: Seq<FeatureTag>, target: Seq<FeatureTag>)
    ensures
        bias_disagreements(source, target) <= shared_names(source, target).len(),
    decreases source.len(),
{
    if source.len() > 0 {
        lemma_disagreements_within_shared(source.drop_last(), target);
    }
}

/// The feature overlap `2 |shared| / (|S| + |T|)` is at most one where the source
/// features have distinct names: twice the number of shared features never exceeds
/// the number of source and target features together.
pub proof fn lemma_overlap_at_most_one(source: Seq<FeatureTag>, target: Seq<FeatureTag>)
    requires
        names_of(source).no_duplicates(),
    ensures
        2 * shared_names(source, target).len() <= source.len() + target.len(),
{
    broadcast use vstd::seq_lib::seq_to_set_is_finite;
    let shared = shared_names(source, target);
    lemma_shared_names_origin(source, target);
    lemma_shared_names_distinct(source, target);
    shared.unique_seq_to_set();
    names_of(target).lemma_cardinality_of_set();
    assert(shared.to_set().subset_of(names_of(target).to_set())) by {
        assert forall|e: Seq<char>| shared.to_set().contains(e) implies names_of(target).to_set().contains(e) by {
            let k = choose|k: int| 0 <= k < shared.len() && shared[k] == e;
            assert(has_name(target, shared[k]));
            let j = choose|j: int| 0 <= j < target.len() && target[j].name@ == e;
            assert(names_of(target)[j] == e);
        }
    }
    vstd::set_lib::lemma_len_subset(shared.to_set(), names_of(target).to_set());
}

/// Where the target has every source name, every source feature is shared.
pub proof fn lemma_all_names_shared(source: Seq<FeatureTag>, target: Seq<FeatureTag>)
    requires
        forall|i: int| 0 <= i < source.len() ==> has_name(target, #[trigger] source[i].name@),
    ensures
        shared_names(source, target).len() == source.len(),
    decreases source.len(),
{
    if source.len() > 0 {
        let rest = source.drop_last();
        assert forall|i: int| 0 <= i < rest.len() implies has_name(target, #[trigger] rest[i].name@) by {
            assert(rest[i] == source[i]);
        }
        lemma_all_names_shared(rest, target);
        assert(has_name(target, source[source.len() - 1].name@));
    }
}

/// Where no two target features share a name, no prefix of the target disagrees
/// with the target itself on any ternary bias.
proof fn lemma_prefix_agrees(target: Seq<FeatureTag>, m: int)
    requires
        names_of(target).no_duplicates(),
        0 <= m <= target.len(),
    ensures
        bias_disagreements(target.take(m), target) == 0,
    decreases m,
{
    if m > 0 {
        let prefix = target.take(m);
        assert(prefix.drop_last() =~= target.take(m - 1));
        lemma_prefix_agrees(target, m - 1);
        let f = target[m - 1];
        assert(prefix.last() == f);
        assert(is_first_position(target, f.name@, m - 1)) by {
            assert forall|k: int| 0 <= k < m - 1 implies target[k].name@ != f.name@ by {
                assert(names_of(target)[k] == target[k].name@);
                assert(names_of(target)[m - 1] == f.name@);
            }
        }
        if disagrees(target, f) {
            let j = choose|j: int| is_first_position(target, f.name@, j) && target[j].ternary_bias != f.ternary_bias;
            lemma_first_position_unique(target, f.name@, j, m - 1);
        }
    }
}

/// A task compared with itself shares every feature, so the feature overlap is one;
/// where its feature names are distinct, no ternary bias disagrees either.
pub proof fn lemma_identical_tasks(features: Seq<FeatureTag>)
    ensures
        shared_names(features, features).len() == features.len(),
        names_of(features).no_duplicates() ==> bias_disagreements(features, features) == 0,
{
    assert forall|i: int| 0 <= i < features.len() implies has_name(features, #[trigger] features[i].name@) by {
    }
    lemma_all_names_shared(features, features);
    if names_of(features).no_duplicates() {
        lemma_prefix_agrees(features, features.len() as int);
        assert(features.take(features.len() as int) =~= features);
    }
}

/// Disagreements are counted one source feature at a time: a source feature whose
/// first target partner (the earliest target feature of its name) expects a different
/// ternary direction adds one, whichever two directions differ; one whose partner
/// agrees, or which has no partner, adds nothing.
pub proof fn lemma_bias_disagreement_step(source: Seq<FeatureTag>, f: FeatureTag, target: Seq<FeatureTag>, j: int)
    ensures
        bias_disagreements(Seq::<FeatureTag>::empty(), target) == 0,
        (0 <= j < target.len() && target[j].name@ == f.name@
            && forall|k: int| 0 <= k < j ==> target[k].name@ != f.name@)
            ==> bias_disagreements(source.push(f), target) == bias_disagreements(source, target)
                + (if target[j].ternary_bias != f.ternary_bias { 1int } else { 0int }),
        (forall|k: int| 0 <= k < target.len() ==> target[k].name@ != f.name@)
            ==> bias_disagreements(source.push(f), target) == bias_disagreements(source, target),
{
    assert(source.push(f).drop_last() =~= source);
    assert(source.push(f).last() == f);
    if 0 <= j < target.len() && target[j].name@ == f.name@ && forall|k: int| 0 <= k < j ==> target[k].name@ != f.name@ {
        assert(is_first_position(target, f.name@, j));
        if disagrees(target, f) {
            let j2 = choose|j2: int| is_first_position(target, f.name@, j2) && target[j2].ternary_bias != f.ternary_bias;
            lemma_first_position_unique(target, f.name@, j, j2);
        }
    }
}

} // verus!
