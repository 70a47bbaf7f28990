//! Features of a task domain, matched across source and target by name.

use vstd::prelude::*;
use crate::ternary::Ternary;

verus! {

/// What a feature descriptor says apart from its importance: the name that
/// matches it across tasks, and the direction its weight is expected to take.
#[derive(Debug)]
pub struct FeatureTag {
    /// Name of the feature. Used to match features across source and target.
    pub name: String,
    /// The expected ternary direction of this feature's weight.
    pub ternary_bias: Ternary,
}

impl Clone for FeatureTag {
    fn clone(&self) -> (r: Self)
        ensures
            r.name@ == self.name@,
            r.ternary_bias == self.ternary_bias,
    {
        FeatureTag { name: self.name.clone(), ternary_bias: self.ternary_bias }
    }
}

/// `j` is the first position of `features` whose name is `name`.
pub open spec fn is_first_position(features: Seq<FeatureTag>, name: Seq<char>, j: int) -> bool {
    &&& 0 <= j < features.len()
    &&& features[j].name@ == name
    &&& forall|k: int| 0 <= k < j ==> features[k].name@ != name
}

/// Some feature of `features` is named `name`.
pub open spec fn has_name(features: Seq<FeatureTag>, name: Seq<char>) -> bool {
    exists|j: int| 0 <= j < features.len() && features[j].name@ == name
}

/// The names of the source features that the target also has, in source order,
/// one entry per source feature (a repeated source name appears each time).
pub open spec fn shared_names(source: Seq<FeatureTag>, target: Seq<FeatureTag>) -> Seq<Seq<char>>
    decreases source.len(),
{
    if source.len() == 0 {
        seq![]
    } else {
        let rest = shared_names(source.drop_last(), target);
        if has_name(target, source.last().name@) {
            rest.push(source.last().name@)
        } else {
            rest
        }
    }
}

/// The position of the first feature named `name`, or `None` if no feature has that name.
pub fn position_of_name(features: &Vec<FeatureTag>, name: &String) -> (r: Option<usize>)
    ensures
        r matches Some(j) ==> is_first_position(features@, name@, j as int),
        r is None <==> !has_name(features@, name@),
{
    let mut j: usize = 0;
    while j < features.len()
        invariant
            j <= features.len(),
            forall|k: int| 0 <= k < j ==> features@[k].name@ != name@,
        decreases features.len() - j,
    {
        if features[j].name == *name {
            return Some(j);
        }
        j = j + 1;
    }
    None
}

/// The names of the source features that the target shares (by name), in source order.
pub fn shared_features(source: &Vec<FeatureTag>, target: &Vec<FeatureTag>) -> (r: Vec<String>)
    ensures
        r@.map_values(|s: String| s@) == shared_names(source@, target@),
{
    let mut r: Vec<String> = Vec::new();
    let mut i: usize = 0;
    while i < source.len()
        invariant
            i <= source.len(),
            r@.map_values(|s: String| s@) == shared_names(source@.take(i as int), target@),
        decreases source.len() - i,
    {
        let ghost prev = r@;
        assert(source@.take(i + 1).drop_last() =~= source@.take(i as int));
        if position_of_name(target, &source[i].name).is_some() {
            r.push(source[i].name.clone());
            assert(r@.map_values(|s: String| s@) =~= prev.map_values(|s: String| s@).push(source@[i as int].name@));
        }
        i = i + 1;
    }
    assert(source@.take(source.len() as int) =~= source@);
    r
}

/// A name's first position is the smallest index holding that name, and a name is
/// present exactly when some index holds it.
pub proof fn lemma_name_search_meaning(features: Seq<FeatureTag>, name: Seq<char>, j: int)
    ensures
        is_first_position(features, name, j) <==> (0 <= j < features.len() && features[j].name@ == name
            && forall|k: int| 0 <= k < j ==> features[k].name@ != name),
        has_name(features, name) <==> exists|k: int| 0 <= k < features.len() && features[k].name@ == name,
{
}

/// The shared names are built one source feature at a time: a source feature is
/// added, after the earlier ones, exactly when the target holds a feature of its
/// name, whatever the other source features and whatever the ternary biases.
pub proof fn lemma_shared_names_step(source: Seq<FeatureTag>, f: FeatureTag, target: Seq<FeatureTag>)
    ensures
        shared_names(Seq::<FeatureTag>::empty(), target) == Seq::<Seq<char>>::empty(),
        (exists|j: int| 0 <= j < target.len() && target[j].name@ == f.name@)
            ==> shared_names(source.push(f), target) == shared_names(source, target).push(f.name@),
        (forall|j: int| 0 <= j < target.len() ==> target[j].name@ != f.name@)
            ==> shared_names(source.push(f), target) == shared_names(source, target),
{
    assert(source.push(f).drop_last() =~= source);
    assert(source.push(f).last() == f);
}

} // verus!
