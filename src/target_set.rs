//! The set of entities that an interactor currently targets.
use vstd::prelude::*;

verus! {

/// An unordered set of entity identifiers, kept in a bevy `HashSet`.
#[verifier::external_body]
pub struct TargetSet {
    set: bevy::utils::HashSet<u64>,
}

/// The entities held by a target set.
pub uninterp spec fn target_set_contents(s: TargetSet) -> Set<u64>;

impl TargetSet {
    /// The entities held by this set.
    pub open spec fn view(self) -> Set<u64> {
        target_set_contents(self)
    }

    /// Relies on `HashSet::default` (hashbrown, through `bevy::utils`): a new set is empty.
    #[verifier::external_body]
    pub fn new() -> (r: TargetSet)
        ensures
            target_set_contents(r) == Set::<u64>::empty(),
    {
        TargetSet { set: bevy::utils::HashSet::default() }
    }

    /// Relies on `HashSet::insert` (hashbrown): afterwards the set holds `entity` besides what
    /// it held before.
    #[verifier::external_body]
    pub fn insert(&mut self, entity: u64)
        ensures
            target_set_contents(*final(self)) == target_set_contents(*old(self)).insert(entity),
    {
        self.set.insert(entity);
    }

    /// Relies on `HashSet::contains` (hashbrown): whether `entity` is in the set.
    #[verifier::external_body]
    pub fn contains(&self, entity: u64) -> (r: bool)
        ensures
            r == target_set_contents(*self).contains(entity),
    {
        self.set.contains(&entity)
    }

    /// Relies on `HashSet::iter` (hashbrown): every element is visited exactly once, in an
    /// order that the set does not specify.
    #[verifier::external_body]
    pub fn to_vec(&self) -> (r: Vec<u64>)
        ensures
            r@.no_duplicates(),
            r@.to_set() == target_set_contents(*self),
    {
        self.set.iter().copied().collect()
    }
}

} // verus!
