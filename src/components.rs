//! The data attached to interacting entities.
use vstd::prelude::*;

use crate::target_set::TargetSet;

verus! {

/// The state of an entity that can request interactions.
///
/// `targets` holds every interactable in range of this interactor, `closest` the one nearest to
/// its line of sight, if any. Both are rewritten by each targeting pass.
pub struct Interactor {
    /// All interactable targets in range of this interactor.
    pub targets: TargetSet,
    /// The target closest to this interactor's line of sight, if any.
    pub closest: Option<u64>,
}

impl Interactor {
    /// The entities currently targeted.
    pub open spec fn targets_view(&self) -> Set<u64> {
        self.targets@
    }

    /// `closest` is a target, and there is one exactly when there are targets.
    pub open spec fn wf(&self) -> bool {
        match self.closest {
            Some(c) => self.targets_view().contains(c),
            None => self.targets_view() == Set::<u64>::empty(),
        }
    }

    /// Whether `entity` is currently one of this interactor's targets.
    pub fn has_target(&self, entity: u64) -> (r: bool)
        ensures
            r == self.targets_view().contains(entity),
    {
        self.targets.contains(entity)
    }

    /// The current targets, each once, in no particular order.
    pub fn target_list(&self) -> (r: Vec<u64>)
        ensures
            r@.no_duplicates(),
            r@.to_set() == self.targets_view(),
    {
        self.targets.to_vec()
    }
}

impl Default for Interactor {
    fn default() -> (r: Interactor)
        ensures
            r.targets_view() == Set::<u64>::empty(),
            r.closest == None::<u64>,
            r.wf(),
    {
        Interactor { targets: TargetSet::new(), closest: None }
    }
}

/// The squared distance key of a range of one unit (the bits of `1.0_f32`).
pub const UNIT_DISTANCE_SQUARED: u32 = 0x3F80_0000;

/// The configuration of an entity that can receive interactions.
///
/// Distances are given as order keys (see [`crate::targeting`]): `max_distance_squared` is the
/// key of the square of the interaction range.
#[derive(Clone, Debug)]
pub struct Interactable {
    /// An optional name for this interactable.
    pub name: Option<String>,
    /// An optional description of the action.
    pub description: Option<String>,
    /// An exclusive interactable is only notified when it is the closest target, and then alone.
    pub exclusive: bool,
    /// Key of the square of the distance within which this interactable can be targeted.
    pub max_distance_squared: u32,
    /// Whether interaction is currently possible; kept up to date by the host.
    pub possible: bool,
    /// Whether this interactable is enabled.
    pub enabled: bool,
}

impl Interactable {
    /// A new, enabled interactable whose interaction is possible.
    ///
    /// If exclusive, this interactable is only interacted with when it is the closest one to the
    /// interactor, and then no other in-range interactable is.
    pub fn new(
        max_distance_squared: u32,
        exclusive: bool,
        name: Option<String>,
        description: Option<String>,
    ) -> (r: Interactable)
        ensures
            r.max_distance_squared == max_distance_squared,
            r.exclusive == exclusive,
            r.name == name,
            r.description == description,
            r.possible,
            r.enabled,
    {
        Interactable { name, description, exclusive, max_distance_squared, possible: true, enabled: true }
    }

    /// Whether this interaction is currently possible.
    pub fn possible(&self) -> (r: bool)
        ensures
            r == self.possible,
    {
        self.possible
    }

    /// Whether this interactable is exclusive.
    pub fn is_exclusive(&self) -> (r: bool)
        ensures
            r == self.exclusive,
    {
        self.exclusive
    }
}

impl Default for Interactable {
    /// A non-exclusive interactable with a range of one unit, without name or description.
    fn default() -> (r: Interactable)
        ensures
            r.max_distance_squared == UNIT_DISTANCE_SQUARED,
            !r.exclusive,
            r.name == None::<String>,
            r.description == None::<String>,
            r.possible,
            r.enabled,
    {
        Interactable::new(UNIT_DISTANCE_SQUARED, false, None, None)
    }
}

} // verus!
