//! The targeting stage: which interactables an interactor can reach, and which is closest to
//! its line of sight.
//!
//! Squared distances and angles reach this module as order keys: a non-negative real quantity is
//! represented by a `u32` whose order is that of the quantity. The bit pattern of a non-negative
//! single-precision value is such a key. A quantity that could not be measured (a direction of
//! zero length) is given the largest key on the measured side of a comparison, so that it is
//! never in range.
use vstd::prelude::*;

use crate::components::Interactor;
use crate::target_set::TargetSet;

verus! {

/// Key of the half-angle of the view cone, a sixteenth of a turn (the bits of `PI / 8.0_f32`).
pub const FIELD_OF_VIEW_HALF_ANGLE: u32 = 0x3EC9_0FDB;

/// What the host measured of one interactable, as seen from one interactor.
#[derive(Clone, Copy, Debug, PartialEq, Eq)]
pub struct Reading {
    /// The interactable entity.
    pub entity: u64,
    /// Key of the squared distance between the interactor and the interactable.
    pub distance_squared: u32,
    /// Key of the angle between the interactor's forward direction and the direction to the
    /// interactable, in radians.
    pub angle: u32,
    /// Key of the interactable's squared interaction range.
    pub max_distance_squared: u32,
}

/// An interactable is in range when it is nearer than its range and inside the view cone.
pub open spec fn in_range(r: Reading) -> bool {
    r.distance_squared < r.max_distance_squared && r.angle < FIELD_OF_VIEW_HALF_ANGLE
}

/// The entities of the first `n` readings that are in range.
pub open spec fn targets_among(rs: Seq<Reading>, n: int) -> Set<u64> {
    Set::new(|e: u64| exists|i: int| 0 <= i < n && #[trigger] rs[i].entity == e && in_range(rs[i]))
}

/// The entities of all readings that are in range.
pub open spec fn targets_of(rs: Seq<Reading>) -> Set<u64> {
    targets_among(rs, rs.len() as int)
}

/// Among the first `n` readings, reading `i` is in range, no reading in range has a smaller
/// angle, and every earlier reading in range has a larger one: ties go to the first reading.
pub open spec fn closest_among(rs: Seq<Reading>, n: int, i: int) -> bool {
    &&& 0 <= i < n <= rs.len()
    &&& in_range(rs[i])
    &&& forall|j: int| 0 <= j < n && #[trigger] in_range(rs[j]) ==> rs[i].angle <= rs[j].angle
    &&& forall|j: int| 0 <= j < i && #[trigger] in_range(rs[j]) ==> rs[i].angle < rs[j].angle
}

/// Reading `i` is the closest of all readings.
pub open spec fn closest_at(rs: Seq<Reading>, i: int) -> bool {
    closest_among(rs, rs.len() as int, i)
}

/// `closest` is what a targeting pass over `rs` selects: the entity of the closest reading, or
/// nothing when no reading is in range.
pub open spec fn selects(rs: Seq<Reading>, closest: Option<u64>) -> bool {
    match closest {
        Some(e) => exists|i: int| #[trigger] closest_at(rs, i) && rs[i].entity == e,
        None => forall|i: int| 0 <= i < rs.len() ==> !#[trigger] in_range(rs[i]),
    }
}

/// An entity is a target after a pass exactly when one of its readings is nearer than its
/// range and inside the view cone.
pub proof fn lemma_target_iff_in_range(rs: Seq<Reading>, e: u64)
    ensures
        targets_of(rs).contains(e) <==> exists|i: int|
            0 <= i < rs.len() && #[trigger] rs[i].entity == e && rs[i].distance_squared
                < rs[i].max_distance_squared && rs[i].angle < FIELD_OF_VIEW_HALF_ANGLE,
{
}

/// The closest target is a target, and no reading in range has a smaller angle.
pub proof fn lemma_closest_is_nearest_target(rs: Seq<Reading>, closest: Option<u64>)
    requires
        selects(rs, closest),
    ensures
        closest matches Some(c) ==> targets_of(rs).contains(c) && exists|i: int|
            0 <= i < rs.len() && #[trigger] rs[i].entity == c && in_range(rs[i]) && forall|j: int|
                0 <= j < rs.len() && #[trigger] in_range(rs[j]) ==> rs[i].angle <= rs[j].angle,
{
    if let Some(c) = closest {
        let i = choose|i: int| #[trigger] closest_at(rs, i) && rs[i].entity == c;
        assert(rs[i].entity == c);
    }
}

/// A pass selects at most one closest target: passes over the same readings agree.
pub proof fn lemma_selection_is_unique(rs: Seq<Reading>, a: Option<u64>, b: Option<u64>)
    requires
        selects(rs, a),
        selects(rs, b),
    ensures
        a == b,
{
    match (a, b) {
        (Some(x), Some(y)) => {
            let i = choose|i: int| #[trigger] closest_at(rs, i) && rs[i].entity == x;
            let j = choose|j: int| #[trigger] closest_at(rs, j) && rs[j].entity == y;
            if i < j {
                assert(rs[j].angle < rs[i].angle);
            } else if j < i {
                assert(rs[i].angle < rs[j].angle);
            }
        },
        (Some(x), None) => {
            let i = choose|i: int| #[trigger] closest_at(rs, i) && rs[i].entity == x;
            assert(in_range(rs[i]));
        },
        (None, Some(y)) => {
            let j = choose|j: int| #[trigger] closest_at(rs, j) && rs[j].entity == y;
            assert(in_range(rs[j]));
        },
        (None, None) => {},
    }
}

/// When no interactable is in range, a pass leaves no targets and no closest one, whatever the
/// interactor held before; so it stays that way for as long as nothing comes in range.
pub proof fn lemma_nothing_in_range(rs: Seq<Reading>, closest: Option<u64>)
    requires
        forall|i: int| 0 <= i < rs.len() ==> !#[trigger] in_range(rs[i]),
        selects(rs, closest),
    ensures
        targets_of(rs) == Set::<u64>::empty(),
        closest == None::<u64>,
{
    assert(targets_of(rs) =~= Set::<u64>::empty());
    lemma_selection_is_unique(rs, closest, None);
}

/// Whether the interactable of `reading` is in range.
pub fn is_in_range(reading: &Reading) -> (r: bool)
    ensures
        r == in_range(*reading),
{
    reading.distance_squared < reading.max_distance_squared && reading.angle
        < FIELD_OF_VIEW_HALF_ANGLE
}

/// Recomputes the targets of `interactor` from the readings of every interactable.
///
/// Afterwards the targets are exactly the entities of the readings in range, and `closest` is
/// the entity of the reading in range with the smallest angle (the first such reading when
/// several share it), or `None` when no reading is in range.
pub fn update_interactor_targets(interactor: &mut Interactor, readings: &Vec<Reading>)
    ensures
        final(interactor).targets_view() == targets_of(readings@),
        selects(readings@, final(interactor).closest),
        final(interactor).wf(),
{
    let mut targets = TargetSet::new();
    let mut closest: Option<(u32, u64)> = None;
    let ghost mut at: int = 0;
    proof {
        assert(targets@ =~= targets_among(readings@, 0));
    }
    let n = readings.len();
    for k in 0..n
        invariant
            n == readings@.len(),
            targets@ == targets_among(readings@, k as int),
            match closest {
                Some((angle, entity)) => {
                    &&& closest_among(readings@, k as int, at)
                    &&& readings@[at].angle == angle
                    &&& readings@[at].entity == entity
                },
                None => forall|j: int| 0 <= j < k ==> !#[trigger] in_range(readings@[j]),
            },
    {
        let reading = readings[k];
        if is_in_range(&reading) {
            targets.insert(reading.entity);
            match closest {
                Some((angle, _)) => {
                    if reading.angle < angle {
                        closest = Some((reading.angle, reading.entity));
                        proof {
                            at = k as int;
                        }
                    }
                },
                None => {
                    closest = Some((reading.angle, reading.entity));
                    proof {
                        at = k as int;
                    }
                },
            }
            assert(targets@ =~= targets_among(readings@, k + 1)) by {
                assert(readings@[k as int].entity == reading.entity);
            }
        } else {
            assert(targets@ =~= targets_among(readings@, k + 1));
        }
    }
    proof {
        assert(targets_among(readings@, n as int) == targets_of(readings@));
    }
    interactor.targets = targets;
    interactor.closest = match closest {
        Some((_, entity)) => Some(entity),
        None => None,
    };
    proof {
        match interactor.closest {
            Some(e) => {
                assert(closest_at(readings@, at));
                assert(targets_of(readings@).contains(readings@[at].entity));
            },
            None => {
                assert(targets_of(readings@) =~= Set::<u64>::empty());
            },
        }
    }
}

} // verus!
