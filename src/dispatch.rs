//! The dispatch stage: which interactables a fired interactor notifies.
use vstd::prelude::*;

use std::collections::HashMap;

use crate::components::Interactor;
use crate::events::{InteractionEvent, InteractorFiredEvent};

verus! {

broadcast use {
    vstd::std_specs::hash::group_hash_axioms,
    vstd::seq_lib::group_filter_ensures,
    vstd::seq::Seq::lemma_filter_contains_rev,
    vstd::seq::Seq::lemma_filter_push,
};

/// Why a fire request could not be handled.
#[derive(Clone, Copy, Debug, PartialEq, Eq)]
pub enum InteractionError {
    /// The fired entity has no interactor data.
    MissingInteractor(u64),
    /// A target of the interactor has no interactable data.
    MissingInteractable(u64),
}

/// Whether an interactable is known not to be exclusive.
pub open spec fn broadcasts_to(exclusive: Map<u64, bool>) -> spec_fn(u64) -> bool {
    |t: u64| exclusive.contains_key(t) && !exclusive[t]
}

/// The targets that a non-exclusive closest target broadcasts to: those known not to be
/// exclusive.
pub open spec fn broadcast_recipients(targets: Set<u64>, exclusive: Map<u64, bool>) -> Set<u64> {
    targets.filter(broadcasts_to(exclusive))
}

/// The interactable entities that `events` notify, in order.
pub open spec fn recipients_of(events: Seq<InteractionEvent>) -> Seq<u64> {
    events.map_values(|ev: InteractionEvent| ev.interactable)
}

/// `events` notifies each entity of `recipients` exactly once, on behalf of `interactor`.
pub open spec fn notifies_each_once(
    events: Seq<InteractionEvent>,
    interactor: u64,
    recipients: Set<u64>,
) -> bool {
    &&& forall|i: int| 0 <= i < events.len() ==> (#[trigger] events[i]).interactor == interactor
    &&& recipients_of(events).no_duplicates()
    &&& recipients_of(events).to_set() == recipients
}

/// Handles one fire request for `event.0`, whose interactor data is `interactor`, given the
/// exclusive flag of each interactable entity.
///
/// Without a closest target nothing is notified. An exclusive closest target is notified alone.
/// Otherwise every non-exclusive target is notified once, in no particular order. A request
/// fails when the interactor data is missing, when the closest target has no interactable
/// data, or, when it is not exclusive, when some target has none.
pub fn handle_interactor_event(
    event: InteractorFiredEvent,
    interactor: Option<&Interactor>,
    exclusive: &HashMap<u64, bool>,
) -> (r: Result<Vec<InteractionEvent>, InteractionError>)
    ensures
        interactor is None ==> r == Err::<Vec<InteractionEvent>, _>(
            InteractionError::MissingInteractor(event.0),
        ),
        interactor matches Some(actor) ==> match actor.closest {
            None => r matches Ok(evs) && evs@.len() == 0,
            Some(c) => if !exclusive@.contains_key(c) {
                r == Err::<Vec<InteractionEvent>, _>(InteractionError::MissingInteractable(c))
            } else if exclusive@[c] {
                r matches Ok(evs) && evs@ == seq![(InteractionEvent { interactor: event.0, interactable: c })]
            } else if actor.targets_view().subset_of(exclusive@.dom()) {
                r matches Ok(evs) && notifies_each_once(
                    evs@,
                    event.0,
                    broadcast_recipients(actor.targets_view(), exclusive@),
                )
            } else {
                r matches Err(InteractionError::MissingInteractable(t)) && actor.targets_view().contains(t)
                    && !exclusive@.contains_key(t)
            },
        },
{
    let actor = match interactor {
        Some(actor) => actor,
        None => return Err(InteractionError::MissingInteractor(event.0)),
    };
    let closest = match actor.closest {
        Some(c) => c,
        None => return Ok(Vec::new()),
    };
    match exclusive.get(&closest) {
        None => return Err(InteractionError::MissingInteractable(closest)),
        Some(true) => {
            let mut evs = Vec::new();
            evs.push(InteractionEvent { interactor: event.0, interactable: closest });
            return Ok(evs);
        },
        Some(false) => {},
    }
    let targets = actor.target_list();
    let ghost pred = broadcasts_to(exclusive@);
    let mut evs: Vec<InteractionEvent> = Vec::new();
    let n = targets.len();
    for k in 0..n
        invariant
            interactor == Some(actor),
            actor.closest == Some(closest),
            exclusive@.contains_key(closest),
            !exclusive@[closest],
            pred == broadcasts_to(exclusive@),
            n == targets@.len(),
            targets@.no_duplicates(),
            targets@.to_set() == actor.targets_view(),
            forall|j: int| 0 <= j < k ==> exclusive@.contains_key(#[trigger] targets@[j]),
            forall|i: int| 0 <= i < evs@.len() ==> (#[trigger] evs@[i]).interactor == event.0,
            recipients_of(evs@) == targets@.take(k as int).filter(pred),
    {
        let t = targets[k];
        proof {
            assert(targets@.take(k + 1) =~= targets@.take(k as int).push(t));
        }
        match exclusive.get(&t) {
            None => {
                proof {
                    assert(targets@.to_set().contains(t));
                }
                return Err(InteractionError::MissingInteractable(t));
            },
            Some(true) => {},
            Some(false) => {
                evs.push(InteractionEvent { interactor: event.0, interactable: t });
                proof {
                    assert(recipients_of(evs@) =~= targets@.take(k as int).filter(pred).push(t));
                }
            },
        }
    }
    proof {
        let names = recipients_of(evs@);
        assert(targets@.take(n as int) =~= targets@);
        lemma_filter_keeps_no_duplicates(targets@, pred);
        assert forall|x: u64| names.to_set().contains(x) <==> broadcast_recipients(
            actor.targets_view(),
            exclusive@,
        ).contains(x) by {
            if names.contains(x) {
                let i = choose|i: int| 0 <= i < names.len() && names[i] == x;
                assert(targets@.contains(x));
                assert(targets@.to_set().contains(x));
            }
            if broadcast_recipients(actor.targets_view(), exclusive@).contains(x) {
                assert(targets@.to_set().contains(x));
                let i = choose|i: int| 0 <= i < targets@.len() && targets@[i] == x;
                assert(names.contains(targets@[i]));
            }
        }
        assert(names.to_set() =~= broadcast_recipients(actor.targets_view(), exclusive@));
        assert forall|x: u64| actor.targets_view().contains(x) implies exclusive@.contains_key(x) by {
            assert(targets@.to_set().contains(x));
            let i = choose|i: int| 0 <= i < targets@.len() && targets@[i] == x;
        }
    }
    Ok(evs)
}

/// Filtering a sequence without duplicates leaves none.
proof fn lemma_filter_keeps_no_duplicates(s: Seq<u64>, pred: spec_fn(u64) -> bool)
    requires
        s.no_duplicates(),
    ensures
        s.filter(pred).no_duplicates(),
    decreases s.len(),
{
    if s.len() > 0 {
        let init = s.drop_last();
        let last = s.last();
        assert(init.push(last) =~= s);
        assert(init.no_duplicates());
        lemma_filter_keeps_no_duplicates(init, pred);
        if pred(last) {
            assert(!init.contains(last));
            assert(!init.filter(pred).contains(last));
            let f = init.filter(pred).push(last);
            assert forall|i: int, j: int| 0 <= i < j < f.len() implies f[i] != f[j] by {
                if j == f.len() - 1 {
                    assert(init.filter(pred).contains(f[i]));
                }
            }
        }
    }
}

} // verus!
