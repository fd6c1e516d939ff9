use std::collections::HashMap;

use interaction::{
    handle_interactor_event, update_interactor_targets, InteractionError, InteractionEvent,
    InteractorFiredEvent, Interactor, Reading,
};

const ACTOR: u64 = 100;

fn ahead(entity: u64, angle: f32) -> Reading {
    Reading {
        entity,
        distance_squared: 0.25f32.to_bits(),
        angle: angle.to_bits(),
        max_distance_squared: 1.0f32.to_bits(),
    }
}

fn targeting(readings: Vec<Reading>) -> Interactor {
    let mut i = Interactor::default();
    update_interactor_targets(&mut i, &readings);
    i
}

fn recipients(events: &[InteractionEvent]) -> Vec<u64> {
    let mut v: Vec<u64> = events.iter().map(|e| e.interactable).collect();
    v.sort();
    v
}

#[test]
fn exclusive_closest_fires_alone() {
    let i = targeting(vec![ahead(2, 0.0), ahead(1, 0.0), ahead(3, 0.1)]);
    assert_eq!(i.closest, Some(2));
    let excl: HashMap<u64, bool> = [(1, false), (2, true), (3, false)].into_iter().collect();
    let r = handle_interactor_event(InteractorFiredEvent(ACTOR), Some(&i), &excl).unwrap();
    assert_eq!(r, vec![InteractionEvent { interactor: ACTOR, interactable: 2 }]);
}

#[test]
fn non_exclusive_closest_broadcasts_to_non_exclusive() {
    let i = targeting(vec![ahead(1, 0.0), ahead(2, 0.0), ahead(3, 0.1), ahead(4, 0.2)]);
    assert_eq!(i.closest, Some(1));
    let excl: HashMap<u64, bool> = [(1, false), (2, true), (3, false), (4, false)].into_iter().collect();
    let r = handle_interactor_event(InteractorFiredEvent(ACTOR), Some(&i), &excl).unwrap();
    assert_eq!(recipients(&r), vec![1, 3, 4]);
    assert!(r.iter().all(|e| e.interactor == ACTOR));
}

#[test]
fn no_closest_fires_nothing() {
    let i = Interactor::default();
    let excl: HashMap<u64, bool> = HashMap::new();
    let r = handle_interactor_event(InteractorFiredEvent(ACTOR), Some(&i), &excl).unwrap();
    assert!(r.is_empty());
}

#[test]
fn missing_interactor_is_an_error() {
    let excl: HashMap<u64, bool> = HashMap::new();
    let r = handle_interactor_event(InteractorFiredEvent(ACTOR), None, &excl);
    assert_eq!(r, Err(InteractionError::MissingInteractor(ACTOR)));
}

#[test]
fn missing_closest_interactable_is_an_error() {
    let i = targeting(vec![ahead(1, 0.0)]);
    let excl: HashMap<u64, bool> = [(2, false)].into_iter().collect();
    let r = handle_interactor_event(InteractorFiredEvent(ACTOR), Some(&i), &excl);
    assert_eq!(r, Err(InteractionError::MissingInteractable(1)));
}

#[test]
fn missing_other_target_is_an_error_when_broadcasting() {
    let i = targeting(vec![ahead(1, 0.0), ahead(5, 0.1)]);
    let excl: HashMap<u64, bool> = [(1, false)].into_iter().collect();
    let r = handle_interactor_event(InteractorFiredEvent(ACTOR), Some(&i), &excl);
    assert_eq!(r, Err(InteractionError::MissingInteractable(5)));
    // With an exclusive closest target the others are not looked at.
    let excl: HashMap<u64, bool> = [(1, true)].into_iter().collect();
    let r = handle_interactor_event(InteractorFiredEvent(ACTOR), Some(&i), &excl).unwrap();
    assert_eq!(r, vec![InteractionEvent { interactor: ACTOR, interactable: 1 }]);
}

#[test]
fn scenario_a_and_b_ahead() {
    // A at 0.5 (not exclusive), B at 0.8 (exclusive), both straight ahead, range 1.0.
    let a = Reading { entity: 1, distance_squared: 0.25f32.to_bits(), angle: 0, max_distance_squared: 1.0f32.to_bits() };
    let b = Reading { entity: 2, distance_squared: 0.64f32.to_bits(), angle: 0, max_distance_squared: 1.0f32.to_bits() };
    let excl: HashMap<u64, bool> = [(1, false), (2, true)].into_iter().collect();
    let i = targeting(vec![b, a]);
    assert!(i.has_target(1) && i.has_target(2));
    assert_eq!(i.closest, Some(2));
    let r = handle_interactor_event(InteractorFiredEvent(ACTOR), Some(&i), &excl).unwrap();
    assert_eq!(r, vec![InteractionEvent { interactor: ACTOR, interactable: 2 }]);
    // Scanned the other way round, A wins the tie and B, exclusive, is skipped.
    let i = targeting(vec![a, b]);
    assert_eq!(i.closest, Some(1));
    let r = handle_interactor_event(InteractorFiredEvent(ACTOR), Some(&i), &excl).unwrap();
    assert_eq!(r, vec![InteractionEvent { interactor: ACTOR, interactable: 1 }]);
}
