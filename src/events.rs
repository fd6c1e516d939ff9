//! Events which carry interactions between interactors and interactables.
use vstd::prelude::*;

verus! {

/// Sent by the host to request an interaction from the given interactor entity.
#[derive(Clone, Copy, Debug, PartialEq, Eq)]
pub struct InteractorFiredEvent(pub u64);

/// Produced once an [`InteractorFiredEvent`] has been handled, for each interactable entity that
/// receives the interaction.
#[derive(Clone, Copy, Debug, PartialEq, Eq)]
pub struct InteractionEvent {
    /// The interactor entity which triggered this interaction.
    pub interactor: u64,
    /// The interactable entity which receives this interaction.
    pub interactable: u64,
}

} // verus!
