//! Proximity-based interactions between entities.
//!
//! Entities that can start interactions carry an [`Interactor`], entities that can receive them
//! carry an [`Interactable`]. Every tick the targeting stage
//! ([`targeting::update_interactor_targets`]) recomputes, for each interactor, the interactables
//! in range and inside its view cone, and the one closest to its line of sight. When an
//! interactor fires ([`events::InteractorFiredEvent`]), the dispatch stage
//! ([`dispatch::handle_interactor_event`]) decides which interactables receive an
//! [`events::InteractionEvent`]:
//!   1. nothing happens unless at least one interactable is in range;
//!   2. if the closest interactable is exclusive, only that one is notified;
//!   3. otherwise every non-exclusive interactable in range is notified.
//!
//! Entities are identified by `u64` values (for example the bits of a host entity handle).
use vstd::prelude::*;

pub mod components;
pub mod dispatch;
pub mod events;
pub mod target_set;
pub mod targeting;

pub use components::{Interactable, Interactor, UNIT_DISTANCE_SQUARED};
pub use dispatch::{handle_interactor_event, InteractionError};
pub use events::{InteractionEvent, InteractorFiredEvent};
pub use targeting::{update_interactor_targets, Reading, FIELD_OF_VIEW_HALF_ANGLE};
pub use target_set::TargetSet;
