//! The state engine of a small world of doors: every participant owns a
//! door that others visit, decorate and like. The matchmaker sends each
//! visitor to a door that they have not seen; the economy moves items from
//! the catalog through packages and inventories onto the doors.
//!
//! A [`World`] holds every table. Each handler takes the world, the caller
//! and what the call names, and either changes the world as its contract
//! says or answers an [`Error`] and changes nothing. A handler that draws
//! at random has a twin, named with `_with`, that takes what was drawn as
//! values.

pub mod catalog;
pub mod chance;
pub mod decor;
pub mod laws;
pub mod matchmaker;
pub mod model;
pub mod packages;
pub mod provision;
pub mod snapshot;
pub mod social;
pub mod world;

pub use crate::decor::{create_decor, delete_decor, delete_decor_with, move_decor, update_decor_text};
pub use crate::matchmaker::{enter_door, enter_door_with};
pub use crate::model::{
    Decor, Door, DoorVisit, Entity, Error, Interaction, InteractionType, Inventory, Package,
    PackageItem, User, UserId,
};
pub use crate::packages::open_package;
pub use crate::provision::{identity_connected, identity_connected_with};
pub use crate::snapshot::Snapshot;
pub use crate::social::like_door;
pub use crate::world::World;
