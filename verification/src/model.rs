//! The records that the world keeps, and the failures its handlers report.

use vstd::prelude::*;

verus! {

/// The stable identifier of a participant: 256 bits, as two halves.
#[derive(Clone, Copy, Debug, PartialEq, Eq, Structural, Hash)]
pub struct UserId {
    pub hi: u128,
    pub lo: u128,
}

/// A participant.
#[derive(Clone, Copy, Debug, PartialEq, Eq)]
pub struct User {
    pub identity: UserId,
    /// The door made for the user on first contact.
    pub original_door: Option<u64>,
    /// How many doors the user has entered, the current one included.
    pub current_door_number: u8,
    /// How many of the user's decorations others have deleted since the
    /// last reward.
    pub owned_items_deleted: u8,
}

/// One entry of the visit ledger.
#[derive(Clone, Copy, Debug, PartialEq, Eq)]
pub struct DoorVisit {
    pub visitor: UserId,
    pub door_id: u64,
}

/// A door; `current_visitor` is `None` while the door is vacant.
#[derive(Clone, Copy, Debug, PartialEq, Eq)]
pub struct Door {
    pub id: u64,
    pub owner: UserId,
    pub current_visitor: Option<UserId>,
    pub number: u8,
}

/// A decoration placed on a door.
#[derive(Clone, Debug, PartialEq, Eq)]
pub struct Decor {
    pub id: u64,
    pub door_id: u64,
    pub owner: UserId,
    pub text: Option<String>,
    pub x: u32,
    pub y: u32,
    pub rot: u32,
    pub key: String,
    pub last_modifier: UserId,
    /// Microseconds since the Unix epoch at which the decoration was
    /// retired, if it was.
    pub deleted_at: Option<i64>,
}

/// The kinds of interaction that the ledger records.
#[derive(Clone, Copy, Debug, PartialEq, Eq)]
pub enum InteractionType {
    LikeDoor,
}

/// One entry of the interaction ledger.
#[derive(Clone, Copy, Debug, PartialEq, Eq)]
pub struct Interaction {
    pub id: u64,
    pub actor: UserId,
    pub target_user: UserId,
    pub interaction_type: InteractionType,
}

/// An unplaced item in a user's inventory.
#[derive(Clone, Debug, PartialEq, Eq)]
pub struct Inventory {
    pub id: u64,
    pub owner: UserId,
    pub decor_key: String,
}

/// A package delivered to a door.
#[derive(Clone, Copy, Debug, PartialEq, Eq)]
pub struct Package {
    pub id: u64,
    pub door_id: u64,
}

/// One item inside a package.
#[derive(Clone, Debug, PartialEq, Eq)]
pub struct PackageItem {
    pub id: u64,
    pub package_id: u64,
    pub decor_key: String,
}

/// The kind of record that a handler looked for in vain.
#[derive(Clone, Copy, Debug, PartialEq, Eq)]
pub enum Entity {
    User,
    InventoryItem,
    Decor,
    Package,
}

/// Why a handler refused to act. A refusal leaves the world as it was.
#[derive(Clone, Copy, Debug, PartialEq, Eq)]
pub enum Error {
    /// A record that the call refers to is absent.
    NotFound(Entity),
    /// The caller is not visiting any door.
    InvalidState,
    /// A counter of the store has no number left to hand out, or nothing
    /// could be drawn from the catalog.
    Internal,
}

impl InteractionType {
    /// The name under which the kind is written into the ledger.
    pub open spec fn name_spec(self) -> Seq<char> {
        match self {
            InteractionType::LikeDoor => "LikeDoor"@,
        }
    }

    /// The name under which the kind is written into the ledger.
    pub fn name(&self) -> (r: String)
        ensures
            r@ == self.name_spec(),
    {
        match self {
            InteractionType::LikeDoor => "LikeDoor".to_string(),
        }
    }
}

impl Error {
    /// The text that is shown to the caller.
    pub open spec fn message_spec(self) -> Seq<char> {
        match self {
            Error::NotFound(Entity::User) => "user does not exist"@,
            Error::NotFound(Entity::InventoryItem) => "inventory item does not exist"@,
            Error::NotFound(Entity::Decor) => "decor does not exist"@,
            Error::NotFound(Entity::Package) => "package does not exist"@,
            Error::InvalidState => "cannot place decor while not visiting a door"@,
            Error::Internal => "the store has run out of numbers"@,
        }
    }

    /// The text that is shown to the caller.
    pub fn message(&self) -> (r: String)
        ensures
            r@ == self.message_spec(),
    {
        match self {
            Error::NotFound(Entity::User) => "user does not exist".to_string(),
            Error::NotFound(Entity::InventoryItem) => "inventory item does not exist".to_string(),
            Error::NotFound(Entity::Decor) => "decor does not exist".to_string(),
            Error::NotFound(Entity::Package) => "package does not exist".to_string(),
            Error::InvalidState => "cannot place decor while not visiting a door".to_string(),
            Error::Internal => "the store has run out of numbers".to_string(),
        }
    }
}

} // verus!
