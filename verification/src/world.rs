//! The world: every table of the engine and the counters that number new
//! records, with the lookups that the handlers share.

use crate::model::{
    Decor, Door, DoorVisit, Entity, Error, Interaction, Inventory, Package, PackageItem, User,
    UserId,
};
use vstd::prelude::*;

verus! {

/// The number of foreign deletions at which an owner is rewarded.
pub const GRIEF_THRESHOLD: u8 = 3;

/// The whole state of the engine.
pub struct World {
    pub(crate) users: Vec<User>,
    pub(crate) doors: Vec<Door>,
    pub(crate) visits: Vec<DoorVisit>,
    pub(crate) decors: Vec<Decor>,
    pub(crate) interactions: Vec<Interaction>,
    pub(crate) inventory: Vec<Inventory>,
    pub(crate) packages: Vec<Package>,
    pub(crate) package_items: Vec<PackageItem>,
    pub(crate) next_door_id: u64,
    pub(crate) next_decor_id: u64,
    pub(crate) next_interaction_id: u64,
    pub(crate) next_inventory_id: u64,
    pub(crate) next_package_id: u64,
    pub(crate) next_package_item_id: u64,
}

/// What a world holds: each table as the sequence of its records, oldest
/// first, and for each numbered table the identifier that the next record
/// will get.
pub struct WorldView {
    pub users: Seq<User>,
    pub doors: Seq<Door>,
    pub visits: Seq<DoorVisit>,
    pub decors: Seq<Decor>,
    pub interactions: Seq<Interaction>,
    pub inventory: Seq<Inventory>,
    pub packages: Seq<Package>,
    pub package_items: Seq<PackageItem>,
    pub next_door_id: u64,
    pub next_decor_id: u64,
    pub next_interaction_id: u64,
    pub next_inventory_id: u64,
    pub next_package_id: u64,
    pub next_package_item_id: u64,
}

/// No identity occurs twice, and every grief counter is below the threshold.
pub open spec fn users_ok(users: Seq<User>) -> bool {
    &&& forall|i: int, j: int|
        0 <= i < j < users.len() ==> (#[trigger] users[i]).identity != (#[trigger] users[j]).identity
    &&& forall|i: int|
        0 <= i < users.len() ==> (#[trigger] users[i]).owned_items_deleted < GRIEF_THRESHOLD
}

/// No door id occurs twice, and each was handed out by the counter.
pub open spec fn doors_ok(doors: Seq<Door>, next: u64) -> bool {
    &&& forall|i: int, j: int|
        0 <= i < j < doors.len() ==> (#[trigger] doors[i]).id != (#[trigger] doors[j]).id
    &&& forall|i: int| 0 <= i < doors.len() ==> (#[trigger] doors[i]).id < next
}

/// Every visit names a door id that the counter has handed out.
pub open spec fn visits_ok(visits: Seq<DoorVisit>, next: u64) -> bool {
    forall|i: int| 0 <= i < visits.len() ==> (#[trigger] visits[i]).door_id < next
}

/// No decoration id occurs twice, and each was handed out by the counter.
pub open spec fn decors_ok(decors: Seq<Decor>, next: u64) -> bool {
    &&& forall|i: int, j: int|
        0 <= i < j < decors.len() ==> (#[trigger] decors[i]).id != (#[trigger] decors[j]).id
    &&& forall|i: int| 0 <= i < decors.len() ==> (#[trigger] decors[i]).id < next
}

/// No interaction id occurs twice, and each was handed out by the counter.
pub open spec fn interactions_ok(interactions: Seq<Interaction>, next: u64) -> bool {
    &&& forall|i: int, j: int|
        0 <= i < j < interactions.len() ==> (#[trigger] interactions[i]).id != (
        #[trigger] interactions[j]).id
    &&& forall|i: int| 0 <= i < interactions.len() ==> (#[trigger] interactions[i]).id < next
}

/// No inventory id occurs twice, and each was handed out by the counter.
pub open spec fn inventory_ok(inventory: Seq<Inventory>, next: u64) -> bool {
    &&& forall|i: int, j: int|
        0 <= i < j < inventory.len() ==> (#[trigger] inventory[i]).id != (#[trigger] inventory[j]).id
    &&& forall|i: int| 0 <= i < inventory.len() ==> (#[trigger] inventory[i]).id < next
}

/// No package id occurs twice, and each was handed out by the counter.
pub open spec fn packages_ok(packages: Seq<Package>, next: u64) -> bool {
    &&& forall|i: int, j: int|
        0 <= i < j < packages.len() ==> (#[trigger] packages[i]).id != (#[trigger] packages[j]).id
    &&& forall|i: int| 0 <= i < packages.len() ==> (#[trigger] packages[i]).id < next
}

/// No item id occurs twice, each was handed out by the counter, and each
/// item lies in a package whose id the package counter has handed out.
pub open spec fn package_items_ok(items: Seq<PackageItem>, next: u64, next_package: u64) -> bool {
    &&& forall|i: int, j: int|
        0 <= i < j < items.len() ==> (#[trigger] items[i]).id != (#[trigger] items[j]).id
    &&& forall|i: int| 0 <= i < items.len() ==> (#[trigger] items[i]).id < next
    &&& forall|i: int| 0 <= i < items.len() ==> (#[trigger] items[i]).package_id < next_package
}

impl WorldView {
    /// The invariant of the store: keys are unique, and every identifier in
    /// use lies below the counter that hands out the next one.
    pub open spec fn wf(self) -> bool {
        &&& users_ok(self.users)
        &&& doors_ok(self.doors, self.next_door_id)
        &&& visits_ok(self.visits, self.next_door_id)
        &&& decors_ok(self.decors, self.next_decor_id)
        &&& interactions_ok(self.interactions, self.next_interaction_id)
        &&& inventory_ok(self.inventory, self.next_inventory_id)
        &&& packages_ok(self.packages, self.next_package_id)
        &&& package_items_ok(self.package_items, self.next_package_item_id, self.next_package_id)
    }
}

/// Whether a user with this identity is known.
pub open spec fn has_user(users: Seq<User>, id: UserId) -> bool {
    exists|i: int| 0 <= i < users.len() && (#[trigger] users[i]).identity == id
}

/// The position of the user with this identity, where one is known.
pub open spec fn user_index(users: Seq<User>, id: UserId) -> int {
    choose|i: int| 0 <= i < users.len() && (#[trigger] users[i]).identity == id
}

/// Whether a door with this id exists.
pub open spec fn has_door(doors: Seq<Door>, id: u64) -> bool {
    exists|i: int| 0 <= i < doors.len() && (#[trigger] doors[i]).id == id
}

/// Whether the user is recorded as the visitor of some door.
pub open spec fn occupies_any(doors: Seq<Door>, who: UserId) -> bool {
    exists|i: int| 0 <= i < doors.len() && (#[trigger] doors[i]).current_visitor == Some(who)
}

/// Whether `i` is the position of the oldest door that the user occupies.
pub open spec fn first_occupied(doors: Seq<Door>, who: UserId, i: int) -> bool {
    &&& 0 <= i < doors.len()
    &&& doors[i].current_visitor == Some(who)
    &&& forall|j: int| 0 <= j < i ==> (#[trigger] doors[j]).current_visitor != Some(who)
}

/// The position of the oldest door that the user occupies, where there is one.
pub open spec fn occupied_index(doors: Seq<Door>, who: UserId) -> int {
    choose|i: int| first_occupied(doors, who, i)
}

/// Whether a decoration with this id exists.
pub open spec fn has_decor(decors: Seq<Decor>, id: u64) -> bool {
    exists|i: int| 0 <= i < decors.len() && (#[trigger] decors[i]).id == id
}

/// The position of the decoration with this id, where one exists.
pub open spec fn decor_index(decors: Seq<Decor>, id: u64) -> int {
    choose|i: int| 0 <= i < decors.len() && (#[trigger] decors[i]).id == id
}

/// Whether an inventory item with this id exists.
pub open spec fn has_inventory(inventory: Seq<Inventory>, id: u64) -> bool {
    exists|i: int| 0 <= i < inventory.len() && (#[trigger] inventory[i]).id == id
}

/// The position of the inventory item with this id, where one exists.
pub open spec fn inventory_index(inventory: Seq<Inventory>, id: u64) -> int {
    choose|i: int| 0 <= i < inventory.len() && (#[trigger] inventory[i]).id == id
}

/// Whether a package with this id exists.
pub open spec fn has_package(packages: Seq<Package>, id: u64) -> bool {
    exists|i: int| 0 <= i < packages.len() && (#[trigger] packages[i]).id == id
}

/// The position of the package with this id, where one exists.
pub open spec fn package_index(packages: Seq<Package>, id: u64) -> int {
    choose|i: int| 0 <= i < packages.len() && (#[trigger] packages[i]).id == id
}

/// Whether some package lies at the door.
pub open spec fn has_package_at(packages: Seq<Package>, door_id: u64) -> bool {
    exists|i: int| 0 <= i < packages.len() && (#[trigger] packages[i]).door_id == door_id
}

/// Under unique identities, the position of a user is the one at which the
/// identity stands.
pub proof fn lemma_user_index(users: Seq<User>, id: UserId, i: int)
    requires
        users_ok(users),
        0 <= i < users.len(),
        users[i].identity == id,
    ensures
        has_user(users, id),
        user_index(users, id) == i,
{
}

/// The oldest door that a user occupies is the only position that
/// `first_occupied` accepts.
pub proof fn lemma_occupied_index(doors: Seq<Door>, who: UserId, i: int)
    requires
        first_occupied(doors, who, i),
    ensures
        occupies_any(doors, who),
        occupied_index(doors, who) == i,
{
}

impl World {
    /// What the world holds.
    pub open(crate) spec fn view(&self) -> WorldView {
        WorldView {
            users: self.users@,
            doors: self.doors@,
            visits: self.visits@,
            decors: self.decors@,
            interactions: self.interactions@,
            inventory: self.inventory@,
            packages: self.packages@,
            package_items: self.package_items@,
            next_door_id: self.next_door_id,
            next_decor_id: self.next_decor_id,
            next_interaction_id: self.next_interaction_id,
            next_inventory_id: self.next_inventory_id,
            next_package_id: self.next_package_id,
            next_package_item_id: self.next_package_item_id,
        }
    }

    /// The invariant that every world built by this library satisfies.
    pub open spec fn wf(&self) -> bool {
        self@.wf()
    }

    /// An empty world whose counters start at 1.
    pub fn new() -> (w: World)
        ensures
            w.wf(),
            w@.users.len() == 0,
            w@.doors.len() == 0,
            w@.visits.len() == 0,
            w@.decors.len() == 0,
            w@.interactions.len() == 0,
            w@.inventory.len() == 0,
            w@.packages.len() == 0,
            w@.package_items.len() == 0,
            w@.next_door_id == 1,
            w@.next_decor_id == 1,
            w@.next_interaction_id == 1,
            w@.next_inventory_id == 1,
            w@.next_package_id == 1,
            w@.next_package_item_id == 1,
    {
        World {
            users: Vec::new(),
            doors: Vec::new(),
            visits: Vec::new(),
            decors: Vec::new(),
            interactions: Vec::new(),
            inventory: Vec::new(),
            packages: Vec::new(),
            package_items: Vec::new(),
            next_door_id: 1,
            next_decor_id: 1,
            next_interaction_id: 1,
            next_inventory_id: 1,
            next_package_id: 1,
            next_package_item_id: 1,
        }
    }

    /// The users, oldest first.
    pub fn users(&self) -> (r: &Vec<User>)
        ensures
            r@ == self@.users,
    {
        &self.users
    }

    /// The doors, oldest first.
    pub fn doors(&self) -> (r: &Vec<Door>)
        ensures
            r@ == self@.doors,
    {
        &self.doors
    }

    /// The visit ledger, oldest entry first.
    pub fn visits(&self) -> (r: &Vec<DoorVisit>)
        ensures
            r@ == self@.visits,
    {
        &self.visits
    }

    /// The decorations, oldest first.
    pub fn decors(&self) -> (r: &Vec<Decor>)
        ensures
            r@ == self@.decors,
    {
        &self.decors
    }

    /// The interaction ledger, oldest entry first.
    pub fn interactions(&self) -> (r: &Vec<Interaction>)
        ensures
            r@ == self@.interactions,
    {
        &self.interactions
    }

    /// The inventory items of all users, oldest first.
    pub fn inventory(&self) -> (r: &Vec<Inventory>)
        ensures
            r@ == self@.inventory,
    {
        &self.inventory
    }

    /// The unopened packages, oldest first.
    pub fn packages(&self) -> (r: &Vec<Package>)
        ensures
            r@ == self@.packages,
    {
        &self.packages
    }

    /// The items of the unopened packages, oldest first.
    pub fn package_items(&self) -> (r: &Vec<PackageItem>)
        ensures
            r@ == self@.package_items,
    {
        &self.package_items
    }

    /// Looks a user up by identity.
    pub fn find_user(&self, id: UserId) -> (r: Option<usize>)
        requires
            self.wf(),
        ensures
            r is Some <==> has_user(self@.users, id),
            r matches Some(i) ==> i == user_index(self@.users, id) && i < self@.users.len()
                && self@.users[i as int].identity == id,
    {
        let mut i: usize = 0;
        while i < self.users.len()
            invariant
                self.wf(),
                i <= self.users.len(),
                forall|j: int| 0 <= j < i ==> (#[trigger] self.users@[j]).identity != id,
            decreases self.users.len() - i,
        {
            if self.users[i].identity == id {
                return Some(i);
            }
            i += 1;
        }
        None
    }

    /// Looks a decoration up by id.
    pub fn find_decor(&self, id: u64) -> (r: Option<usize>)
        requires
            self.wf(),
        ensures
            r is Some <==> has_decor(self@.decors, id),
            r matches Some(i) ==> i == decor_index(self@.decors, id) && i < self@.decors.len()
                && self@.decors[i as int].id == id,
    {
        let mut i: usize = 0;
        while i < self.decors.len()
            invariant
                self.wf(),
                i <= self.decors.len(),
                forall|j: int| 0 <= j < i ==> (#[trigger] self.decors@[j]).id != id,
            decreases self.decors.len() - i,
        {
            if self.decors[i].id == id {
                return Some(i);
            }
            i += 1;
        }
        None
    }

    /// Looks an inventory item up by id.
    pub fn find_inventory(&self, id: u64) -> (r: Option<usize>)
        requires
            self.wf(),
        ensures
            r is Some <==> has_inventory(self@.inventory, id),
            r matches Some(i) ==> i == inventory_index(self@.inventory, id) && i
                < self@.inventory.len() && self@.inventory[i as int].id == id,
    {
        let mut i: usize = 0;
        while i < self.inventory.len()
            invariant
                self.wf(),
                i <= self.inventory.len(),
                forall|j: int| 0 <= j < i ==> (#[trigger] self.inventory@[j]).id != id,
            decreases self.inventory.len() - i,
        {
            if self.inventory[i].id == id {
                return Some(i);
            }
            i += 1;
        }
        None
    }

    /// Looks a package up by id.
    pub fn find_package(&self, id: u64) -> (r: Option<usize>)
        requires
            self.wf(),
        ensures
            r is Some <==> has_package(self@.packages, id),
            r matches Some(i) ==> i == package_index(self@.packages, id) && i
                < self@.packages.len() && self@.packages[i as int].id == id,
    {
        let mut i: usize = 0;
        while i < self.packages.len()
            invariant
                self.wf(),
                i <= self.packages.len(),
                forall|j: int| 0 <= j < i ==> (#[trigger] self.packages@[j]).id != id,
            decreases self.packages.len() - i,
        {
            if self.packages[i].id == id {
                return Some(i);
            }
            i += 1;
        }
        None
    }

    /// Finds the oldest door that the user occupies.
    pub fn find_occupied_door(&self, who: UserId) -> (r: Option<usize>)
        ensures
            r is Some <==> occupies_any(self@.doors, who),
            r matches Some(i) ==> i == occupied_index(self@.doors, who) && first_occupied(
                self@.doors,
                who,
                i as int,
            ),
    {
        let mut i: usize = 0;
        while i < self.doors.len()
            invariant
                i <= self.doors.len(),
                forall|j: int| 0 <= j < i ==> (#[trigger] self.doors@[j]).current_visitor != Some(who),
            decreases self.doors.len() - i,
        {
            let here = match self.doors[i].current_visitor {
                None => false,
                Some(v) => v == who,
            };
            if here {
                proof {
                    lemma_occupied_index(self@.doors, who, i as int);
                }
                return Some(i);
            }
            i += 1;
        }
        None
    }
}

/// Looks the caller up: the user with this identity, or `NotFound` where
/// there is none.
pub fn get_user(world: &World, sender: UserId) -> (r: Result<User, Error>)
    requires
        world.wf(),
    ensures
        match r {
            Ok(user) => has_user(world@.users, sender) && user == world@.users[user_index(
                world@.users,
                sender,
            )] && user.identity == sender,
            Err(e) => !has_user(world@.users, sender) && e == Error::NotFound(Entity::User),
        },
{
    match world.find_user(sender) {
        Some(i) => Ok(world.users[i]),
        None => Err(Error::NotFound(Entity::User)),
    }
}

} // verus!
