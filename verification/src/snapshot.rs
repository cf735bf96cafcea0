//! Worlds from plain tables and back: a snapshot holds what a store keeps
//! between two handler calls, and a world is made of it only if it is
//! well formed.

use crate::model::{Decor, Door, DoorVisit, Interaction, Inventory, Package, PackageItem, User};
use crate::world::{users_ok, visits_ok, World, WorldView, GRIEF_THRESHOLD};
use vstd::prelude::*;

verus! {

/// Every table and counter of a world, as plain values.
pub struct Snapshot {
    pub users: Vec<User>,
    pub doors: Vec<Door>,
    pub visits: Vec<DoorVisit>,
    pub decors: Vec<Decor>,
    pub interactions: Vec<Interaction>,
    pub inventory: Vec<Inventory>,
    pub packages: Vec<Package>,
    pub package_items: Vec<PackageItem>,
    pub next_door_id: u64,
    pub next_decor_id: u64,
    pub next_interaction_id: u64,
    pub next_inventory_id: u64,
    pub next_package_id: u64,
    pub next_package_item_id: u64,
}

impl View for Snapshot {
    type V = WorldView;

    open spec fn view(&self) -> WorldView {
        WorldView {
            users: self.users@,
            doors: self.doors@,
            visits: self.visits@,
            decors: self.decors@,
            interactions: self.interactions@,
            inventory: self.inventory@,
            packages: self.packages@,
            package_items: self.package_items@,
            next_door_id: self.next_door_id,
            next_decor_id: self.next_decor_id,
            next_interaction_id: self.next_interaction_id,
            next_inventory_id: self.next_inventory_id,
            next_package_id: self.next_package_id,
            next_package_item_id: self.next_package_item_id,
        }
    }
}

/// A record that a counter has numbered.
pub trait Numbered {
    /// The number of the record.
    spec fn number(&self) -> u64;

    /// The number of the record.
    fn id(&self) -> (r: u64)
        ensures
            r == self.number(),
    ;
}

impl Numbered for Door {
    open spec fn number(&self) -> u64 {
        self.id
    }

    fn id(&self) -> (r: u64) {
        self.id
    }
}

impl Numbered for Decor {
    open spec fn number(&self) -> u64 {
        self.id
    }

    fn id(&self) -> (r: u64) {
        self.id
    }
}

impl Numbered for Interaction {
    open spec fn number(&self) -> u64 {
        self.id
    }

    fn id(&self) -> (r: u64) {
        self.id
    }
}

impl Numbered for Inventory {
    open spec fn number(&self) -> u64 {
        self.id
    }

    fn id(&self) -> (r: u64) {
        self.id
    }
}

impl Numbered for Package {
    open spec fn number(&self) -> u64 {
        self.id
    }

    fn id(&self) -> (r: u64) {
        self.id
    }
}

impl Numbered for PackageItem {
    open spec fn number(&self) -> u64 {
        self.id
    }

    fn id(&self) -> (r: u64) {
        self.id
    }
}

/// No number occurs twice, and each lies below `next`.
pub open spec fn well_numbered<T: Numbered>(rows: Seq<T>, next: u64) -> bool {
    &&& forall|i: int, j: int|
        0 <= i < j < rows.len() ==> (#[trigger] rows[i]).number() != (#[trigger] rows[j]).number()
    &&& forall|i: int| 0 <= i < rows.len() ==> (#[trigger] rows[i]).number() < next
}

/// Whether no number occurs twice among the records and each lies below
/// `next`.
pub fn is_well_numbered<T: Numbered>(rows: &Vec<T>, next: u64) -> (b: bool)
    ensures
        b == well_numbered(rows@, next),
{
    let mut j: usize = 0;
    while j < rows.len()
        invariant
            j <= rows.len(),
            forall|a: int, b: int|
                0 <= a < b < j ==> (#[trigger] rows@[a]).number() != (#[trigger] rows@[b]).number(),
            forall|a: int| 0 <= a < j ==> (#[trigger] rows@[a]).number() < next,
        decreases rows.len() - j,
    {
        let id = rows[j].id();
        if id >= next {
            return false;
        }
        let mut i: usize = 0;
        while i < j
            invariant
                i <= j < rows.len(),
                id == rows@[j as int].number(),
                forall|a: int| 0 <= a < i ==> (#[trigger] rows@[a]).number() != id,
            decreases j - i,
        {
            if rows[i].id() == id {
                return false;
            }
            i += 1;
        }
        j += 1;
    }
    true
}

/// Whether no identity occurs twice among the users and every grief
/// counter lies below the threshold.
pub fn users_are_ok(users: &Vec<User>) -> (b: bool)
    ensures
        b == users_ok(users@),
{
    let mut j: usize = 0;
    while j < users.len()
        invariant
            j <= users.len(),
            forall|a: int, b: int|
                0 <= a < b < j ==> (#[trigger] users@[a]).identity != (#[trigger] users@[b]).identity,
            forall|a: int|
                0 <= a < j ==> (#[trigger] users@[a]).owned_items_deleted < GRIEF_THRESHOLD,
        decreases users.len() - j,
    {
        if users[j].owned_items_deleted >= GRIEF_THRESHOLD {
            return false;
        }
        let mut i: usize = 0;
        while i < j
            invariant
                i <= j < users.len(),
                forall|a: int|
                    0 <= a < i ==> (#[trigger] users@[a]).identity != users@[j as int].identity,
            decreases j - i,
        {
            if users[i].identity == users[j].identity {
                return false;
            }
            i += 1;
        }
        j += 1;
    }
    true
}

/// Whether every visit names a door id below `next`.
pub fn visits_are_ok(visits: &Vec<DoorVisit>, next: u64) -> (b: bool)
    ensures
        b == visits_ok(visits@, next),
{
    let mut i: usize = 0;
    while i < visits.len()
        invariant
            i <= visits.len(),
            forall|a: int| 0 <= a < i ==> (#[trigger] visits@[a]).door_id < next,
        decreases visits.len() - i,
    {
        if visits[i].door_id >= next {
            return false;
        }
        i += 1;
    }
    true
}

/// Whether every item lies in a package whose id is below `next_package`.
pub fn items_are_packed(items: &Vec<PackageItem>, next_package: u64) -> (b: bool)
    ensures
        b == forall|a: int| 0 <= a < items@.len() ==> (#[trigger] items@[a]).package_id < next_package,
{
    let mut i: usize = 0;
    while i < items.len()
        invariant
            i <= items.len(),
            forall|a: int| 0 <= a < i ==> (#[trigger] items@[a]).package_id < next_package,
        decreases items.len() - i,
    {
        if items[i].package_id >= next_package {
            return false;
        }
        i += 1;
    }
    true
}

impl World {
    /// Makes a world of a snapshot, if the snapshot is well formed.
    pub fn from_snapshot(snapshot: Snapshot) -> (r: Option<World>)
        ensures
            r is Some <==> snapshot@.wf(),
            r matches Some(world) ==> world@ == snapshot@ && world.wf(),
    {
        let ok = users_are_ok(&snapshot.users) && is_well_numbered(
            &snapshot.doors,
            snapshot.next_door_id,
        ) && visits_are_ok(&snapshot.visits, snapshot.next_door_id) && is_well_numbered(
            &snapshot.decors,
            snapshot.next_decor_id,
        ) && is_well_numbered(&snapshot.interactions, snapshot.next_interaction_id)
            && is_well_numbered(&snapshot.inventory, snapshot.next_inventory_id)
            && is_well_numbered(&snapshot.packages, snapshot.next_package_id) && is_well_numbered(
            &snapshot.package_items,
            snapshot.next_package_item_id,
        ) && items_are_packed(&snapshot.package_items, snapshot.next_package_id);
        if !ok {
            return None;
        }
        Some(
            World {
                users: snapshot.users,
                doors: snapshot.doors,
                visits: snapshot.visits,
                decors: snapshot.decors,
                interactions: snapshot.interactions,
                inventory: snapshot.inventory,
                packages: snapshot.packages,
                package_items: snapshot.package_items,
                next_door_id: snapshot.next_door_id,
                next_decor_id: snapshot.next_decor_id,
                next_interaction_id: snapshot.next_interaction_id,
                next_inventory_id: snapshot.next_inventory_id,
                next_package_id: snapshot.next_package_id,
                next_package_item_id: snapshot.next_package_item_id,
            },
        )
    }

    /// Takes the world apart into its tables and counters.
    pub fn into_snapshot(self) -> (snapshot: Snapshot)
        ensures
            snapshot@ == self@,
    {
        Snapshot {
            users: self.users,
            doors: self.doors,
            visits: self.visits,
            decors: self.decors,
            interactions: self.interactions,
            inventory: self.inventory,
            packages: self.packages,
            package_items: self.package_items,
            next_door_id: self.next_door_id,
            next_decor_id: self.next_decor_id,
            next_interaction_id: self.next_interaction_id,
            next_inventory_id: self.next_inventory_id,
            next_package_id: self.next_package_id,
            next_package_item_id: self.next_package_item_id,
        }
    }
}

} // verus!
