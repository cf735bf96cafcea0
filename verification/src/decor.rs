//! Decorations: placing them, changing them and taking them down, with the
//! reward for owners whose decorations others take down.

use crate::chance::{draw_package, package_drawn};
use crate::model::{Decor, Entity, Error, Inventory, User, UserId};
use crate::packages::{package_fits, package_fits_now, package_room, put_package, with_package};
use crate::world::{
    decor_index, has_decor, has_inventory, has_user, inventory_index, get_user, occupied_index,
    occupies_any, user_index, World, WorldView, GRIEF_THRESHOLD,
};
use spacetimedb::rand::rngs::StdRng;
use vstd::prelude::*;

verus! {

/// What `create_decor` answers.
pub open spec fn create_result(w: WorldView, who: UserId, inventory_id: u64) -> Result<(), Error> {
    if !has_user(w.users, who) {
        Err(Error::NotFound(Entity::User))
    } else if !has_inventory(w.inventory, inventory_id) {
        Err(Error::NotFound(Entity::InventoryItem))
    } else if !occupies_any(w.doors, who) {
        Err(Error::InvalidState)
    } else if w.next_decor_id == u64::MAX {
        Err(Error::Internal)
    } else {
        Ok(())
    }
}

/// The decoration that `who` makes of an inventory item at a place.
pub open spec fn placed_decor(
    w: WorldView,
    who: UserId,
    inventory_id: u64,
    x: u32,
    y: u32,
) -> Decor {
    Decor {
        id: w.next_decor_id,
        door_id: w.doors[occupied_index(w.doors, who)].id,
        owner: who,
        text: None,
        x,
        y,
        rot: 0,
        key: w.inventory[inventory_index(w.inventory, inventory_id)].decor_key,
        last_modifier: who,
        deleted_at: None,
    }
}

/// The world after `who` has placed the inventory item, where
/// `create_result` is `Ok`: the item has left the inventory, and the
/// decoration made of it is the newest.
pub open spec fn decor_created(
    w: WorldView,
    who: UserId,
    inventory_id: u64,
    x: u32,
    y: u32,
) -> WorldView {
    WorldView {
        decors: w.decors.push(placed_decor(w, who, inventory_id, x, y)),
        inventory: w.inventory.remove(inventory_index(w.inventory, inventory_id)),
        next_decor_id: (w.next_decor_id + 1) as u64,
        ..w
    }
}

/// What `move_decor` and `update_decor_text` answer.
pub open spec fn change_result(w: WorldView, who: UserId, decor_id: u64) -> Result<(), Error> {
    if !has_user(w.users, who) {
        Err(Error::NotFound(Entity::User))
    } else if !has_decor(w.decors, decor_id) {
        Err(Error::NotFound(Entity::Decor))
    } else {
        Ok(())
    }
}

/// The world after `who` has moved the decoration, where `change_result`
/// is `Ok`.
pub open spec fn decor_moved(
    w: WorldView,
    who: UserId,
    decor_id: u64,
    x: u32,
    y: u32,
    rot: u32,
) -> WorldView {
    let at = decor_index(w.decors, decor_id);
    WorldView {
        decors: w.decors.update(at, Decor { last_modifier: who, x, y, rot, ..w.decors[at] }),
        ..w
    }
}

/// The world after `who` has written on the decoration, where
/// `change_result` is `Ok`.
pub open spec fn decor_annotated(
    w: WorldView,
    who: UserId,
    decor_id: u64,
    text: String,
) -> WorldView {
    let at = decor_index(w.decors, decor_id);
    WorldView {
        decors: w.decors.update(at, Decor { last_modifier: who, text: Some(text), ..w.decors[at] }),
        ..w
    }
}

/// Whether the deletion is one by a stranger: the caller and the
/// decoration exist, and the decoration's owner is a known user other than
/// the caller.
pub open spec fn foreign_deletion(w: WorldView, who: UserId, decor_id: u64) -> bool {
    let owner = w.decors[decor_index(w.decors, decor_id)].owner;
    &&& has_user(w.users, who)
    &&& has_decor(w.decors, decor_id)
    &&& has_user(w.users, owner)
    &&& owner != who
}

/// Whether the deletion brings the owner's grief counter to the threshold.
pub open spec fn reaches_threshold(w: WorldView, who: UserId, decor_id: u64) -> bool {
    let owner = w.decors[decor_index(w.decors, decor_id)].owner;
    &&& foreign_deletion(w, who, decor_id)
    &&& w.users[user_index(w.users, owner)].owned_items_deleted + 1 >= GRIEF_THRESHOLD
}

/// Whether the deletion brings the owner a package: it reaches the
/// threshold while the owner occupies a door.
pub open spec fn delete_rewards(w: WorldView, who: UserId, decor_id: u64) -> bool {
    let owner = w.decors[decor_index(w.decors, decor_id)].owner;
    &&& reaches_threshold(w, who, decor_id)
    &&& occupies_any(w.doors, owner)
}

/// What `delete_decor_with` answers.
pub open spec fn delete_result(w: WorldView, who: UserId, decor_id: u64, reward: Seq<String>) -> Result<
    (),
    Error,
> {
    let owner = w.decors[decor_index(w.decors, decor_id)].owner;
    if !has_user(w.users, who) {
        Err(Error::NotFound(Entity::User))
    } else if !has_decor(w.decors, decor_id) {
        Err(Error::NotFound(Entity::Decor))
    } else if owner == who && w.next_inventory_id == u64::MAX {
        Err(Error::Internal)
    } else if delete_rewards(w, who, decor_id) && !package_fits(w, reward) {
        Err(Error::Internal)
    } else {
        Ok(())
    }
}

/// The users after a stranger has deleted a decoration of the user at
/// position `at`: the grief counter goes up by one, and back to zero where
/// it reaches the threshold.
pub open spec fn grieved(users: Seq<User>, at: int) -> Seq<User> {
    let count = users[at].owned_items_deleted + 1;
    users.update(
        at,
        User {
            owned_items_deleted: if count >= GRIEF_THRESHOLD {
                0
            } else {
                count as u8
            },
            ..users[at]
        },
    )
}

/// The world after `who` has deleted the decoration, where `delete_result`
/// is `Ok`. The decoration is gone. Deleted by its owner, its key goes back
/// into the owner's inventory; deleted by a stranger, it counts against the
/// owner's grief counter, and `reward` is delivered to the door that the
/// owner occupies where `delete_rewards` holds.
pub open spec fn decor_deleted(
    w: WorldView,
    who: UserId,
    decor_id: u64,
    reward: Seq<String>,
) -> WorldView {
    let at = decor_index(w.decors, decor_id);
    let d = w.decors[at];
    let gone = WorldView { decors: w.decors.remove(at), ..w };
    if d.owner == who {
        WorldView {
            inventory: w.inventory.push(
                Inventory { id: w.next_inventory_id, owner: who, decor_key: d.key },
            ),
            next_inventory_id: (w.next_inventory_id + 1) as u64,
            ..gone
        }
    } else if has_user(w.users, d.owner) {
        let counted = WorldView { users: grieved(w.users, user_index(w.users, d.owner)), ..gone };
        if delete_rewards(w, who, decor_id) {
            with_package(counted, w.doors[occupied_index(w.doors, d.owner)].id, reward)
        } else {
            counted
        }
    } else {
        gone
    }
}

/// Places an inventory item as a decoration on the door that the caller
/// occupies, at `(x, y)`, unturned and without text. The item leaves the
/// inventory.
pub fn create_decor(world: &mut World, sender: UserId, inventory_id: u64, x: u32, y: u32) -> (r: Result<
    (),
    Error,
>)
    requires
        old(world).wf(),
    ensures
        final(world).wf(),
        r == create_result(old(world)@, sender, inventory_id),
        final(world)@ == (if r is Ok {
            decor_created(old(world)@, sender, inventory_id, x, y)
        } else {
            old(world)@
        }),
{
    let user = match get_user(world, sender) {
        Ok(user) => user,
        Err(e) => {
            return Err(e);
        },
    };
    let at = match world.find_inventory(inventory_id) {
        Some(i) => i,
        None => {
            return Err(Error::NotFound(Entity::InventoryItem));
        },
    };
    let door_at = match world.find_occupied_door(user.identity) {
        Some(i) => i,
        None => {
            return Err(Error::InvalidState);
        },
    };
    if world.next_decor_id == u64::MAX {
        return Err(Error::Internal);
    }
    let id = world.next_decor_id;
    let door_id = world.doors[door_at].id;
    let item = world.inventory.remove(at);
    world.decors.push(
        Decor {
            id,
            door_id,
            owner: user.identity,
            text: None,
            x,
            y,
            rot: 0,
            key: item.decor_key,
            last_modifier: user.identity,
            deleted_at: None,
        },
    );
    world.next_decor_id = id + 1;
    Ok(())
}

/// Puts the decoration at `(x, y)` with rotation `rot`, and records the
/// caller as the last to change it. Any known user may move any decoration.
pub fn move_decor(world: &mut World, sender: UserId, decor_id: u64, x: u32, y: u32, rot: u32) -> (r:
    Result<(), Error>)
    requires
        old(world).wf(),
    ensures
        final(world).wf(),
        r == change_result(old(world)@, sender, decor_id),
        final(world)@ == (if r is Ok {
            decor_moved(old(world)@, sender, decor_id, x, y, rot)
        } else {
            old(world)@
        }),
{
    let user = match get_user(world, sender) {
        Ok(user) => user,
        Err(e) => {
            return Err(e);
        },
    };
    let at = match world.find_decor(decor_id) {
        Some(i) => i,
        None => {
            return Err(Error::NotFound(Entity::Decor));
        },
    };
    let ghost before = world@.decors;
    let d = world.decors.remove(at);
    world.decors.insert(at, Decor { last_modifier: user.identity, x, y, rot, ..d });
    proof {
        let after = before.update(
            at as int,
            Decor { last_modifier: sender, x, y, rot, ..before[at as int] },
        );
        assert(world@.decors =~= after);
    }
    Ok(())
}

/// Writes `text` on the decoration, and records the caller as the last to
/// change it. Any known user may write on any decoration.
pub fn update_decor_text(world: &mut World, sender: UserId, decor_id: u64, text: String) -> (r: Result<
    (),
    Error,
>)
    requires
        old(world).wf(),
    ensures
        final(world).wf(),
        r == change_result(old(world)@, sender, decor_id),
        final(world)@ == (if r is Ok {
            decor_annotated(old(world)@, sender, decor_id, text)
        } else {
            old(world)@
        }),
{
    let user = match get_user(world, sender) {
        Ok(user) => user,
        Err(e) => {
            return Err(e);
        },
    };
    let at = match world.find_decor(decor_id) {
        Some(i) => i,
        None => {
            return Err(Error::NotFound(Entity::Decor));
        },
    };
    let ghost before = world@.decors;
    let d = world.decors.remove(at);
    world.decors.insert(at, Decor { last_modifier: user.identity, text: Some(text), ..d });
    proof {
        let after = before.update(
            at as int,
            Decor { last_modifier: sender, text: Some(text), ..before[at as int] },
        );
        assert(world@.decors =~= after);
    }
    Ok(())
}

/// Takes the decoration down, with the reward package given as a value:
/// `reward` holds the keys of the package that the owner gets where
/// `delete_rewards` holds.
pub fn delete_decor_with(world: &mut World, sender: UserId, decor_id: u64, reward: Vec<String>) -> (r:
    Result<(), Error>)
    requires
        old(world).wf(),
    ensures
        final(world).wf(),
        r == delete_result(old(world)@, sender, decor_id, reward@),
        final(world)@ == (if r is Ok {
            decor_deleted(old(world)@, sender, decor_id, reward@)
        } else {
            old(world)@
        }),
{
    let user = match get_user(world, sender) {
        Ok(user) => user,
        Err(e) => {
            return Err(e);
        },
    };
    let at = match world.find_decor(decor_id) {
        Some(i) => i,
        None => {
            return Err(Error::NotFound(Entity::Decor));
        },
    };
    let owner = world.decors[at].owner;
    match world.find_user(owner) {
        None => {
            world.decors.remove(at);
        },
        Some(owner_at) => {
            if owner == user.identity {
                if world.next_inventory_id == u64::MAX {
                    return Err(Error::Internal);
                }
                let id = world.next_inventory_id;
                let d = world.decors.remove(at);
                world.inventory.push(Inventory { id, owner, decor_key: d.key });
                world.next_inventory_id = id + 1;
            } else {
                let o = world.users[owner_at];
                let count: u8 = o.owned_items_deleted + 1;
                if count >= GRIEF_THRESHOLD {
                    let door = world.find_occupied_door(owner);
                    if door.is_some() && !package_fits_now(world, &reward) {
                        return Err(Error::Internal);
                    }
                    world.users[owner_at] = User { owned_items_deleted: 0, ..o };
                    world.decors.remove(at);
                    if let Some(door_at) = door {
                        let door_id = world.doors[door_at].id;
                        put_package(world, door_id, &reward);
                    }
                } else {
                    world.users[owner_at] = User { owned_items_deleted: count, ..o };
                    world.decors.remove(at);
                }
            }
        },
    }
    Ok(())
}

/// Whether deleting the decoration would bring its owner a package.
pub fn reward_due(world: &World, sender: UserId, decor_id: u64) -> (b: bool)
    requires
        world.wf(),
    ensures
        b == delete_rewards(world@, sender, decor_id),
{
    if world.find_user(sender).is_none() {
        return false;
    }
    let at = match world.find_decor(decor_id) {
        Some(i) => i,
        None => {
            return false;
        },
    };
    let owner = world.decors[at].owner;
    match world.find_user(owner) {
        None => false,
        Some(owner_at) => {
            owner != sender && world.users[owner_at].owned_items_deleted + 1 >= GRIEF_THRESHOLD
                && world.find_occupied_door(owner).is_some()
        },
    }
}

/// Takes the decoration down. Taken down by its owner, it goes back into
/// the owner's inventory. Taken down by a stranger, it counts against the
/// owner; the third such deletion sets the count back and, where the owner
/// occupies a door, delivers a freshly drawn package there. Whatever is
/// drawn, the world changes as `delete_decor_with` says for some package as
/// `package_drawn` describes.
pub fn delete_decor(world: &mut World, sender: UserId, decor_id: u64, rng: &mut StdRng) -> (r: Result<
    (),
    Error,
>)
    requires
        old(world).wf(),
    ensures
        final(world).wf(),
        !has_user(old(world)@.users, sender) ==> r == Err::<(), Error>(Error::NotFound(Entity::User)),
        has_user(old(world)@.users, sender) && !has_decor(old(world)@.decors, decor_id) ==> r
            == Err::<(), Error>(Error::NotFound(Entity::Decor)),
        has_user(old(world)@.users, sender) && has_decor(old(world)@.decors, decor_id)
            && old(world)@.next_inventory_id < u64::MAX && package_room(old(world)@) ==> r is Ok,
        r is Err ==> final(world)@ == old(world)@,
        exists|reward: Vec<String>|
            {
                &&& delete_rewards(old(world)@, sender, decor_id) ==> package_drawn(reward@)
                &&& r == delete_result(old(world)@, sender, decor_id, reward@)
                &&& final(world)@ == (if r is Ok {
                    decor_deleted(old(world)@, sender, decor_id, reward@)
                } else {
                    old(world)@
                })
            },
{
    let reward: Vec<String> = if reward_due(world, sender, decor_id) {
        draw_package(rng)
    } else {
        Vec::new()
    };
    let r = delete_decor_with(world, sender, decor_id, reward);
    r
}

} // verus!
