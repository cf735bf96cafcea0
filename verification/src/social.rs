//! The interaction ledger: likes.

use crate::model::{Entity, Error, Interaction, InteractionType, UserId};
use crate::world::{decor_index, get_user, has_decor, has_user, World, WorldView};
use vstd::prelude::*;

verus! {

/// The users whom a like of the decoration reaches: the decoration's owner
/// and, if that is someone else, the user who changed it last, each only
/// if known. A decoration that does not exist reaches nobody.
pub open spec fn like_targets(w: WorldView, decor_id: u64) -> Seq<UserId> {
    let d = w.decors[decor_index(w.decors, decor_id)];
    let owner = if has_decor(w.decors, decor_id) && has_user(w.users, d.owner) {
        seq![d.owner]
    } else {
        Seq::<UserId>::empty()
    };
    let modifier = if has_decor(w.decors, decor_id) && d.last_modifier != d.owner && has_user(
        w.users,
        d.last_modifier,
    ) {
        seq![d.last_modifier]
    } else {
        Seq::<UserId>::empty()
    };
    owner + modifier
}

/// What `like_door` answers.
pub open spec fn like_result(w: WorldView, who: UserId, decor_id: u64) -> Result<(), Error> {
    if !has_user(w.users, who) {
        Err(Error::NotFound(Entity::User))
    } else if w.next_interaction_id + like_targets(w, decor_id).len() > u64::MAX {
        Err(Error::Internal)
    } else {
        Ok(())
    }
}

/// The likes that `who` gives to the targets, numbered from `first_id` on.
pub open spec fn likes(first_id: u64, who: UserId, targets: Seq<UserId>) -> Seq<Interaction> {
    Seq::new(
        targets.len(),
        |j: int|
            Interaction {
                id: (first_id + j) as u64,
                actor: who,
                target_user: targets[j],
                interaction_type: InteractionType::LikeDoor,
            },
    )
}

/// The world after the like, where `like_result` is `Ok`: one entry more in
/// the ledger for each user reached.
pub open spec fn liked(w: WorldView, who: UserId, decor_id: u64) -> WorldView {
    let targets = like_targets(w, decor_id);
    WorldView {
        interactions: w.interactions + likes(w.next_interaction_id, who, targets),
        next_interaction_id: (w.next_interaction_id + targets.len()) as u64,
        ..w
    }
}

/// Records a like by the caller. `door_id` names a decoration on the door
/// that is liked; the like goes to the decoration's owner and, if that is
/// someone else, to the user who changed it last. A user who is not known,
/// and a decoration that does not exist, make the like reach fewer users;
/// they do not make it fail.
pub fn like_door(world: &mut World, sender: UserId, door_id: u64) -> (r: Result<(), Error>)
    requires
        old(world).wf(),
    ensures
        final(world).wf(),
        r == like_result(old(world)@, sender, door_id),
        final(world)@ == (if r is Ok {
            liked(old(world)@, sender, door_id)
        } else {
            old(world)@
        }),
{
    let acting_user = match get_user(world, sender) {
        Ok(user) => user,
        Err(e) => {
            return Err(e);
        },
    };
    let mut targets: Vec<UserId> = Vec::new();
    match world.find_decor(door_id) {
        None => {},
        Some(at) => {
            let owner = world.decors[at].owner;
            let modifier = world.decors[at].last_modifier;
            if world.find_user(owner).is_some() {
                targets.push(owner);
            }
            if modifier != owner && world.find_user(modifier).is_some() {
                targets.push(modifier);
            }
        },
    }
    assert(targets@ =~= like_targets(world@, door_id));
    let first_id = world.next_interaction_id;
    if targets.len() as u64 > u64::MAX - first_id {
        return Err(Error::Internal);
    }
    let mut j: usize = 0;
    while j < targets.len()
        invariant
            j <= targets.len() <= 2,
            acting_user.identity == sender,
            first_id + targets.len() <= u64::MAX,
            world.interactions@ == old(world).interactions@ + likes(
                first_id,
                sender,
                targets@.subrange(0, j as int),
            ),
            world.users == old(world).users,
            world.doors == old(world).doors,
            world.visits == old(world).visits,
            world.decors == old(world).decors,
            world.inventory == old(world).inventory,
            world.packages == old(world).packages,
            world.package_items == old(world).package_items,
            world.next_door_id == old(world).next_door_id,
            world.next_decor_id == old(world).next_decor_id,
            world.next_interaction_id == old(world).next_interaction_id,
            world.next_inventory_id == old(world).next_inventory_id,
            world.next_package_id == old(world).next_package_id,
            world.next_package_item_id == old(world).next_package_item_id,
        decreases targets.len() - j,
    {
        world.interactions.push(
            Interaction {
                id: first_id + j as u64,
                actor: acting_user.identity,
                target_user: targets[j],
                interaction_type: InteractionType::LikeDoor,
            },
        );
        j += 1;
    }
    world.next_interaction_id = first_id + targets.len() as u64;
    proof {
        assert(targets@.subrange(0, j as int) =~= targets@);
    }
    Ok(())
}

} // verus!
