//! Provisioning: a user's first contact, and the making of doors.

use crate::chance::{draw_initial_packages, packages_drawn};
use crate::model::{Door, DoorVisit, Error, User, UserId};
use crate::packages::{
    lemma_packages_drawn_small, lemma_with_packages_elsewhere, lemma_with_packages_frame, plan_fits,
    plan_fits_now, put_packages, seed_room, with_packages,
};
use crate::world::{has_user, World, WorldView};
use spacetimedb::rand::rngs::StdRng;
use vstd::prelude::*;

verus! {

/// The door that the counter numbers next, owned and occupied by `owner`.
pub open spec fn new_door(w: WorldView, door_number: u8, owner: UserId) -> Door {
    Door { id: w.next_door_id, owner, current_visitor: Some(owner), number: door_number }
}

/// Whether the counters can number a new door and the packages of the plan.
pub open spec fn door_fits(w: WorldView, plan: Seq<Vec<String>>) -> bool {
    &&& w.next_door_id < u64::MAX
    &&& plan_fits(w, plan)
}

/// The world after a door was made for `owner` and seeded with the plan.
pub open spec fn door_created(
    w: WorldView,
    door_number: u8,
    owner: UserId,
    plan: Seq<Vec<String>>,
) -> WorldView {
    with_packages(
        WorldView {
            doors: w.doors.push(new_door(w, door_number, owner)),
            next_door_id: (w.next_door_id + 1) as u64,
            ..w
        },
        w.next_door_id,
        plan,
    )
}

/// Makes a door that `owner` owns and occupies, with the given number, and
/// seeds it with the packages of the plan. Answers the new door, or
/// `Internal`, changing nothing, where the counters do not suffice.
pub fn create_door_for_user_with(
    world: &mut World,
    door_number: u8,
    owner: &User,
    plan: Vec<Vec<String>>,
) -> (r: Result<Door, Error>)
    requires
        old(world).wf(),
    ensures
        final(world).wf(),
        match r {
            Ok(door) => {
                &&& door_fits(old(world)@, plan@)
                &&& door == new_door(old(world)@, door_number, owner.identity)
                &&& final(world)@ == door_created(old(world)@, door_number, owner.identity, plan@)
            },
            Err(e) => {
                &&& !door_fits(old(world)@, plan@)
                &&& e == Error::Internal
                &&& final(world)@ == old(world)@
            },
        },
{
    if world.next_door_id == u64::MAX || !plan_fits_now(world, &plan) {
        return Err(Error::Internal);
    }
    let door = Door {
        id: world.next_door_id,
        owner: owner.identity,
        current_visitor: Some(owner.identity),
        number: door_number,
    };
    world.doors.push(door);
    world.next_door_id = door.id + 1;
    put_packages(world, door.id, &plan);
    Ok(door)
}

/// Makes a door that `owner` owns and occupies, with the given number, and
/// seeds it with one or two freshly drawn packages.
pub fn create_door_for_user(world: &mut World, door_number: u8, owner: &User, rng: &mut StdRng) -> (r:
    Result<Door, Error>)
    requires
        old(world).wf(),
    ensures
        final(world).wf(),
        old(world)@.next_door_id < u64::MAX && seed_room(old(world)@) ==> r is Ok,
        exists|plan: Vec<Vec<String>>|
            {
                &&& packages_drawn(plan@)
                &&& match r {
                    Ok(door) => {
                        &&& door_fits(old(world)@, plan@)
                        &&& door == new_door(old(world)@, door_number, owner.identity)
                        &&& final(world)@ == door_created(
                            old(world)@,
                            door_number,
                            owner.identity,
                            plan@,
                        )
                    },
                    Err(e) => {
                        &&& !door_fits(old(world)@, plan@)
                        &&& e == Error::Internal
                        &&& final(world)@ == old(world)@
                    },
                }
            },
{
    let plan = draw_initial_packages(rng);
    let ghost drawn = plan;
    let r = create_door_for_user_with(world, door_number, owner, plan);
    proof {
        lemma_packages_drawn_small(drawn@);
    }
    r
}

/// What `identity_connected_with` answers.
pub open spec fn connect_result(w: WorldView, who: UserId, plan: Seq<Vec<String>>) -> Result<(), Error> {
    if !has_user(w.users, who) && !door_fits(w, plan) {
        Err(Error::Internal)
    } else {
        Ok(())
    }
}

/// The user as first contact records them: at their first door, which is
/// the door that the counter numbers next.
pub open spec fn new_user(w: WorldView, who: UserId) -> User {
    User {
        identity: who,
        original_door: Some(w.next_door_id),
        current_door_number: 1,
        owned_items_deleted: 0,
    }
}

/// The world after the contact of `who`, where `connect_result` is `Ok`.
/// A known user changes nothing. A new one is recorded, gets a first door
/// seeded with the plan, and their visit to it is entered in the ledger.
pub open spec fn connected(w: WorldView, who: UserId, plan: Seq<Vec<String>>) -> WorldView {
    if has_user(w.users, who) {
        w
    } else {
        with_packages(
            WorldView {
                users: w.users.push(new_user(w, who)),
                doors: w.doors.push(new_door(w, 1, who)),
                visits: w.visits.push(DoorVisit { visitor: who, door_id: w.next_door_id }),
                next_door_id: (w.next_door_id + 1) as u64,
                ..w
            },
            w.next_door_id,
            plan,
        )
    }
}

/// Handles a contact of `sender`, with the packages for a first door given
/// as a value. A second contact of the same user changes nothing.
pub fn identity_connected_with(world: &mut World, sender: UserId, plan: Vec<Vec<String>>) -> (r: Result<
    (),
    Error,
>)
    requires
        old(world).wf(),
    ensures
        final(world).wf(),
        r == connect_result(old(world)@, sender, plan@),
        final(world)@ == (if r is Ok {
            connected(old(world)@, sender, plan@)
        } else {
            old(world)@
        }),
{
    if world.find_user(sender).is_some() {
        return Ok(());
    }
    if world.next_door_id == u64::MAX || !plan_fits_now(world, &plan) {
        return Err(Error::Internal);
    }
    let ghost before = world@;
    let ghost shape = plan@;
    let user = User {
        identity: sender,
        original_door: None,
        current_door_number: 1,
        owned_items_deleted: 0,
    };
    world.users.push(user);
    let ghost recorded = world@;
    let door = match create_door_for_user_with(world, 1, &user, plan) {
        Ok(door) => door,
        Err(e) => {
            return Err(e);
        },
    };
    proof {
        lemma_with_packages_frame(
            WorldView {
                doors: recorded.doors.push(new_door(recorded, 1, sender)),
                next_door_id: (recorded.next_door_id + 1) as u64,
                ..recorded
            },
            door.id,
            shape,
        );
    }
    let at = world.users.len() - 1;
    world.users[at] = User { original_door: Some(door.id), current_door_number: 1, ..user };
    world.visits.push(DoorVisit { visitor: user.identity, door_id: door.id });
    proof {
        let made = WorldView {
            doors: recorded.doors.push(new_door(recorded, 1, sender)),
            next_door_id: (recorded.next_door_id + 1) as u64,
            ..recorded
        };
        let aim = WorldView {
            users: before.users.push(new_user(before, sender)),
            doors: before.doors.push(new_door(before, 1, sender)),
            visits: before.visits.push(DoorVisit { visitor: sender, door_id: before.next_door_id }),
            next_door_id: (before.next_door_id + 1) as u64,
            ..before
        };
        lemma_with_packages_elsewhere(made, aim, door.id, shape);
        assert(world@.users =~= aim.users);
    }
    Ok(())
}

/// Handles a contact of `sender`: a user not seen before is recorded and
/// gets a first door of their own, seeded with one or two freshly drawn
/// packages; a known user changes nothing. Whatever is drawn, the world
/// changes as `identity_connected_with` says for some packages as
/// `packages_drawn` describes.
pub fn identity_connected(world: &mut World, sender: UserId, rng: &mut StdRng) -> (r: Result<(), Error>)
    requires
        old(world).wf(),
    ensures
        final(world).wf(),
        has_user(old(world)@.users, sender) ==> r is Ok && final(world)@ == old(world)@,
        old(world)@.next_door_id < u64::MAX && seed_room(old(world)@) ==> r is Ok,
        r is Err ==> r == Err::<(), Error>(Error::Internal) && final(world)@ == old(world)@,
        exists|plan: Vec<Vec<String>>|
            {
                &&& !has_user(old(world)@.users, sender) ==> packages_drawn(plan@)
                &&& r == connect_result(old(world)@, sender, plan@)
                &&& final(world)@ == (if r is Ok {
                    connected(old(world)@, sender, plan@)
                } else {
                    old(world)@
                })
            },
{
    let plan: Vec<Vec<String>> = if world.find_user(sender).is_none() {
        draw_initial_packages(rng)
    } else {
        Vec::new()
    };
    let ghost drawn = plan;
    let r = identity_connected_with(world, sender, plan);
    proof {
        if !has_user(old(world)@.users, sender) {
            lemma_packages_drawn_small(drawn@);
        }
    }
    r
}

} // verus!
