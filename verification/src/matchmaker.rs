//! The matchmaker: which door a visitor enters next.

use crate::chance::{choose_position, draw_initial_packages, packages_drawn};
use crate::model::{Door, DoorVisit, Entity, Error, Package, User, UserId};
use crate::packages::{
    lemma_packages_drawn_small, lemma_with_packages_elsewhere, lemma_with_packages_frame, plan_fits,
    plan_fits_now, put_packages, seed_room, with_packages,
};
use crate::provision::{create_door_for_user_with, new_door};
use crate::world::{doors_ok, has_package_at, has_user, users_ok, World, WorldView};
use spacetimedb::rand::rngs::StdRng;
use vstd::prelude::*;

verus! {

/// The largest number of doors that a user can have visited and still
/// enter another: the visit number of the next one must fit its field.
pub const MAX_VISITED: usize = 254;

/// A door as it is once `who` has left it.
pub open spec fn release_door(d: Door, who: UserId) -> Door {
    if d.current_visitor == Some(who) {
        Door { current_visitor: None, ..d }
    } else {
        d
    }
}

/// The doors once `who` has left every door that records them as visitor.
pub open spec fn released(doors: Seq<Door>, who: UserId) -> Seq<Door> {
    doors.map_values(|d: Door| release_door(d, who))
}

/// The ids of the doors that the ledger says `who` has visited.
pub open spec fn visited(visits: Seq<DoorVisit>, who: UserId) -> Set<u64> {
    Set::new(
        |id: u64|
            exists|i: int|
                0 <= i < visits.len() && (#[trigger] visits[i]).visitor == who && visits[i].door_id
                    == id,
    )
}

/// Whether `who` may be sent to the door: it is vacant, it is not their
/// own, and they have not visited it.
pub open spec fn eligible(d: Door, who: UserId, seen: Set<u64>) -> bool {
    &&& d.current_visitor is None
    &&& d.owner != who
    &&& !seen.contains(d.id)
}

/// `eligible` as a predicate on doors.
pub open spec fn eligible_pred(who: UserId, seen: Set<u64>) -> spec_fn(Door) -> bool {
    |d: Door| eligible(d, who, seen)
}

/// The doors that `who` may be sent to, oldest first.
pub open spec fn candidates(doors: Seq<Door>, who: UserId, seen: Set<u64>) -> Seq<Door> {
    doors.filter(eligible_pred(who, seen))
}

/// The doors once `who` has become the visitor of the door `id`.
pub open spec fn occupied(doors: Seq<Door>, id: u64, who: UserId) -> Seq<Door> {
    doors.map_values(
        |d: Door|
            if d.id == id {
                Door { current_visitor: Some(who), ..d }
            } else {
                d
            },
    )
}

/// The users once the visit number of `who` has been set.
pub open spec fn renumbered(users: Seq<User>, who: UserId, number: u8) -> Seq<User> {
    users.map_values(
        |u: User|
            if u.identity == who {
                User { current_door_number: number, ..u }
            } else {
                u
            },
    )
}

/// The candidates among which the matchmaker chooses for `who`.
pub open spec fn enter_candidates(w: WorldView, who: UserId) -> Seq<Door> {
    candidates(released(w.doors, who), who, visited(w.visits, who))
}

/// The id of the door that `who` enters: the candidate at position `pick`,
/// counted round the candidates, or a new door where there is no candidate.
pub open spec fn enter_target(w: WorldView, who: UserId, pick: usize) -> u64 {
    let cands = enter_candidates(w, who);
    if cands.len() > 0 {
        cands[pick as int % cands.len() as int].id
    } else {
        w.next_door_id
    }
}

/// Whether the door entered is seeded with the packages of the plan: a new
/// door always is, a candidate where no package lies at it.
pub open spec fn enter_seeds(w: WorldView, who: UserId, pick: usize) -> bool {
    enter_candidates(w, who).len() == 0 || !has_package_at(w.packages, enter_target(w, who, pick))
}

/// What `enter_door_with` answers.
pub open spec fn enter_result(w: WorldView, who: UserId, pick: usize, plan: Seq<Vec<String>>) -> Result<
    (),
    Error,
> {
    if !has_user(w.users, who) {
        Err(Error::NotFound(Entity::User))
    } else if visited(w.visits, who).len() > MAX_VISITED {
        Err(Error::Internal)
    } else if enter_candidates(w, who).len() == 0 && w.next_door_id == u64::MAX {
        Err(Error::Internal)
    } else if enter_seeds(w, who, pick) && !plan_fits(w, plan) {
        Err(Error::Internal)
    } else {
        Ok(())
    }
}

/// Whether `who` can enter a door whatever is drawn: they are known, the
/// number of their next visit fits its field, and the counters can number
/// a new door and the packages that seed a door.
pub open spec fn enter_room(w: WorldView, who: UserId) -> bool {
    &&& has_user(w.users, who)
    &&& visited(w.visits, who).len() <= MAX_VISITED
    &&& w.next_door_id < u64::MAX
    &&& seed_room(w)
}

/// The world after `who` has entered their next door, where `enter_result`
/// is `Ok`.
pub open spec fn entered(w: WorldView, who: UserId, pick: usize, plan: Seq<Vec<String>>) -> WorldView {
    let number = (visited(w.visits, who).len() + 1) as u8;
    let target = enter_target(w, who, pick);
    let left = released(w.doors, who);
    let arrived = WorldView {
        users: renumbered(w.users, who, number),
        doors: if enter_candidates(w, who).len() > 0 {
            occupied(left, target, who)
        } else {
            left.push(new_door(w, number, who))
        },
        visits: w.visits.push(DoorVisit { visitor: who, door_id: target }),
        next_door_id: if enter_candidates(w, who).len() > 0 {
            w.next_door_id
        } else {
            (w.next_door_id + 1) as u64
        },
        ..w
    };
    if enter_seeds(w, who, pick) {
        with_packages(arrived, target, plan)
    } else {
        arrived
    }
}

/// The visited set is that of the visits seen so far, plus the door of one
/// more visit where the visit is by `who`.
pub proof fn lemma_visited_push(visits: Seq<DoorVisit>, v: DoorVisit, who: UserId)
    ensures
        visited(visits.push(v), who) == if v.visitor == who {
            visited(visits, who).insert(v.door_id)
        } else {
            visited(visits, who)
        },
{
    let more = visits.push(v);
    let expected = if v.visitor == who {
        visited(visits, who).insert(v.door_id)
    } else {
        visited(visits, who)
    };
    assert forall|id: u64| visited(more, who).contains(id) <==> expected.contains(id) by {
        if expected.contains(id) {
            if v.visitor == who && id == v.door_id {
                assert(more[visits.len() as int] == v);
            } else {
                let i = choose|i: int|
                    0 <= i < visits.len() && (#[trigger] visits[i]).visitor == who
                        && visits[i].door_id == id;
                assert(more[i] == visits[i]);
            }
        }
    }
}

/// The visited set of any ledger is finite.
pub proof fn lemma_visited_finite(visits: Seq<DoorVisit>, who: UserId)
    ensures
        visited(visits, who).finite(),
    decreases visits.len(),
{
    if visits.len() == 0 {
        assert(visited(visits, who) =~= Set::<u64>::empty());
    } else {
        lemma_visited_finite(visits.drop_last(), who);
        lemma_visited_push(visits.drop_last(), visits.last(), who);
        assert(visits.drop_last().push(visits.last()) =~= visits);
    }
}

/// Collects the ids of the doors that `who` has visited, each once.
pub fn visited_doors(visits: &Vec<DoorVisit>, who: UserId) -> (seen: Vec<u64>)
    ensures
        seen@.no_duplicates(),
        seen@.to_set() == visited(visits@, who),
        seen@.len() == visited(visits@, who).len(),
{
    let mut seen: Vec<u64> = Vec::new();
    let mut i: usize = 0;
    while i < visits.len()
        invariant
            i <= visits.len(),
            seen@.no_duplicates(),
            seen@.to_set() == visited(visits@.subrange(0, i as int), who),
        decreases visits.len() - i,
    {
        let v = visits[i];
        proof {
            assert(visits@.subrange(0, i + 1) =~= visits@.subrange(0, i as int).push(v));
            lemma_visited_push(visits@.subrange(0, i as int), v, who);
        }
        if v.visitor == who && !holds(&seen, v.door_id) {
            let ghost before = seen@;
            seen.push(v.door_id);
            proof {
                assert forall|id: u64| seen@.contains(id) <==> (before.contains(id) || id
                    == v.door_id) by {
                    if before.contains(id) {
                        let k = choose|k: int| 0 <= k < before.len() && before[k] == id;
                        assert(seen@[k] == id);
                    }
                    if id == v.door_id {
                        assert(seen@[before.len() as int] == id);
                    }
                }
                assert(seen@.to_set() =~= before.to_set().insert(v.door_id));
            }
        }
        i += 1;
    }
    proof {
        assert(visits@.subrange(0, i as int) =~= visits@);
        seen@.unique_seq_to_set();
    }
    seen
}

/// Whether the list holds the id.
fn holds(ids: &Vec<u64>, id: u64) -> (b: bool)
    ensures
        b == ids@.contains(id),
{
    let mut j: usize = 0;
    while j < ids.len()
        invariant
            j <= ids.len(),
            forall|k: int| 0 <= k < j ==> ids@[k] != id,
        decreases ids.len() - j,
    {
        if ids[j] == id {
            return true;
        }
        j += 1;
    }
    false
}

/// Finds the positions, among all doors, of the candidates for `who`, in
/// rising order, given the ids of the doors that they have visited. A door
/// that `who` occupies counts as vacant: they leave it before they enter
/// the next.
pub fn candidate_positions(doors: &Vec<Door>, seen: &Vec<u64>, who: UserId) -> (found: Vec<usize>)
    ensures
        found@.len() == candidates(released(doors@, who), who, seen@.to_set()).len(),
        forall|k: int|
            0 <= k < found@.len() ==> (#[trigger] found@[k]) < doors@.len() && released(
                doors@,
                who,
            )[found@[k] as int] == candidates(released(doors@, who), who, seen@.to_set())[k],
        forall|a: int, b: int| 0 <= a < b < found@.len() ==> found@[a] < found@[b],
{
    let ghost left = released(doors@, who);
    let ghost pred = eligible_pred(who, seen@.to_set());
    let mut found: Vec<usize> = Vec::new();
    let mut i: usize = 0;
    while i < doors.len()
        invariant
            i <= doors.len(),
            left == released(doors@, who),
            pred == eligible_pred(who, seen@.to_set()),
            found@.len() == left.subrange(0, i as int).filter(pred).len(),
            forall|k: int|
                0 <= k < found@.len() ==> (#[trigger] found@[k]) < i && left[found@[k] as int]
                    == left.subrange(0, i as int).filter(pred)[k],
            forall|a: int, b: int| 0 <= a < b < found@.len() ==> found@[a] < found@[b],
        decreases doors.len() - i,
    {
        let d = doors[i];
        let vacant = match d.current_visitor {
            None => true,
            Some(v) => v == who,
        };
        let fresh = !holds(seen, d.id);
        proof {
            reveal(Seq::filter);
            let next = left.subrange(0, i + 1);
            assert(next.drop_last() =~= left.subrange(0, i as int));
        }
        if vacant && d.owner != who && fresh {
            found.push(i);
        }
        i += 1;
    }
    proof {
        assert(left.subrange(0, i as int) =~= left);
    }
    found
}

/// Whether some package lies at the door.
pub fn door_has_package(packages: &Vec<Package>, door_id: u64) -> (b: bool)
    ensures
        b == has_package_at(packages@, door_id),
{
    let mut j: usize = 0;
    while j < packages.len()
        invariant
            j <= packages.len(),
            forall|k: int| 0 <= k < j ==> (#[trigger] packages@[k]).door_id != door_id,
        decreases packages.len() - j,
    {
        if packages[j].door_id == door_id {
            return true;
        }
        j += 1;
    }
    false
}

/// Makes `who` leave every door that records them as visitor.
pub(crate) fn release_doors(doors: &mut Vec<Door>, who: UserId)
    ensures
        final(doors)@ == released(old(doors)@, who),
{
    let mut i: usize = 0;
    while i < doors.len()
        invariant
            i <= doors.len(),
            doors@.len() == old(doors)@.len(),
            forall|k: int| 0 <= k < i ==> doors@[k] == release_door(old(doors)@[k], who),
            forall|k: int| i <= k < doors@.len() ==> doors@[k] == old(doors)@[k],
        decreases doors.len() - i,
    {
        let d = doors[i];
        let here = match d.current_visitor {
            None => false,
            Some(v) => v == who,
        };
        if here {
            doors[i] = Door { current_visitor: None, ..d };
        }
        i += 1;
    }
}

/// Under unique ids, occupying the door with the id found at a position
/// changes the door at that position and no other.
pub proof fn lemma_occupied_at(doors: Seq<Door>, at: int, who: UserId, next: u64)
    requires
        doors_ok(doors, next),
        0 <= at < doors.len(),
    ensures
        occupied(doors, doors[at].id, who) == doors.update(
            at,
            Door { current_visitor: Some(who), ..doors[at] },
        ),
        doors_ok(occupied(doors, doors[at].id, who), next),
{
}

/// Under unique identities, setting the visit number of the user found
/// at a position changes the user at that position and no other.
pub proof fn lemma_renumbered_at(users: Seq<User>, at: int, number: u8)
    requires
        users_ok(users),
        0 <= at < users.len(),
    ensures
        renumbered(users, users[at].identity, number) == users.update(
            at,
            User { current_door_number: number, ..users[at] },
        ),
        users_ok(renumbered(users, users[at].identity, number)),
{
}

/// Records that the user at position `at` has entered the door: their
/// visit number is set, and the visit is entered in the ledger.
fn note_visit(world: &mut World, at: usize, number: u8, door_id: u64)
    requires
        old(world).wf(),
        at < old(world)@.users.len(),
        door_id < old(world)@.next_door_id,
    ensures
        final(world).wf(),
        final(world)@ == (WorldView {
            users: renumbered(old(world)@.users, old(world)@.users[at as int].identity, number),
            visits: old(world)@.visits.push(
                DoorVisit { visitor: old(world)@.users[at as int].identity, door_id },
            ),
            ..old(world)@
        }),
{
    let u = world.users[at];
    world.users[at] = User { current_door_number: number, ..u };
    world.visits.push(DoorVisit { visitor: u.identity, door_id });
    proof {
        lemma_renumbered_at(old(world)@.users, at as int, number);
    }
}

/// Sends `sender` to their next door, with the random choices given as
/// values. `pick` chooses among the candidates, counted round them; `plan`
/// holds the packages for the door, used where `enter_seeds` says so.
///
/// The caller leaves every door they occupy. The candidates are the vacant
/// doors of other owners that the caller has not visited. The caller
/// becomes the visitor of the chosen candidate or, where there is none, of
/// a new door of their own. The visit is recorded and the caller's visit
/// number becomes the number of doors visited before, plus one.
pub fn enter_door_with(world: &mut World, sender: UserId, pick: usize, plan: Vec<Vec<String>>) -> (r:
    Result<(), Error>)
    requires
        old(world).wf(),
    ensures
        final(world).wf(),
        r == enter_result(old(world)@, sender, pick, plan@),
        final(world)@ == (if r is Ok {
            entered(old(world)@, sender, pick, plan@)
        } else {
            old(world)@
        }),
{
    let at_user = match world.find_user(sender) {
        Some(i) => i,
        None => {
            return Err(Error::NotFound(Entity::User));
        },
    };
    let seen = visited_doors(&world.visits, sender);
    if seen.len() > MAX_VISITED {
        return Err(Error::Internal);
    }
    let number: u8 = (seen.len() + 1) as u8;
    let found = candidate_positions(&world.doors, &seen, sender);
    let ghost before = world@;
    let ghost shape = plan@;
    let ghost left = released(before.doors, sender);
    if found.len() == 0 {
        if world.next_door_id == u64::MAX || !plan_fits_now(world, &plan) {
            return Err(Error::Internal);
        }
        release_doors(&mut world.doors, sender);
        let user = world.users[at_user];
        let ghost made = WorldView {
            doors: left.push(new_door(before, number, sender)),
            next_door_id: (before.next_door_id + 1) as u64,
            ..before
        };
        let door = match create_door_for_user_with(world, number, &user, plan) {
            Ok(door) => door,
            Err(e) => {
                return Err(e);
            },
        };
        proof {
            lemma_with_packages_frame(made, door.id, shape);
        }
        note_visit(world, at_user, number, door.id);
        proof {
            let arrived = WorldView {
                users: renumbered(before.users, sender, number),
                visits: before.visits.push(DoorVisit { visitor: sender, door_id: door.id }),
                ..made
            };
            lemma_with_packages_elsewhere(made, arrived, door.id, shape);
        }
    } else {
        let at = found[pick % found.len()];
        let target = world.doors[at].id;
        let seeds = !door_has_package(&world.packages, target);
        if seeds && !plan_fits_now(world, &plan) {
            return Err(Error::Internal);
        }
        release_doors(&mut world.doors, sender);
        let d = world.doors[at];
        world.doors[at] = Door { current_visitor: Some(sender), ..d };
        proof {
            lemma_occupied_at(left, at as int, sender, before.next_door_id);
        }
        note_visit(world, at_user, number, target);
        if seeds {
            put_packages(world, target, &plan);
        }
    }
    Ok(())
}

/// Sends `sender` to their next door. The door is chosen among the
/// candidates with equal chances, and the packages for it are drawn where
/// the door is to be seeded. Whatever is drawn, for a known caller the
/// world changes as `enter_door_with` says for some choice among the
/// candidates and, where the door is seeded, for some packages as
/// `packages_drawn` describes.
pub fn enter_door(world: &mut World, sender: UserId, rng: &mut StdRng) -> (r: Result<(), Error>)
    requires
        old(world).wf(),
    ensures
        final(world).wf(),
        !has_user(old(world)@.users, sender) ==> r == Err::<(), Error>(Error::NotFound(Entity::User)),
        enter_room(old(world)@, sender) ==> r is Ok,
        r is Err ==> final(world)@ == old(world)@,
        has_user(old(world)@.users, sender) ==> exists|pick: usize, plan: Vec<Vec<String>>|
            {
                &&& enter_seeds(old(world)@, sender, pick) ==> packages_drawn(plan@)
                &&& r == enter_result(old(world)@, sender, pick, plan@)
                &&& final(world)@ == (if r is Ok {
                    entered(old(world)@, sender, pick, plan@)
                } else {
                    old(world)@
                })
            },
{
    if world.find_user(sender).is_none() {
        return Err(Error::NotFound(Entity::User));
    }
    let seen = visited_doors(&world.visits, sender);
    let found = candidate_positions(&world.doors, &seen, sender);
    let pick: usize = match choose_position(rng, found.len()) {
        Some(k) => k,
        None => 0,
    };
    let seeds = if found.len() == 0 {
        true
    } else {
        !door_has_package(&world.packages, world.doors[found[pick]].id)
    };
    let plan: Vec<Vec<String>> = if seeds {
        draw_initial_packages(rng)
    } else {
        Vec::new()
    };
    let ghost drawn = plan;
    proof {
        if found.len() > 0 {
            vstd::arithmetic::div_mod::lemma_small_mod(pick as nat, found@.len());
        }
    }
    let r = enter_door_with(world, sender, pick, plan);
    proof {
        if seeds {
            lemma_packages_drawn_small(drawn@);
        }
    }
    r
}

} // verus!
