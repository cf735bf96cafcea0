//! What holds of the handlers taken together.

use crate::decor::{
    change_result, create_result, decor_annotated, decor_created, decor_deleted, decor_moved,
    delete_result, delete_rewards, foreign_deletion, grieved, placed_decor,
};
use crate::matchmaker::{
    eligible, eligible_pred, enter_candidates, enter_result, enter_seeds, enter_target, entered,
    lemma_visited_finite, lemma_visited_push, occupied, released, renumbered, visited, MAX_VISITED,
};
use crate::model::{
    Decor, Door, DoorVisit, Entity, Error, Inventory, Package, PackageItem, UserId,
};
use crate::packages::{
    contents, in_package, lemma_with_packages_frame, new_items, open_result, outside_package,
    package_opened, plan_fits, total_keys, unpacked, with_packages,
};
use crate::social::{like_result, liked};
use crate::provision::{connect_result, connected, new_door, new_user};
use crate::world::{
    decor_index, has_decor, has_door, has_inventory, has_package, has_user, inventory_index,
    lemma_user_index, occupied_index, occupies_any, package_items_ok, user_index, WorldView,
    GRIEF_THRESHOLD,
};
use vstd::prelude::*;

verus! {

/// Each candidate is a door of the world that was vacant or occupied by
/// the visitor alone, is owned by someone else, and has not been visited
/// by the visitor.
pub proof fn lemma_candidate_is_eligible(w: WorldView, who: UserId, k: int)
    requires
        0 <= k < enter_candidates(w, who).len(),
    ensures
        exists|i: int|
            {
                &&& 0 <= i < w.doors.len()
                &&& (#[trigger] w.doors[i]).id == enter_candidates(w, who)[k].id
                &&& w.doors[i].owner == enter_candidates(w, who)[k].owner
                &&& (w.doors[i].current_visitor is None || w.doors[i].current_visitor == Some(who))
            },
        enter_candidates(w, who)[k].owner != who,
        enter_candidates(w, who)[k].current_visitor is None,
        !visited(w.visits, who).contains(enter_candidates(w, who)[k].id),
{
    let left = released(w.doors, who);
    let pred = eligible_pred(who, visited(w.visits, who));
    let cands = enter_candidates(w, who);
    left.lemma_filter_contains_rev(pred, cands[k]);
}

/// Visits only add up. Where `enter_door` succeeds, the door entered was
/// not in the caller's visited set, which grows by exactly that door; the
/// visited set of every other user stays as it was. Where there was a
/// candidate, the door entered is an existing door that the caller does not
/// own; where there was none, it is a new door.
pub proof fn lemma_enter_grows_visited(
    w: WorldView,
    who: UserId,
    pick: usize,
    plan: Seq<Vec<String>>,
    other: UserId,
)
    requires
        w.wf(),
        enter_result(w, who, pick, plan) is Ok,
    ensures
        ({
            let v = entered(w, who, pick, plan);
            let target = enter_target(w, who, pick);
            &&& !visited(w.visits, who).contains(target)
            &&& visited(v.visits, who) == visited(w.visits, who).insert(target)
            &&& visited(v.visits, who).len() == visited(w.visits, who).len() + 1
            &&& other != who ==> visited(v.visits, other) == visited(w.visits, other)
            &&& visited(w.visits, other).subset_of(visited(v.visits, other))
            &&& visited(w.visits, other).len() <= visited(v.visits, other).len()
            &&& enter_candidates(w, who).len() > 0 ==> exists|i: int|
                0 <= i < w.doors.len() && (#[trigger] w.doors[i]).id == target && w.doors[i].owner
                    != who
            &&& enter_candidates(w, who).len() == 0 ==> !has_door(w.doors, target)
        }),
{
    let v = entered(w, who, pick, plan);
    let target = enter_target(w, who, pick);
    let cands = enter_candidates(w, who);
    lemma_entered_tables(w, who, pick, plan);
    if cands.len() > 0 {
        let k = pick as int % cands.len() as int;
        lemma_candidate_is_eligible(w, who, k);
    }
    let visit = DoorVisit { visitor: who, door_id: target };
    lemma_visited_push(w.visits, visit, who);
    lemma_visited_push(w.visits, visit, other);
    lemma_visited_finite(w.visits, who);
}

/// Which tables entering a door touches: the visit is appended to the
/// ledger, the doors are those left and then entered, and decorations,
/// interactions and inventory stay as they were.
pub proof fn lemma_entered_tables(w: WorldView, who: UserId, pick: usize, plan: Seq<Vec<String>>)
    requires
        enter_result(w, who, pick, plan) is Ok,
    ensures
        ({
            let v = entered(w, who, pick, plan);
            let target = enter_target(w, who, pick);
            let left = released(w.doors, who);
            let number = (visited(w.visits, who).len() + 1) as u8;
            &&& v.visits == w.visits.push(DoorVisit { visitor: who, door_id: target })
            &&& v.doors == if enter_candidates(w, who).len() > 0 {
                occupied(left, target, who)
            } else {
                left.push(new_door(w, number, who))
            }
            &&& v.users == renumbered(w.users, who, number)
            &&& v.decors == w.decors
            &&& v.interactions == w.interactions
            &&& v.inventory == w.inventory
            &&& !enter_seeds(w, who, pick) ==> v.packages == w.packages && v.package_items
                == w.package_items
            &&& enter_seeds(w, who, pick) ==> v.packages.len() == w.packages.len() + plan.len()
                && v.package_items.len() == w.package_items.len() + total_keys(plan)
        }),
{
    let target = enter_target(w, who, pick);
    let left = released(w.doors, who);
    let number = (visited(w.visits, who).len() + 1) as u8;
    if enter_seeds(w, who, pick) {
        let arrived = WorldView {
            users: renumbered(w.users, who, number),
            doors: if enter_candidates(w, who).len() > 0 {
                occupied(left, target, who)
            } else {
                left.push(new_door(w, number, who))
            },
            visits: w.visits.push(DoorVisit { visitor: who, door_id: target }),
            next_door_id: if enter_candidates(w, who).len() > 0 {
                w.next_door_id
            } else {
                (w.next_door_id + 1) as u64
            },
            ..w
        };
        lemma_with_packages_frame(arrived, target, plan);
    }
}

/// No door has two occupants: a well-formed world holds each door id once,
/// so two users recorded as the visitor of the same door are one user.
pub proof fn lemma_exclusive_occupancy(w: WorldView, i: int, j: int, a: UserId, b: UserId)
    requires
        w.wf(),
        0 <= i < w.doors.len(),
        0 <= j < w.doors.len(),
        w.doors[i].id == w.doors[j].id,
        w.doors[i].current_visitor == Some(a),
        w.doors[j].current_visitor == Some(b),
    ensures
        i == j,
        a == b,
{
}

/// Entering a door displaces nobody and leaves the caller at one door:
/// the door entered had no visitor other than the caller, afterwards the
/// caller is the visitor of that door and of no other, and every other
/// door keeps the visitor that it had.
pub proof fn lemma_enter_keeps_occupancy_exclusive(
    w: WorldView,
    who: UserId,
    pick: usize,
    plan: Seq<Vec<String>>,
)
    requires
        w.wf(),
        enter_result(w, who, pick, plan) is Ok,
    ensures
        ({
            let v = entered(w, who, pick, plan);
            let target = enter_target(w, who, pick);
            &&& forall|i: int|
                0 <= i < v.doors.len() ==> ((#[trigger] v.doors[i]).current_visitor == Some(who)
                    <==> v.doors[i].id == target)
            &&& forall|i: int|
                0 <= i < w.doors.len() && (#[trigger] w.doors[i]).id == target ==> (
                w.doors[i].current_visitor is None || w.doors[i].current_visitor == Some(who))
            &&& forall|i: int|
                0 <= i < w.doors.len() && (#[trigger] w.doors[i]).id != target
                    && w.doors[i].current_visitor != Some(who) ==> v.doors[i].current_visitor
                    == w.doors[i].current_visitor
        }),
{
    let cands = enter_candidates(w, who);
    lemma_entered_tables(w, who, pick, plan);
    if cands.len() > 0 {
        let k = pick as int % cands.len() as int;
        lemma_candidate_is_eligible(w, who, k);
    }
}

/// Where there is no candidate, no door of the world is one that the
/// caller may be sent to: each is occupied by someone else, or the
/// caller's own, or visited.
pub proof fn lemma_no_candidate_means_no_door_is_eligible(w: WorldView, who: UserId, i: int)
    requires
        enter_candidates(w, who).len() == 0,
        0 <= i < w.doors.len(),
    ensures
        !eligible(released(w.doors, who)[i], who, visited(w.visits, who)),
        (w.doors[i].current_visitor is Some && w.doors[i].current_visitor != Some(who))
            || w.doors[i].owner == who || visited(w.visits, who).contains(w.doors[i].id),
{
    let left = released(w.doors, who);
    let pred = eligible_pred(who, visited(w.visits, who));
    if pred(left[i]) {
        left.lemma_filter_contains(pred, i);
    }
}

/// Where no candidate exists, a known caller always gets a new door of
/// their own, unless a counter is exhausted: the caller has not visited
/// more than `MAX_VISITED` doors, and the counters can number the door and
/// the packages of the plan.
pub proof fn lemma_bootstrap_creates_door(
    w: WorldView,
    who: UserId,
    pick: usize,
    plan: Seq<Vec<String>>,
)
    requires
        w.wf(),
        has_user(w.users, who),
        enter_candidates(w, who).len() == 0,
        visited(w.visits, who).len() <= MAX_VISITED,
        w.next_door_id < u64::MAX,
        plan_fits(w, plan),
    ensures
        enter_result(w, who, pick, plan) is Ok,
        ({
            let v = entered(w, who, pick, plan);
            let number = (visited(w.visits, who).len() + 1) as u8;
            &&& v.doors == released(w.doors, who).push(
                Door { id: w.next_door_id, owner: who, current_visitor: Some(who), number },
            )
            &&& v.packages.len() == w.packages.len() + plan.len()
        }),
{
    lemma_entered_tables(w, who, pick, plan);
}

/// After a first contact the user is known, so a second contact changes
/// nothing, whatever packages it brings.
pub proof fn lemma_second_contact_changes_nothing(
    w: WorldView,
    who: UserId,
    plan: Seq<Vec<String>>,
    again: Seq<Vec<String>>,
)
    requires
        w.wf(),
        connect_result(w, who, plan) is Ok,
    ensures
        has_user(connected(w, who, plan).users, who),
        connect_result(connected(w, who, plan), who, again) is Ok,
        connected(connected(w, who, plan), who, again) == connected(w, who, plan),
{
    if !has_user(w.users, who) {
        let recorded = WorldView {
            users: w.users.push(new_user(w, who)),
            doors: w.doors.push(new_door(w, 1, who)),
            visits: w.visits.push(DoorVisit { visitor: who, door_id: w.next_door_id }),
            next_door_id: (w.next_door_id + 1) as u64,
            ..w
        };
        lemma_with_packages_frame(recorded, w.next_door_id, plan);
        assert(recorded.users[w.users.len() as int].identity == who);
    }
}

/// Appending an element adds it to what a filter keeps exactly when the
/// filter accepts it.
pub proof fn lemma_filter_push<A>(s: Seq<A>, x: A, pred: spec_fn(A) -> bool)
    ensures
        s.push(x).filter(pred) == if pred(x) {
            s.filter(pred).push(x)
        } else {
            s.filter(pred)
        },
{
    reveal(Seq::filter);
    assert(s.push(x).drop_last() =~= s);
}

/// Removing an element takes one from the number that a filter keeps
/// exactly when the filter accepts the element.
pub proof fn lemma_filter_remove_len<A>(s: Seq<A>, at: int, pred: spec_fn(A) -> bool)
    requires
        0 <= at < s.len(),
    ensures
        s.remove(at).filter(pred).len() + (if pred(s[at]) {
            1nat
        } else {
            0nat
        }) == s.filter(pred).len(),
{
    let head = s.subrange(0, at);
    let tail = s.subrange(at + 1, s.len() as int);
    assert(s =~= head.push(s[at]) + tail);
    lemma_filter_push(head, s[at], pred);
}

/// A predicate and its negation split a sequence: what the one keeps and
/// what the other keeps add up to the whole, and what the negation keeps
/// holds nothing that the predicate accepts.
pub proof fn lemma_filter_split<A>(s: Seq<A>, pred: spec_fn(A) -> bool, neg: spec_fn(A) -> bool)
    requires
        forall|x: A| #[trigger] neg(x) == !pred(x),
    ensures
        s.filter(pred).len() + s.filter(neg).len() == s.len(),
        s.filter(neg).filter(pred).len() == 0,
    decreases s.len(),
{
    reveal(Seq::filter);
    if s.len() > 0 {
        lemma_filter_split(s.drop_last(), pred, neg);
        if neg(s.last()) {
            lemma_filter_push(s.drop_last().filter(neg), s.last(), pred);
        }
    }
}

/// The inventory items with this key.
pub open spec fn holds_key(key: Seq<char>) -> spec_fn(Inventory) -> bool {
    |item: Inventory| item.decor_key@ == key
}

/// The decorations with this key.
pub open spec fn shows_key(key: Seq<char>) -> spec_fn(Decor) -> bool {
    |d: Decor| d.key@ == key
}

/// How many inventory items have this key.
pub open spec fn inventory_count(inventory: Seq<Inventory>, key: Seq<char>) -> nat {
    inventory.filter(holds_key(key)).len()
}

/// How many decorations have this key.
pub open spec fn decor_count(decors: Seq<Decor>, key: Seq<char>) -> nat {
    decors.filter(shows_key(key)).len()
}

/// Placing an item moves one unit of its key from the inventory to the
/// decorations and no unit of any other key, and the item cannot be placed
/// again: a second call with its id answers `NotFound`.
pub proof fn lemma_create_conserves(
    w: WorldView,
    who: UserId,
    inventory_id: u64,
    x: u32,
    y: u32,
    key: Seq<char>,
    again: UserId,
)
    requires
        w.wf(),
        create_result(w, who, inventory_id) is Ok,
    ensures
        ({
            let v = decor_created(w, who, inventory_id, x, y);
            let placed = w.inventory[inventory_index(w.inventory, inventory_id)].decor_key@;
            let unit = if key == placed {
                1nat
            } else {
                0nat
            };
            &&& inventory_count(v.inventory, key) + unit == inventory_count(w.inventory, key)
            &&& decor_count(v.decors, key) == decor_count(w.decors, key) + unit
            &&& v.inventory.len() + 1 == w.inventory.len()
            &&& v.decors.len() == w.decors.len() + 1
            &&& !has_inventory(v.inventory, inventory_id)
            &&& create_result(v, again, inventory_id) == Err::<(), Error>(
                if has_user(w.users, again) {
                    Error::NotFound(Entity::InventoryItem)
                } else {
                    Error::NotFound(Entity::User)
                },
            )
        }),
{
    let at = inventory_index(w.inventory, inventory_id);
    let made = placed_decor(w, who, inventory_id, x, y);
    lemma_filter_remove_len(w.inventory, at, holds_key(key));
    lemma_filter_push(w.decors, made, shows_key(key));
}

/// Opening a package moves as many items into the inventory as the package
/// holds, removes those items and the package, and cannot be repeated: a
/// second call with its id answers `NotFound`.
pub proof fn lemma_open_conserves(w: WorldView, who: UserId, package_id: u64, again: UserId)
    requires
        w.wf(),
        open_result(w, package_id) is Ok,
    ensures
        ({
            let v = package_opened(w, who, package_id);
            let inside = contents(w.package_items, package_id);
            &&& v.inventory == w.inventory + unpacked(inside, who, w.next_inventory_id)
            &&& v.inventory.len() == w.inventory.len() + inside.len()
            &&& v.package_items.len() + inside.len() == w.package_items.len()
            &&& contents(v.package_items, package_id).len() == 0
            &&& v.packages.len() + 1 == w.packages.len()
            &&& !has_package(v.packages, package_id)
            &&& open_result(v, package_id) == Err::<(), Error>(Error::NotFound(Entity::Package))
        }),
{
    lemma_filter_split(w.package_items, in_package(package_id), outside_package(package_id));
}

/// How many decorations of the user others have deleted since the last
/// reward.
pub open spec fn grief_count(w: WorldView, owner: UserId) -> u8 {
    w.users[user_index(w.users, owner)].owned_items_deleted
}

/// What one deletion by a stranger does: the owner's grief counter goes up
/// by one, or back to zero where it reaches the threshold; in that case,
/// and if the owner occupies a door, exactly one package with the reward is
/// delivered to that door, and otherwise the packages stay as they were.
/// The decoration is gone, and the world stays well formed.
pub proof fn lemma_foreign_deletion_counts(
    w: WorldView,
    who: UserId,
    decor_id: u64,
    reward: Seq<String>,
)
    requires
        w.wf(),
        foreign_deletion(w, who, decor_id),
        delete_result(w, who, decor_id, reward) is Ok,
    ensures
        ({
            let v = decor_deleted(w, who, decor_id, reward);
            let owner = w.decors[decor_index(w.decors, decor_id)].owner;
            let count = grief_count(w, owner) + 1;
            &&& v.wf()
            &&& forall|id: UserId| has_user(v.users, id) == has_user(w.users, id)
            &&& grief_count(v, owner) == if count >= GRIEF_THRESHOLD {
                0
            } else {
                count
            }
            &&& v.doors == w.doors
            &&& v.decors == w.decors.remove(decor_index(w.decors, decor_id))
            &&& !has_decor(v.decors, decor_id)
            &&& v.inventory == w.inventory
            &&& if delete_rewards(w, who, decor_id) {
                &&& v.packages == w.packages.push(
                    Package {
                        id: w.next_package_id,
                        door_id: w.doors[occupied_index(w.doors, owner)].id,
                    },
                )
                &&& v.package_items == w.package_items + new_items(
                    w.next_package_item_id,
                    w.next_package_id,
                    reward,
                )
            } else {
                &&& v.packages == w.packages
                &&& v.package_items == w.package_items
            }
        }),
{
    let at = decor_index(w.decors, decor_id);
    let owner = w.decors[at].owner;
    let owner_at = user_index(w.users, owner);
    let after = grieved(w.users, owner_at);
    lemma_user_index(after, owner, owner_at);
    assert forall|id: UserId| has_user(after, id) == has_user(w.users, id) by {
        if has_user(after, id) {
            let i = choose|i: int| 0 <= i < after.len() && (#[trigger] after[i]).identity == id;
        }
        if has_user(w.users, id) {
            let i = user_index(w.users, id);
            assert(after[i].identity == id);
        }
    }
}

/// Three deletions in a row by strangers, each of a decoration of the same
/// owner whose grief counter stood at zero, bring the counter to one, to
/// two, and with the third back to zero. The first two deliver no package.
/// The third delivers exactly one, holding the reward, to the door that
/// the owner occupies then; an owner at no door gets none.
pub proof fn lemma_third_foreign_deletion_rewards(
    w: WorldView,
    owner: UserId,
    first: (UserId, u64, Seq<String>),
    second: (UserId, u64, Seq<String>),
    third: (UserId, u64, Seq<String>),
)
    requires
        w.wf(),
        has_user(w.users, owner),
        grief_count(w, owner) == 0,
        ({
            let w1 = decor_deleted(w, first.0, first.1, first.2);
            let w2 = decor_deleted(w1, second.0, second.1, second.2);
            &&& foreign_deletion(w, first.0, first.1)
            &&& w.decors[decor_index(w.decors, first.1)].owner == owner
            &&& delete_result(w, first.0, first.1, first.2) is Ok
            &&& foreign_deletion(w1, second.0, second.1)
            &&& w1.decors[decor_index(w1.decors, second.1)].owner == owner
            &&& delete_result(w1, second.0, second.1, second.2) is Ok
            &&& foreign_deletion(w2, third.0, third.1)
            &&& w2.decors[decor_index(w2.decors, third.1)].owner == owner
            &&& delete_result(w2, third.0, third.1, third.2) is Ok
        }),
    ensures
        ({
            let w1 = decor_deleted(w, first.0, first.1, first.2);
            let w2 = decor_deleted(w1, second.0, second.1, second.2);
            let w3 = decor_deleted(w2, third.0, third.1, third.2);
            &&& grief_count(w1, owner) == 1
            &&& grief_count(w2, owner) == 2
            &&& grief_count(w3, owner) == 0
            &&& w1.packages == w.packages && w1.package_items == w.package_items
            &&& w2.packages == w.packages && w2.package_items == w.package_items
            &&& if occupies_any(w.doors, owner) {
                &&& w3.packages == w.packages.push(
                    Package {
                        id: w.next_package_id,
                        door_id: w.doors[occupied_index(w.doors, owner)].id,
                    },
                )
                &&& w3.package_items == w.package_items + new_items(
                    w.next_package_item_id,
                    w.next_package_id,
                    third.2,
                )
                &&& w3.package_items.len() == w.package_items.len() + third.2.len()
            } else {
                &&& w3.packages == w.packages
                &&& w3.package_items == w.package_items
            }
        }),
{
    let w1 = decor_deleted(w, first.0, first.1, first.2);
    let w2 = decor_deleted(w1, second.0, second.1, second.2);
    lemma_foreign_deletion_counts(w2, third.0, third.1, third.2);
}

/// A door that someone has entered is no candidate for anyone else: two
/// users are never sent to the same door.
pub proof fn lemma_entered_door_is_taken(
    w: WorldView,
    who: UserId,
    pick: usize,
    plan: Seq<Vec<String>>,
    other: UserId,
    k: int,
)
    requires
        w.wf(),
        enter_result(w, who, pick, plan) is Ok,
        other != who,
        0 <= k < enter_candidates(entered(w, who, pick, plan), other).len(),
    ensures
        enter_candidates(entered(w, who, pick, plan), other)[k].id != enter_target(w, who, pick),
{
    let v = entered(w, who, pick, plan);
    lemma_enter_keeps_occupancy_exclusive(w, who, pick, plan);
    lemma_candidate_is_eligible(v, other, k);
}

/// Delivering the packages of a plan keeps the world well formed.
pub proof fn lemma_with_packages_wf(w: WorldView, door_id: u64, plan: Seq<Vec<String>>)
    requires
        w.wf(),
        plan_fits(w, plan),
    ensures
        with_packages(w, door_id, plan).wf(),
    decreases plan.len(),
{
    if plan.len() > 0 {
        lemma_with_packages_wf(w, door_id, plan.drop_last());
        lemma_with_packages_frame(w, door_id, plan.drop_last());
    }
}

/// What a filter keeps of well numbered package items is well numbered.
pub proof fn lemma_filtered_items_ok(
    items: Seq<PackageItem>,
    pred: spec_fn(PackageItem) -> bool,
    next: u64,
    next_package: u64,
)
    requires
        package_items_ok(items, next, next_package),
    ensures
        package_items_ok(items.filter(pred), next, next_package),
        forall|k: int|
            0 <= k < items.filter(pred).len() ==> items.contains(#[trigger] items.filter(pred)[k]),
    decreases items.len(),
{
    reveal(Seq::filter);
    if items.len() > 0 {
        lemma_filtered_items_ok(items.drop_last(), pred, next, next_package);
    }
}

/// Every handler keeps the world well formed: where it answers `Ok`, the
/// world that its contract describes is well formed again.
pub proof fn lemma_handlers_keep_wf(
    w: WorldView,
    who: UserId,
    id: u64,
    pick: usize,
    plan: Seq<Vec<String>>,
    keys: Seq<String>,
    at: (u32, u32, u32),
    text: String,
)
    requires
        w.wf(),
    ensures
        connect_result(w, who, plan) is Ok ==> connected(w, who, plan).wf(),
        enter_result(w, who, pick, plan) is Ok ==> entered(w, who, pick, plan).wf(),
        create_result(w, who, id) is Ok ==> decor_created(w, who, id, at.0, at.1).wf(),
        change_result(w, who, id) is Ok ==> decor_moved(w, who, id, at.0, at.1, at.2).wf(),
        change_result(w, who, id) is Ok ==> decor_annotated(w, who, id, text).wf(),
        delete_result(w, who, id, keys) is Ok ==> decor_deleted(w, who, id, keys).wf(),
        open_result(w, id) is Ok ==> package_opened(w, who, id).wf(),
        like_result(w, who, id) is Ok ==> liked(w, who, id).wf(),
{
    if connect_result(w, who, plan) is Ok && !has_user(w.users, who) {
        let recorded = WorldView {
            users: w.users.push(new_user(w, who)),
            doors: w.doors.push(new_door(w, 1, who)),
            visits: w.visits.push(DoorVisit { visitor: who, door_id: w.next_door_id }),
            next_door_id: (w.next_door_id + 1) as u64,
            ..w
        };
        lemma_with_packages_wf(recorded, w.next_door_id, plan);
    }
    if enter_result(w, who, pick, plan) is Ok {
        lemma_entered_wf(w, who, pick, plan);
    }
    if open_result(w, id) is Ok {
        lemma_filtered_items_ok(
            w.package_items,
            outside_package(id),
            w.next_package_item_id,
            w.next_package_id,
        );
    }
}

/// Entering a door keeps the world well formed.
pub proof fn lemma_entered_wf(w: WorldView, who: UserId, pick: usize, plan: Seq<Vec<String>>)
    requires
        w.wf(),
        enter_result(w, who, pick, plan) is Ok,
    ensures
        entered(w, who, pick, plan).wf(),
{
    let number = (visited(w.visits, who).len() + 1) as u8;
    let target = enter_target(w, who, pick);
    let left = released(w.doors, who);
    let cands = enter_candidates(w, who);
    let arrived = WorldView {
        users: renumbered(w.users, who, number),
        doors: if cands.len() > 0 {
            occupied(left, target, who)
        } else {
            left.push(new_door(w, number, who))
        },
        visits: w.visits.push(DoorVisit { visitor: who, door_id: target }),
        next_door_id: if cands.len() > 0 {
            w.next_door_id
        } else {
            (w.next_door_id + 1) as u64
        },
        ..w
    };
    if cands.len() > 0 {
        lemma_candidate_is_eligible(w, who, pick as int % cands.len() as int);
    }
    if enter_seeds(w, who, pick) {
        lemma_with_packages_wf(arrived, target, plan);
    }
}

} // verus!
