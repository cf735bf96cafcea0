//! Packages: how they come to a door and how they are opened.

use crate::chance::{draw_initial_packages, draw_package, package_drawn, packages_drawn};
use crate::model::{Entity, Error, Inventory, Package, PackageItem, UserId};
use crate::world::{has_package, package_index, package_items_ok, World, WorldView};
use spacetimedb::rand::rngs::StdRng;
use vstd::prelude::*;

verus! {

/// Whether the counters can number one more package with these keys.
pub open spec fn package_fits(w: WorldView, keys: Seq<String>) -> bool {
    &&& w.next_package_id < u64::MAX
    &&& w.next_package_item_id + keys.len() <= u64::MAX
}

/// The items of a new package: one per key, in the order of the keys,
/// numbered from `first_id` on.
pub open spec fn new_items(first_id: u64, package_id: u64, keys: Seq<String>) -> Seq<PackageItem> {
    Seq::new(
        keys.len(),
        |j: int| PackageItem { id: (first_id + j) as u64, package_id, decor_key: keys[j] },
    )
}

/// The world after a package with these keys was delivered to the door.
pub open spec fn with_package(w: WorldView, door_id: u64, keys: Seq<String>) -> WorldView {
    WorldView {
        packages: w.packages.push(Package { id: w.next_package_id, door_id }),
        package_items: w.package_items + new_items(w.next_package_item_id, w.next_package_id, keys),
        next_package_id: (w.next_package_id + 1) as u64,
        next_package_item_id: (w.next_package_item_id + keys.len()) as u64,
        ..w
    }
}

/// How many keys the packages of a plan hold together.
pub open spec fn total_keys(plan: Seq<Vec<String>>) -> nat
    decreases plan.len(),
{
    if plan.len() == 0 {
        0
    } else {
        total_keys(plan.drop_last()) + plan.last()@.len()
    }
}

/// Whether the counters can number every package of the plan and every key
/// in them.
pub open spec fn plan_fits(w: WorldView, plan: Seq<Vec<String>>) -> bool {
    &&& w.next_package_id + plan.len() <= u64::MAX
    &&& w.next_package_item_id + total_keys(plan) <= u64::MAX
}

/// Whether the counters can number whatever is drawn for one package: one
/// package of up to five keys.
pub open spec fn package_room(w: WorldView) -> bool {
    &&& w.next_package_id < u64::MAX
    &&& w.next_package_item_id + 5 <= u64::MAX
}

/// Whether the counters can number whatever is drawn to seed a door: up to
/// two packages of up to five keys each.
pub open spec fn seed_room(w: WorldView) -> bool {
    &&& w.next_package_id + 2 <= u64::MAX
    &&& w.next_package_item_id + 10 <= u64::MAX
}

/// Packages drawn for a door hold at most two packages and between three
/// and ten keys.
pub proof fn lemma_packages_drawn_small(plan: Seq<Vec<String>>)
    requires
        packages_drawn(plan),
    ensures
        1 <= plan.len() <= 2,
        3 <= total_keys(plan) <= 10,
{
    reveal_with_fuel(total_keys, 3);
}

/// The world after each package of the plan was delivered to the door, the
/// first package of the plan first.
pub open spec fn with_packages(w: WorldView, door_id: u64, plan: Seq<Vec<String>>) -> WorldView
    decreases plan.len(),
{
    if plan.len() == 0 {
        w
    } else {
        with_package(with_packages(w, door_id, plan.drop_last()), door_id, plan.last()@)
    }
}

/// Delivering packages touches the two package tables and their counters,
/// and nothing else; the counters advance by what the plan holds.
pub proof fn lemma_with_packages_frame(w: WorldView, door_id: u64, plan: Seq<Vec<String>>)
    requires
        plan_fits(w, plan),
    ensures
        ({
            let v = with_packages(w, door_id, plan);
            &&& v.users == w.users
            &&& v.doors == w.doors
            &&& v.visits == w.visits
            &&& v.decors == w.decors
            &&& v.interactions == w.interactions
            &&& v.inventory == w.inventory
            &&& v.next_door_id == w.next_door_id
            &&& v.next_decor_id == w.next_decor_id
            &&& v.next_interaction_id == w.next_interaction_id
            &&& v.next_inventory_id == w.next_inventory_id
            &&& v.next_package_id == w.next_package_id + plan.len()
            &&& v.next_package_item_id == w.next_package_item_id + total_keys(plan)
            &&& v.packages.len() == w.packages.len() + plan.len()
            &&& v.package_items.len() == w.package_items.len() + total_keys(plan)
        }),
    decreases plan.len(),
{
    if plan.len() > 0 {
        lemma_with_packages_frame(w, door_id, plan.drop_last());
    }
}

/// What delivering packages does to the package tables and their counters
/// depends on nothing else in the world.
pub proof fn lemma_with_packages_elsewhere(
    w: WorldView,
    v: WorldView,
    door_id: u64,
    plan: Seq<Vec<String>>,
)
    requires
        w.packages == v.packages,
        w.package_items == v.package_items,
        w.next_package_id == v.next_package_id,
        w.next_package_item_id == v.next_package_item_id,
    ensures
        with_packages(v, door_id, plan) == (WorldView {
            packages: with_packages(w, door_id, plan).packages,
            package_items: with_packages(w, door_id, plan).package_items,
            next_package_id: with_packages(w, door_id, plan).next_package_id,
            next_package_item_id: with_packages(w, door_id, plan).next_package_item_id,
            ..v
        }),
    decreases plan.len(),
{
    if plan.len() > 0 {
        lemma_with_packages_elsewhere(w, v, door_id, plan.drop_last());
    }
}

/// Whether the counters can number every package of the plan and every key
/// in them.
pub fn plan_fits_now(world: &World, plan: &Vec<Vec<String>>) -> (b: bool)
    ensures
        b == plan_fits(world@, plan@),
{
    let mut packages_left: u64 = u64::MAX - world.next_package_id;
    let mut items_left: u64 = u64::MAX - world.next_package_item_id;
    let mut p: usize = 0;
    while p < plan.len()
        invariant
            p <= plan.len(),
            packages_left == u64::MAX - world.next_package_id - p,
            items_left == u64::MAX - world.next_package_item_id - total_keys(
                plan@.subrange(0, p as int),
            ),
        decreases plan.len() - p,
    {
        let ghost before = plan@.subrange(0, p as int);
        let ghost after = plan@.subrange(0, p + 1);
        proof {
            assert(after.drop_last() =~= before);
            lemma_total_keys_grows(plan@, p + 1);
        }
        let count = plan[p].len();
        if packages_left == 0 || count as u64 > items_left {
            return false;
        }
        packages_left -= 1;
        items_left -= count as u64;
        p += 1;
    }
    proof {
        assert(plan@.subrange(0, p as int) =~= plan@);
    }
    true
}

/// A plan holds at least as many keys as any of its beginnings.
pub proof fn lemma_total_keys_grows(plan: Seq<Vec<String>>, k: int)
    requires
        0 <= k <= plan.len(),
    ensures
        total_keys(plan.subrange(0, k)) <= total_keys(plan),
    decreases plan.len() - k,
{
    if k < plan.len() {
        assert(plan.subrange(0, k + 1).drop_last() =~= plan.subrange(0, k));
        lemma_total_keys_grows(plan, k + 1);
    } else {
        assert(plan.subrange(0, k) =~= plan);
    }
}

/// Whether the counters can number one more package with these keys.
pub fn package_fits_now(world: &World, keys: &Vec<String>) -> (b: bool)
    ensures
        b == package_fits(world@, keys@),
{
    world.next_package_id < u64::MAX && keys.len() as u64 <= u64::MAX - world.next_package_item_id
}

/// Delivers one package with the given keys to the door. The caller has
/// made sure that the counters suffice.
pub(crate) fn put_package(world: &mut World, door_id: u64, keys: &Vec<String>)
    requires
        old(world).wf(),
        package_fits(old(world)@, keys@),
    ensures
        final(world)@ == with_package(old(world)@, door_id, keys@),
        final(world).wf(),
{
    let package_id = world.next_package_id;
    let first_id = world.next_package_item_id;
    world.packages.push(Package { id: package_id, door_id });
    world.next_package_id = package_id + 1;
    let mut j: usize = 0;
    while j < keys.len()
        invariant
            j <= keys.len(),
            first_id + keys.len() <= u64::MAX,
            world.package_items@ == old(world).package_items@ + new_items(
                first_id,
                package_id,
                keys@.subrange(0, j as int),
            ),
            world.users == old(world).users,
            world.doors == old(world).doors,
            world.visits == old(world).visits,
            world.decors == old(world).decors,
            world.interactions == old(world).interactions,
            world.inventory == old(world).inventory,
            world.packages@ == old(world).packages@.push(Package { id: package_id, door_id }),
            world.next_door_id == old(world).next_door_id,
            world.next_decor_id == old(world).next_decor_id,
            world.next_interaction_id == old(world).next_interaction_id,
            world.next_inventory_id == old(world).next_inventory_id,
            world.next_package_id == package_id + 1,
            world.next_package_item_id == first_id,
        decreases keys.len() - j,
    {
        let key = keys[j].clone();
        world.package_items.push(PackageItem { id: first_id + j as u64, package_id, decor_key: key });
        j += 1;
    }
    world.next_package_item_id = first_id + keys.len() as u64;
    proof {
        assert(keys@.subrange(0, j as int) =~= keys@);
    }
}

/// Delivers each package of the plan to the door. The caller has made sure
/// that the counters suffice.
pub(crate) fn put_packages(world: &mut World, door_id: u64, plan: &Vec<Vec<String>>)
    requires
        old(world).wf(),
        plan_fits(old(world)@, plan@),
    ensures
        final(world)@ == with_packages(old(world)@, door_id, plan@),
        final(world).wf(),
{
    let mut p: usize = 0;
    while p < plan.len()
        invariant
            p <= plan.len(),
            old(world).wf(),
            plan_fits(old(world)@, plan@),
            world.wf(),
            world@ == with_packages(old(world)@, door_id, plan@.subrange(0, p as int)),
        decreases plan.len() - p,
    {
        proof {
            let before = plan@.subrange(0, p as int);
            let after = plan@.subrange(0, p + 1);
            assert(after.drop_last() =~= before);
            lemma_total_keys_grows(plan@, p + 1);
            lemma_with_packages_frame(old(world)@, door_id, before);
        }
        put_package(world, door_id, &plan[p]);
        p += 1;
    }
    proof {
        assert(plan@.subrange(0, p as int) =~= plan@);
    }
}

/// Delivers one package with the given keys to the door, or answers
/// `Internal` and changes nothing where the counters cannot number it.
pub fn add_package_with(world: &mut World, door_id: u64, keys: Vec<String>) -> (r: Result<(), Error>)
    requires
        old(world).wf(),
    ensures
        final(world).wf(),
        r is Ok <==> package_fits(old(world)@, keys@),
        r is Err ==> r == Err::<(), Error>(Error::Internal),
        final(world)@ == (if r is Ok {
            with_package(old(world)@, door_id, keys@)
        } else {
            old(world)@
        }),
{
    if !package_fits_now(world, &keys) {
        return Err(Error::Internal);
    }
    put_package(world, door_id, &keys);
    Ok(())
}

/// Delivers one freshly drawn package to the door: three to five keys,
/// each drawn from the catalog on its own.
pub fn add_package(world: &mut World, door_id: u64, rng: &mut StdRng) -> (r: Result<(), Error>)
    requires
        old(world).wf(),
    ensures
        final(world).wf(),
        r is Err ==> r == Err::<(), Error>(Error::Internal) && final(world)@ == old(world)@,
        package_room(old(world)@) ==> r is Ok,
        exists|keys: Vec<String>|
            {
                &&& package_drawn(keys@)
                &&& r is Ok <==> package_fits(old(world)@, keys@)
                &&& final(world)@ == (if r is Ok {
                    with_package(old(world)@, door_id, keys@)
                } else {
                    old(world)@
                })
            },
{
    let keys = draw_package(rng);
    let r = add_package_with(world, door_id, keys);
    r
}

/// Delivers the packages of the plan to the door, the first of the plan
/// first, or answers `Internal` and changes nothing where the counters
/// cannot number them all.
pub fn add_initial_packages_with(world: &mut World, door_id: u64, plan: Vec<Vec<String>>) -> (r:
    Result<(), Error>)
    requires
        old(world).wf(),
    ensures
        final(world).wf(),
        r is Ok <==> plan_fits(old(world)@, plan@),
        r is Err ==> r == Err::<(), Error>(Error::Internal),
        final(world)@ == (if r is Ok {
            with_packages(old(world)@, door_id, plan@)
        } else {
            old(world)@
        }),
{
    if !plan_fits_now(world, &plan) {
        return Err(Error::Internal);
    }
    put_packages(world, door_id, &plan);
    Ok(())
}

/// Seeds the door with one or two freshly drawn packages.
pub fn add_initial_packages(world: &mut World, door_id: u64, rng: &mut StdRng) -> (r: Result<
    (),
    Error,
>)
    requires
        old(world).wf(),
    ensures
        final(world).wf(),
        r is Err ==> r == Err::<(), Error>(Error::Internal) && final(world)@ == old(world)@,
        seed_room(old(world)@) ==> r is Ok,
        exists|plan: Vec<Vec<String>>|
            {
                &&& packages_drawn(plan@)
                &&& r is Ok <==> plan_fits(old(world)@, plan@)
                &&& final(world)@ == (if r is Ok {
                    with_packages(old(world)@, door_id, plan@)
                } else {
                    old(world)@
                })
            },
{
    let plan = draw_initial_packages(rng);
    let ghost drawn = plan;
    let r = add_initial_packages_with(world, door_id, plan);
    proof {
        lemma_packages_drawn_small(drawn@);
    }
    r
}

/// Whether an item lies in the package.
pub open spec fn in_package(package_id: u64) -> spec_fn(PackageItem) -> bool {
    |item: PackageItem| item.package_id == package_id
}

/// Whether an item lies in another package.
pub open spec fn outside_package(package_id: u64) -> spec_fn(PackageItem) -> bool {
    |item: PackageItem| item.package_id != package_id
}

/// The items of the package, oldest first.
pub open spec fn contents(items: Seq<PackageItem>, package_id: u64) -> Seq<PackageItem> {
    items.filter(in_package(package_id))
}

/// The inventory items that `who` gets out of package items: one for each,
/// with its key, in their order, numbered from `first_id` on.
pub open spec fn unpacked(items: Seq<PackageItem>, who: UserId, first_id: u64) -> Seq<Inventory> {
    Seq::new(
        items.len(),
        |j: int| Inventory { id: (first_id + j) as u64, owner: who, decor_key: items[j].decor_key },
    )
}

/// What `open_package` answers.
pub open spec fn open_result(w: WorldView, package_id: u64) -> Result<(), Error> {
    if !has_package(w.packages, package_id) {
        Err(Error::NotFound(Entity::Package))
    } else if w.next_inventory_id + contents(w.package_items, package_id).len() > u64::MAX {
        Err(Error::Internal)
    } else {
        Ok(())
    }
}

/// The world after `who` has opened the package, where `open_result` is
/// `Ok`: every item of the package has become an item of the inventory of
/// `who`, and the package and its items are gone.
pub open spec fn package_opened(w: WorldView, who: UserId, package_id: u64) -> WorldView {
    let inside = contents(w.package_items, package_id);
    WorldView {
        inventory: w.inventory + unpacked(inside, who, w.next_inventory_id),
        next_inventory_id: (w.next_inventory_id + inside.len()) as u64,
        packages: w.packages.remove(package_index(w.packages, package_id)),
        package_items: w.package_items.filter(outside_package(package_id)),
        ..w
    }
}

/// Opens a package for the caller: every item of the package becomes an
/// item of the caller's inventory, and the package and its items are
/// removed. The caller need not be a known user.
pub fn open_package(world: &mut World, sender: UserId, package_id: u64) -> (r: Result<(), Error>)
    requires
        old(world).wf(),
    ensures
        final(world).wf(),
        r == open_result(old(world)@, package_id),
        final(world)@ == (if r is Ok {
            package_opened(old(world)@, sender, package_id)
        } else {
            old(world)@
        }),
{
    let at = match world.find_package(package_id) {
        Some(i) => i,
        None => {
            return Err(Error::NotFound(Entity::Package));
        },
    };
    let first_id = world.next_inventory_id;
    let ghost all = world@.package_items;
    let ghost inside = in_package(package_id);
    let ghost outside = outside_package(package_id);
    let mut kept: Vec<PackageItem> = Vec::new();
    let mut taken: Vec<PackageItem> = Vec::new();
    let mut i: usize = 0;
    while i < world.package_items.len()
        invariant
            i <= world.package_items.len(),
            world@ == old(world)@,
            all == world@.package_items,
            inside == in_package(package_id),
            outside == outside_package(package_id),
            package_items_ok(all, world@.next_package_item_id, world@.next_package_id),
            kept@ == all.subrange(0, i as int).filter(outside),
            taken@ == all.subrange(0, i as int).filter(inside),
            forall|k: int|
                0 <= k < kept@.len() ==> exists|m: int| 0 <= m < i && all[m] == #[trigger] kept@[k],
            package_items_ok(kept@, world@.next_package_item_id, world@.next_package_id),
        decreases world.package_items.len() - i,
    {
        let item = PackageItem {
            id: world.package_items[i].id,
            package_id: world.package_items[i].package_id,
            decor_key: world.package_items[i].decor_key.clone(),
        };
        proof {
            reveal(Seq::filter);
            let next = all.subrange(0, i + 1);
            assert(next.drop_last() =~= all.subrange(0, i as int));
        }
        if item.package_id == package_id {
            taken.push(item);
        } else {
            kept.push(item);
        }
        i += 1;
    }
    proof {
        assert(all.subrange(0, i as int) =~= all);
    }
    if taken.len() as u64 > u64::MAX - first_id {
        return Err(Error::Internal);
    }
    let mut j: usize = 0;
    while j < taken.len()
        invariant
            j <= taken.len(),
            first_id + taken.len() <= u64::MAX,
            world.inventory@ == old(world).inventory@ + unpacked(
                taken@.subrange(0, j as int),
                sender,
                first_id,
            ),
            world.users == old(world).users,
            world.doors == old(world).doors,
            world.visits == old(world).visits,
            world.decors == old(world).decors,
            world.interactions == old(world).interactions,
            world.packages == old(world).packages,
            world.package_items == old(world).package_items,
            world.next_door_id == old(world).next_door_id,
            world.next_decor_id == old(world).next_decor_id,
            world.next_interaction_id == old(world).next_interaction_id,
            world.next_inventory_id == old(world).next_inventory_id,
            world.next_package_id == old(world).next_package_id,
            world.next_package_item_id == old(world).next_package_item_id,
        decreases taken.len() - j,
    {
        let key = taken[j].decor_key.clone();
        world.inventory.push(Inventory { id: first_id + j as u64, owner: sender, decor_key: key });
        j += 1;
    }
    proof {
        assert(taken@.subrange(0, j as int) =~= taken@);
    }
    world.next_inventory_id = first_id + taken.len() as u64;
    world.package_items = kept;
    world.packages.remove(at);
    Ok(())
}

} // verus!
