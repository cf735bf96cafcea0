use door_engine::snapshot::{is_well_numbered, items_are_packed, users_are_ok, visits_are_ok};
use door_engine::world::get_user;
use door_engine::{
    Decor, Door, DoorVisit, Entity, Error, Interaction, InteractionType, Inventory, Package,
    PackageItem, Snapshot, User, UserId, World,
};

fn user(n: u128) -> UserId {
    UserId { hi: 0, lo: n }
}

fn known(id: UserId, griefs: u8) -> User {
    User { identity: id, original_door: Some(1), current_door_number: 4, owned_items_deleted: griefs }
}

fn decor(id: u64) -> Decor {
    Decor {
        id,
        door_id: 1,
        owner: user(1),
        text: Some("hi".to_string()),
        x: 1,
        y: 2,
        rot: 3,
        key: "cat_01".to_string(),
        last_modifier: user(2),
        deleted_at: Some(1_700_000_000_000_000),
    }
}

fn full() -> Snapshot {
    Snapshot {
        users: vec![known(user(1), 0), known(user(2), 2), known(UserId { hi: 1, lo: 1 }, 1)],
        doors: vec![
            Door { id: 4, owner: user(1), current_visitor: Some(user(2)), number: 1 },
            Door { id: 2, owner: user(2), current_visitor: None, number: 1 },
        ],
        visits: vec![
            DoorVisit { visitor: user(1), door_id: 4 },
            DoorVisit { visitor: user(1), door_id: 4 },
        ],
        decors: vec![decor(9), decor(3)],
        interactions: vec![Interaction {
            id: 1,
            actor: user(1),
            target_user: user(2),
            interaction_type: InteractionType::LikeDoor,
        }],
        inventory: vec![Inventory { id: 6, owner: user(7), decor_key: "eye_01".to_string() }],
        packages: vec![Package { id: 2, door_id: 4 }],
        package_items: vec![PackageItem { id: 5, package_id: 2, decor_key: "eye_01".to_string() }],
        next_door_id: 5,
        next_decor_id: 10,
        next_interaction_id: 2,
        next_inventory_id: 7,
        next_package_id: 3,
        next_package_item_id: 6,
    }
}

#[test]
fn a_new_world_is_empty_and_counts_from_one() {
    let s = World::new().into_snapshot();
    assert!(s.users.is_empty() && s.doors.is_empty() && s.visits.is_empty());
    assert!(s.decors.is_empty() && s.interactions.is_empty() && s.inventory.is_empty());
    assert!(s.packages.is_empty() && s.package_items.is_empty());
    assert_eq!(
        (
            s.next_door_id,
            s.next_decor_id,
            s.next_interaction_id,
            s.next_inventory_id,
            s.next_package_id,
            s.next_package_item_id
        ),
        (1, 1, 1, 1, 1, 1)
    );
}

#[test]
fn a_well_formed_snapshot_becomes_a_world_and_comes_back() {
    let world = World::from_snapshot(full()).expect("well formed");
    let expected = full();
    assert_eq!(world.users(), &expected.users);
    assert_eq!(world.doors(), &expected.doors);
    assert_eq!(world.visits(), &expected.visits);
    assert_eq!(world.decors(), &expected.decors);
    assert_eq!(world.interactions(), &expected.interactions);
    assert_eq!(world.inventory(), &expected.inventory);
    assert_eq!(world.packages(), &expected.packages);
    assert_eq!(world.package_items(), &expected.package_items);

    let back = world.into_snapshot();
    assert_eq!(back.users, expected.users);
    assert_eq!(back.decors, expected.decors);
    assert_eq!(back.next_door_id, 5);
    assert_eq!(back.next_decor_id, 10);
    assert_eq!(back.next_interaction_id, 2);
    assert_eq!(back.next_inventory_id, 7);
    assert_eq!(back.next_package_id, 3);
    assert_eq!(back.next_package_item_id, 6);
}

fn refused(change: fn(&mut Snapshot)) -> bool {
    let mut s = full();
    change(&mut s);
    World::from_snapshot(s).is_none()
}

#[test]
fn a_snapshot_with_a_repeated_key_is_refused() {
    assert!(refused(|s| s.users.push(known(user(2), 0))));
    assert!(refused(|s| s.doors.push(Door { id: 4, owner: user(9), current_visitor: None, number: 1 })));
    assert!(refused(|s| s.decors.push(decor(9))));
    assert!(refused(|s| {
        s.interactions.push(Interaction {
            id: 1,
            actor: user(2),
            target_user: user(1),
            interaction_type: InteractionType::LikeDoor,
        })
    }));
    assert!(refused(|s| {
        s.inventory.push(Inventory { id: 6, owner: user(1), decor_key: String::new() })
    }));
    assert!(refused(|s| s.packages.push(Package { id: 2, door_id: 2 })));
    assert!(refused(|s| {
        s.package_items.push(PackageItem { id: 5, package_id: 1, decor_key: String::new() })
    }));
}

#[test]
fn a_snapshot_with_an_id_that_the_counter_has_not_reached_is_refused() {
    assert!(refused(|s| s.next_door_id = 4));
    assert!(refused(|s| s.next_decor_id = 9));
    assert!(refused(|s| s.next_interaction_id = 1));
    assert!(refused(|s| s.next_inventory_id = 6));
    assert!(refused(|s| s.next_package_id = 2));
    assert!(refused(|s| s.next_package_item_id = 5));
    assert!(refused(|s| s.visits.push(DoorVisit { visitor: user(2), door_id: 5 })));
    assert!(refused(|s| {
        s.package_items.push(PackageItem { id: 1, package_id: 3, decor_key: String::new() })
    }));
    // At the counter's edge all is well.
    assert!(!refused(|s| s.visits.push(DoorVisit { visitor: user(2), door_id: 3 })));
    assert!(!refused(|s| {
        s.package_items.push(PackageItem { id: 1, package_id: 1, decor_key: String::new() })
    }));
    assert!(!refused(|s| s.next_door_id = u64::MAX));
}

#[test]
fn a_snapshot_with_a_grief_counter_at_the_threshold_is_refused() {
    assert!(refused(|s| s.users[0].owned_items_deleted = 3));
    assert!(refused(|s| s.users[2].owned_items_deleted = 255));
    assert!(!refused(|s| s.users[0].owned_items_deleted = 2));
}

#[test]
fn the_checks_of_a_snapshot_one_by_one() {
    let s = full();
    assert!(users_are_ok(&s.users));
    assert!(users_are_ok(&Vec::new()));
    assert!(!users_are_ok(&vec![known(user(1), 0), known(user(2), 0), known(user(1), 1)]));
    assert!(!users_are_ok(&vec![known(user(1), 0), known(user(2), 3)]));
    // The two halves of an identity both count.
    assert!(users_are_ok(&vec![known(UserId { hi: 0, lo: 1 }, 0), known(UserId { hi: 1, lo: 0 }, 0)]));

    assert!(is_well_numbered(&s.doors, 5));
    assert!(!is_well_numbered(&s.doors, 4));
    assert!(is_well_numbered(&s.decors, 10));
    assert!(!is_well_numbered(&vec![decor(1), decor(2), decor(1)], 10));
    assert!(!is_well_numbered(&s.packages, 0));
    assert!(is_well_numbered(&Vec::<Package>::new(), 0));

    assert!(visits_are_ok(&s.visits, 5));
    assert!(!visits_are_ok(&s.visits, 4));
    assert!(visits_are_ok(&Vec::new(), 0));
    assert!(items_are_packed(&s.package_items, 3));
    assert!(!items_are_packed(&s.package_items, 2));
}

#[test]
fn lookups_find_what_is_there() {
    let world = World::from_snapshot(full()).expect("well formed");
    assert_eq!(world.find_user(user(2)), Some(1));
    assert_eq!(world.find_user(UserId { hi: 1, lo: 1 }), Some(2));
    assert_eq!(world.find_user(UserId { hi: 1, lo: 2 }), None);
    assert_eq!(world.find_decor(3), Some(1));
    assert_eq!(world.find_decor(4), None);
    assert_eq!(world.find_inventory(6), Some(0));
    assert_eq!(world.find_inventory(1), None);
    assert_eq!(world.find_package(2), Some(0));
    assert_eq!(world.find_package(4), None);
    assert_eq!(world.find_occupied_door(user(2)), Some(0));
    assert_eq!(world.find_occupied_door(user(1)), None);

    assert_eq!(get_user(&world, user(2)), Ok(known(user(2), 2)));
    assert_eq!(get_user(&world, user(3)), Err(Error::NotFound(Entity::User)));
}
