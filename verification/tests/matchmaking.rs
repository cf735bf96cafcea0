use door_engine::catalog::DECOR_KEYS;
use door_engine::matchmaker::{candidate_positions, visited_doors};
use door_engine::{
    enter_door, enter_door_with, identity_connected, identity_connected_with, Door, DoorVisit,
    Entity, Error, Package, PackageItem, Snapshot, User, UserId, World,
};
use spacetimedb::rand::rngs::StdRng;
use spacetimedb::rand::SeedableRng;

fn user(n: u128) -> UserId {
    UserId { hi: 0, lo: n }
}

fn keys(names: &[&str]) -> Vec<String> {
    names.iter().map(|s| s.to_string()).collect()
}

fn one_package() -> Vec<Vec<String>> {
    vec![keys(&["heart_01", "eye_01", "cac_01"])]
}

fn known(id: UserId) -> User {
    User { identity: id, original_door: None, current_door_number: 1, owned_items_deleted: 0 }
}

fn empty() -> Snapshot {
    World::new().into_snapshot()
}

fn world_of(snapshot: Snapshot) -> World {
    World::from_snapshot(snapshot).expect("the snapshot is well formed")
}

#[test]
fn first_contact_makes_user_door_packages_and_visit() {
    let mut world = World::new();
    let a = user(1);
    let plan = vec![
        keys(&["heart_01", "eye_01", "cac_01"]),
        keys(&["star_01", "paw_01", "cat_01", "leaf_01"]),
    ];
    assert_eq!(identity_connected_with(&mut world, a, plan), Ok(()));

    assert_eq!(
        world.users(),
        &vec![User {
            identity: a,
            original_door: Some(1),
            current_door_number: 1,
            owned_items_deleted: 0
        }]
    );
    assert_eq!(world.doors(), &vec![Door { id: 1, owner: a, current_visitor: Some(a), number: 1 }]);
    assert_eq!(world.visits(), &vec![DoorVisit { visitor: a, door_id: 1 }]);
    assert_eq!(
        world.packages(),
        &vec![Package { id: 1, door_id: 1 }, Package { id: 2, door_id: 1 }]
    );
    let items: Vec<(u64, u64, &str)> =
        world.package_items().iter().map(|i| (i.id, i.package_id, i.decor_key.as_str())).collect();
    assert_eq!(
        items,
        vec![
            (1, 1, "heart_01"),
            (2, 1, "eye_01"),
            (3, 1, "cac_01"),
            (4, 2, "star_01"),
            (5, 2, "paw_01"),
            (6, 2, "cat_01"),
            (7, 2, "leaf_01"),
        ]
    );
}

#[test]
fn second_contact_changes_nothing() {
    let mut rng = StdRng::seed_from_u64(11);
    let mut world = World::new();
    let a = user(1);
    assert_eq!(identity_connected(&mut world, a, &mut rng), Ok(()));
    let before = world.into_snapshot();
    let users = before.users.clone();
    let doors = before.doors.clone();
    let visits = before.visits.clone();
    let packages = before.packages.clone();
    let items = before.package_items.clone();
    let mut world = world_of(before);

    assert_eq!(identity_connected(&mut world, a, &mut rng), Ok(()));
    assert_eq!(identity_connected_with(&mut world, a, one_package()), Ok(()));
    assert_eq!(world.users(), &users);
    assert_eq!(world.doors(), &doors);
    assert_eq!(world.visits(), &visits);
    assert_eq!(world.packages(), &packages);
    assert_eq!(world.package_items(), &items);
}

#[test]
fn first_contact_then_enter_creates_second_door() {
    let mut rng = StdRng::seed_from_u64(7);
    let mut world = World::new();
    let a = user(1);

    assert_eq!(identity_connected(&mut world, a, &mut rng), Ok(()));
    assert_eq!(world.doors(), &vec![Door { id: 1, owner: a, current_visitor: Some(a), number: 1 }]);
    let seeded = world.packages().len();
    assert!(seeded == 1 || seeded == 2);
    assert!(world.packages().iter().all(|p| p.door_id == 1));

    assert_eq!(enter_door(&mut world, a, &mut rng), Ok(()));
    assert_eq!(
        world.doors(),
        &vec![
            Door { id: 1, owner: a, current_visitor: None, number: 1 },
            Door { id: 2, owner: a, current_visitor: Some(a), number: 2 },
        ]
    );
    assert_eq!(
        world.visits(),
        &vec![DoorVisit { visitor: a, door_id: 1 }, DoorVisit { visitor: a, door_id: 2 }]
    );
    let fresh = world.packages().iter().filter(|p| p.door_id == 2).count();
    assert!(fresh == 1 || fresh == 2);
    assert_eq!(world.users()[0].current_door_number, 2);
}

#[test]
fn enter_door_of_unknown_caller_is_not_found() {
    let mut rng = StdRng::seed_from_u64(1);
    let mut world = World::new();
    assert_eq!(identity_connected_with(&mut world, user(1), one_package()), Ok(()));

    assert_eq!(enter_door(&mut world, user(9), &mut rng), Err(Error::NotFound(Entity::User)));
    assert_eq!(
        enter_door_with(&mut world, user(9), 0, one_package()),
        Err(Error::NotFound(Entity::User))
    );
    assert_eq!(world.doors().len(), 1);
    assert_eq!(world.visits().len(), 1);
    assert_eq!(world.packages().len(), 1);
}

#[test]
fn enter_takes_a_vacant_door_of_someone_else() {
    let mut world = World::new();
    let a = user(1);
    let b = user(2);
    assert_eq!(identity_connected_with(&mut world, a, one_package()), Ok(()));
    assert_eq!(identity_connected_with(&mut world, b, one_package()), Ok(()));

    // Door 1 is occupied by its owner, so b has no candidate and gets a new door.
    assert_eq!(enter_door_with(&mut world, b, 0, one_package()), Ok(()));
    assert_eq!(
        world.doors(),
        &vec![
            Door { id: 1, owner: a, current_visitor: Some(a), number: 1 },
            Door { id: 2, owner: b, current_visitor: None, number: 1 },
            Door { id: 3, owner: b, current_visitor: Some(b), number: 2 },
        ]
    );

    // Door 2 is vacant, owned by b and new to a: the only candidate. It has a
    // package already, so the plan is left unused.
    let packages_before = world.packages().clone();
    assert_eq!(enter_door_with(&mut world, a, 0, one_package()), Ok(()));
    assert_eq!(
        world.doors(),
        &vec![
            Door { id: 1, owner: a, current_visitor: None, number: 1 },
            Door { id: 2, owner: b, current_visitor: Some(a), number: 1 },
            Door { id: 3, owner: b, current_visitor: Some(b), number: 2 },
        ]
    );
    assert_eq!(world.packages(), &packages_before);
    assert_eq!(
        world.visits(),
        &vec![
            DoorVisit { visitor: a, door_id: 1 },
            DoorVisit { visitor: b, door_id: 2 },
            DoorVisit { visitor: b, door_id: 3 },
            DoorVisit { visitor: a, door_id: 2 },
        ]
    );
    assert_eq!(world.users()[0].current_door_number, 2);
    assert_eq!(world.users()[1].current_door_number, 2);
}

fn three_candidates() -> Snapshot {
    let a = user(1);
    let mut s = empty();
    s.users = vec![known(a), known(user(2)), known(user(3))];
    s.doors = vec![
        Door { id: 1, owner: a, current_visitor: Some(a), number: 1 },
        Door { id: 2, owner: user(2), current_visitor: None, number: 1 },
        Door { id: 3, owner: user(3), current_visitor: Some(user(2)), number: 1 },
        Door { id: 4, owner: user(3), current_visitor: None, number: 2 },
        Door { id: 5, owner: user(2), current_visitor: None, number: 2 },
        Door { id: 6, owner: a, current_visitor: None, number: 2 },
        Door { id: 7, owner: user(2), current_visitor: None, number: 3 },
    ];
    s.visits = vec![DoorVisit { visitor: a, door_id: 1 }, DoorVisit { visitor: a, door_id: 5 }];
    s.packages = vec![Package { id: 1, door_id: 2 }];
    s.next_door_id = 8;
    s.next_package_id = 2;
    s
}

#[test]
fn candidates_are_vacant_foreign_and_unvisited() {
    let s = three_candidates();
    let seen = visited_doors(&s.visits, user(1));
    assert_eq!(seen, vec![1, 5]);
    // Positions of doors 2, 4 and 7: door 1 and 6 are the caller's own, door 3 is
    // occupied by someone else, door 5 was visited.
    assert_eq!(candidate_positions(&s.doors, &seen, user(1)), vec![1, 3, 6]);
}

#[test]
fn pick_counts_round_the_candidates() {
    for (pick, target) in [(0usize, 2u64), (1, 4), (2, 7), (3, 2), (4, 4), (11, 7)] {
        let mut world = world_of(three_candidates());
        assert_eq!(enter_door_with(&mut world, user(1), pick, one_package()), Ok(()));
        let at: Vec<u64> = world
            .doors()
            .iter()
            .filter(|d| d.current_visitor == Some(user(1)))
            .map(|d| d.id)
            .collect();
        assert_eq!(at, vec![target]);
        assert_eq!(world.visits().last(), Some(&DoorVisit { visitor: user(1), door_id: target }));
        assert_eq!(world.users()[0].current_door_number, 3);
        assert_eq!(world.doors().len(), 7);
    }
}

#[test]
fn a_candidate_without_packages_is_seeded_and_one_with_packages_is_not() {
    let mut world = world_of(three_candidates());
    assert_eq!(enter_door_with(&mut world, user(1), 0, one_package()), Ok(()));
    assert_eq!(world.packages(), &vec![Package { id: 1, door_id: 2 }]);
    assert!(world.package_items().is_empty());

    let mut world = world_of(three_candidates());
    assert_eq!(enter_door_with(&mut world, user(1), 1, one_package()), Ok(()));
    assert_eq!(world.packages(), &vec![Package { id: 1, door_id: 2 }, Package { id: 2, door_id: 4 }]);
    assert_eq!(
        world.package_items(),
        &vec![
            PackageItem { id: 1, package_id: 2, decor_key: "heart_01".to_string() },
            PackageItem { id: 2, package_id: 2, decor_key: "eye_01".to_string() },
            PackageItem { id: 3, package_id: 2, decor_key: "cac_01".to_string() },
        ]
    );
}

#[test]
fn enter_leaves_every_door_that_the_caller_occupied() {
    let a = user(1);
    let mut s = empty();
    s.users = vec![known(a), known(user(2))];
    s.doors = vec![
        Door { id: 1, owner: a, current_visitor: Some(a), number: 1 },
        Door { id: 2, owner: user(2), current_visitor: Some(a), number: 1 },
        Door { id: 3, owner: user(2), current_visitor: Some(a), number: 2 },
        Door { id: 4, owner: user(2), current_visitor: Some(user(2)), number: 3 },
    ];
    s.visits = vec![DoorVisit { visitor: a, door_id: 1 }, DoorVisit { visitor: a, door_id: 2 }];
    s.next_door_id = 5;
    let mut world = world_of(s);

    // Door 3 is the only candidate: a leaves it and enters it again, this time
    // with a visit on record.
    assert_eq!(enter_door_with(&mut world, a, 0, one_package()), Ok(()));
    assert_eq!(
        world.doors(),
        &vec![
            Door { id: 1, owner: a, current_visitor: None, number: 1 },
            Door { id: 2, owner: user(2), current_visitor: None, number: 1 },
            Door { id: 3, owner: user(2), current_visitor: Some(a), number: 2 },
            Door { id: 4, owner: user(2), current_visitor: Some(user(2)), number: 3 },
        ]
    );
    assert_eq!(world.visits().last(), Some(&DoorVisit { visitor: a, door_id: 3 }));
    assert_eq!(world.users()[0].current_door_number, 3);
}

fn no_candidate() -> Snapshot {
    let a = user(1);
    let mut s = empty();
    s.users = vec![known(a), known(user(2))];
    s.doors = vec![
        Door { id: 1, owner: a, current_visitor: Some(a), number: 1 },
        Door { id: 2, owner: user(2), current_visitor: Some(user(2)), number: 1 },
        Door { id: 3, owner: user(2), current_visitor: None, number: 2 },
    ];
    s.visits = vec![
        DoorVisit { visitor: a, door_id: 1 },
        DoorVisit { visitor: a, door_id: 3 },
        DoorVisit { visitor: a, door_id: 3 },
    ];
    s.next_door_id = 4;
    s
}

#[test]
fn without_a_candidate_a_new_door_is_made() {
    for pick in [0usize, 1, 99] {
        let mut world = world_of(no_candidate());
        assert_eq!(enter_door_with(&mut world, user(1), pick, one_package()), Ok(()));
        // Two doors visited before, whatever the number of visits: the new door is the third.
        assert_eq!(
            world.doors().last(),
            Some(&Door { id: 4, owner: user(1), current_visitor: Some(user(1)), number: 3 })
        );
        assert_eq!(world.doors().len(), 4);
        assert_eq!(world.doors()[0].current_visitor, None);
        assert_eq!(world.packages(), &vec![Package { id: 1, door_id: 4 }]);
        assert_eq!(world.visits().last(), Some(&DoorVisit { visitor: user(1), door_id: 4 }));
        assert_eq!(world.users()[0].current_door_number, 3);
    }
}

fn visited_many(count: u64) -> Snapshot {
    let a = user(1);
    let mut s = empty();
    s.users = vec![known(a)];
    s.visits = (1..=count).map(|d| DoorVisit { visitor: a, door_id: d }).collect();
    s.next_door_id = 1000;
    s
}

#[test]
fn the_last_visit_number_is_255() {
    let mut world = world_of(visited_many(254));
    assert_eq!(enter_door_with(&mut world, user(1), 0, one_package()), Ok(()));
    assert_eq!(world.users()[0].current_door_number, 255);
    assert_eq!(
        world.doors(),
        &vec![Door { id: 1000, owner: user(1), current_visitor: Some(user(1)), number: 255 }]
    );

    // 255 doors visited now: the next number does not fit.
    let mut rng = StdRng::seed_from_u64(3);
    assert_eq!(enter_door_with(&mut world, user(1), 0, one_package()), Err(Error::Internal));
    assert_eq!(enter_door(&mut world, user(1), &mut rng), Err(Error::Internal));
    assert_eq!(world.doors().len(), 1);
    assert_eq!(world.visits().len(), 255);
    assert_eq!(world.users()[0].current_door_number, 255);
}

#[test]
fn an_exhausted_door_counter_stops_a_new_door() {
    let a = user(1);
    let mut s = empty();
    s.users = vec![known(a)];
    s.doors = vec![Door { id: 5, owner: a, current_visitor: Some(a), number: 1 }];
    s.next_door_id = u64::MAX;
    let mut world = world_of(s);
    let mut rng = StdRng::seed_from_u64(3);

    assert_eq!(enter_door_with(&mut world, a, 0, one_package()), Err(Error::Internal));
    assert_eq!(enter_door(&mut world, a, &mut rng), Err(Error::Internal));
    assert_eq!(identity_connected_with(&mut world, user(2), one_package()), Err(Error::Internal));
    assert_eq!(identity_connected(&mut world, user(2), &mut rng), Err(Error::Internal));
    // Nothing was changed, not even the caller's place.
    assert_eq!(world.doors(), &vec![Door { id: 5, owner: a, current_visitor: Some(a), number: 1 }]);
    assert_eq!(world.users().len(), 1);
    assert!(world.visits().is_empty());
    assert!(world.packages().is_empty());
}

#[test]
fn packages_that_cannot_be_numbered_stop_the_entry() {
    let a = user(1);
    let mut s = empty();
    s.users = vec![known(a)];
    s.doors = vec![Door { id: 1, owner: a, current_visitor: Some(a), number: 1 }];
    s.next_door_id = 2;
    s.next_package_item_id = u64::MAX - 2;
    let mut world = world_of(s);

    assert_eq!(enter_door_with(&mut world, a, 0, one_package()), Err(Error::Internal));
    assert_eq!(world.doors(), &vec![Door { id: 1, owner: a, current_visitor: Some(a), number: 1 }]);

    // Two keys still fit.
    assert_eq!(enter_door_with(&mut world, a, 0, vec![keys(&["heart_01", "eye_01"])]), Ok(()));
    assert_eq!(world.package_items().len(), 2);
    assert_eq!(world.package_items()[1].id, u64::MAX - 1);
}

#[test]
fn entering_never_repeats_a_door_and_never_shares_one() {
    for seed in 0..40u64 {
        let mut rng = StdRng::seed_from_u64(seed);
        let mut world = World::new();
        let people = [user(1), user(2), user(3), user(4)];
        for p in people {
            assert_eq!(identity_connected(&mut world, p, &mut rng), Ok(()));
        }
        for step in 0..60usize {
            let who = people[(step * 7 + seed as usize) % people.len()];
            let before = visited_doors(world.visits(), who);
            let doors_before = world.doors().clone();
            assert_eq!(enter_door(&mut world, who, &mut rng), Ok(()));

            let after = visited_doors(world.visits(), who);
            let entered = world.visits().last().unwrap().door_id;
            assert_eq!(world.visits().last().unwrap().visitor, who);
            assert!(!before.contains(&entered));
            assert_eq!(after.len(), before.len() + 1);
            match doors_before.iter().find(|d| d.id == entered) {
                Some(old) => {
                    assert_ne!(old.owner, who);
                    assert!(old.current_visitor.is_none() || old.current_visitor == Some(who));
                },
                None => {
                    let made = world.doors().last().unwrap();
                    assert_eq!((made.id, made.owner), (entered, who));
                },
            }
            let me = world.users().iter().find(|u| u.identity == who).unwrap();
            assert_eq!(me.current_door_number as usize, before.len() + 1);

            // Every user is at exactly one door, and every door id stands once.
            for p in people {
                let at = world.doors().iter().filter(|d| d.current_visitor == Some(p)).count();
                assert_eq!(at, 1);
            }
            for (i, d) in world.doors().iter().enumerate() {
                assert!(world.doors()[..i].iter().all(|e| e.id != d.id));
            }
        }
    }
}

#[test]
fn the_draws_for_a_door_stay_in_their_ranges_and_vary() {
    let mut package_counts = [0usize; 3];
    let mut item_counts = [0usize; 6];
    let mut seen_keys: Vec<String> = Vec::new();
    for seed in 0..200u64 {
        let mut rng = StdRng::seed_from_u64(seed);
        let mut world = World::new();
        assert_eq!(identity_connected(&mut world, user(1), &mut rng), Ok(()));
        let packages = world.packages().len();
        assert!(packages == 1 || packages == 2);
        package_counts[packages] += 1;
        for p in world.packages() {
            let items = world.package_items().iter().filter(|i| i.package_id == p.id).count();
            assert!((3..=5).contains(&items));
            item_counts[items] += 1;
        }
        for item in world.package_items() {
            assert!(DECOR_KEYS.contains(&item.decor_key.as_str()));
            if !seen_keys.contains(&item.decor_key) {
                seen_keys.push(item.decor_key.clone());
            }
        }
    }
    assert!(package_counts[1] > 0 && package_counts[2] > 0);
    assert!(item_counts[3] > 0 && item_counts[4] > 0 && item_counts[5] > 0);
    assert_eq!(seen_keys.len(), DECOR_KEYS.len());
}

#[test]
fn the_choice_among_candidates_varies_and_is_always_a_candidate() {
    let mut chosen = [0usize; 8];
    for seed in 0..200u64 {
        let mut rng = StdRng::seed_from_u64(seed);
        let mut world = world_of(three_candidates());
        assert_eq!(enter_door(&mut world, user(1), &mut rng), Ok(()));
        let entered = world.visits().last().unwrap().door_id;
        assert!(entered == 2 || entered == 4 || entered == 7);
        chosen[entered as usize] += 1;
        assert_eq!(world.doors().len(), 7);
    }
    assert!(chosen[2] > 0 && chosen[4] > 0 && chosen[7] > 0);
}
