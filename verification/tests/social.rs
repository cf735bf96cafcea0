use door_engine::{
    like_door, Decor, Entity, Error, Interaction, InteractionType, Snapshot, User, UserId, World,
};

fn user(n: u128) -> UserId {
    UserId { hi: 0, lo: n }
}

fn known(id: UserId) -> User {
    User { identity: id, original_door: None, current_door_number: 1, owned_items_deleted: 0 }
}

fn decor(id: u64, owner: UserId, last_modifier: UserId) -> Decor {
    Decor {
        id,
        door_id: 1,
        owner,
        text: None,
        x: 0,
        y: 0,
        rot: 0,
        key: "cat_01".to_string(),
        last_modifier,
        deleted_at: None,
    }
}

fn like(id: u64, actor: UserId, target_user: UserId) -> Interaction {
    Interaction { id, actor, target_user, interaction_type: InteractionType::LikeDoor }
}

/// Users 1, 2 and 3 are known; 8 and 9 are not.
fn liked_things() -> Snapshot {
    let mut s = World::new().into_snapshot();
    s.users = vec![known(user(1)), known(user(2)), known(user(3))];
    s.decors = vec![
        decor(1, user(1), user(1)),
        decor(2, user(1), user(2)),
        decor(3, user(8), user(2)),
        decor(4, user(1), user(9)),
        decor(5, user(8), user(9)),
        decor(6, user(8), user(8)),
    ];
    s.next_decor_id = 7;
    s
}

fn world_of(snapshot: Snapshot) -> World {
    World::from_snapshot(snapshot).expect("the snapshot is well formed")
}

#[test]
fn a_like_reaches_the_owner() {
    let mut world = world_of(liked_things());
    assert_eq!(like_door(&mut world, user(3), 1), Ok(()));
    assert_eq!(world.interactions(), &vec![like(1, user(3), user(1))]);
    // Liking one's own decoration is a like as any other.
    assert_eq!(like_door(&mut world, user(1), 1), Ok(()));
    assert_eq!(world.interactions(), &vec![like(1, user(3), user(1)), like(2, user(1), user(1))]);
}

#[test]
fn a_like_reaches_the_last_modifier_too() {
    let mut world = world_of(liked_things());
    assert_eq!(like_door(&mut world, user(3), 2), Ok(()));
    assert_eq!(world.interactions(), &vec![like(1, user(3), user(1)), like(2, user(3), user(2))]);
}

#[test]
fn a_like_skips_users_who_are_not_known() {
    let mut world = world_of(liked_things());
    assert_eq!(like_door(&mut world, user(3), 3), Ok(()));
    assert_eq!(world.interactions(), &vec![like(1, user(3), user(2))]);
    assert_eq!(like_door(&mut world, user(3), 4), Ok(()));
    assert_eq!(world.interactions(), &vec![like(1, user(3), user(2)), like(2, user(3), user(1))]);
    assert_eq!(like_door(&mut world, user(3), 5), Ok(()));
    assert_eq!(like_door(&mut world, user(3), 6), Ok(()));
    assert_eq!(world.interactions().len(), 2);
}

#[test]
fn a_like_of_nothing_reaches_nobody() {
    let mut world = world_of(liked_things());
    assert_eq!(like_door(&mut world, user(3), 77), Ok(()));
    assert!(world.interactions().is_empty());
}

#[test]
fn a_like_by_an_unknown_caller_is_not_found() {
    let mut world = world_of(liked_things());
    assert_eq!(like_door(&mut world, user(9), 1), Err(Error::NotFound(Entity::User)));
    assert_eq!(like_door(&mut world, user(9), 77), Err(Error::NotFound(Entity::User)));
    assert!(world.interactions().is_empty());
}

#[test]
fn likes_stop_where_the_ledger_counter_is_exhausted() {
    let mut s = liked_things();
    s.next_interaction_id = u64::MAX - 1;
    let mut world = world_of(s);
    assert_eq!(like_door(&mut world, user(3), 2), Err(Error::Internal));
    assert!(world.interactions().is_empty());
    assert_eq!(like_door(&mut world, user(3), 77), Ok(()));
    assert_eq!(like_door(&mut world, user(3), 1), Ok(()));
    assert_eq!(world.interactions(), &vec![like(u64::MAX - 1, user(3), user(1))]);
    assert_eq!(like_door(&mut world, user(3), 1), Err(Error::Internal));
    assert_eq!(like_door(&mut world, user(3), 6), Ok(()));
    assert_eq!(world.interactions().len(), 1);
}

#[test]
fn a_like_changes_nothing_but_the_ledger() {
    let mut world = world_of(liked_things());
    assert_eq!(like_door(&mut world, user(3), 2), Ok(()));
    let after = world.into_snapshot();
    let before = liked_things();
    assert_eq!(after.users, before.users);
    assert_eq!(after.decors, before.decors);
    assert_eq!(after.next_interaction_id, 3);
    assert_eq!(after.next_decor_id, 7);
}

#[test]
fn names_and_messages() {
    assert_eq!(InteractionType::LikeDoor.name(), "LikeDoor");
    assert_eq!(Error::NotFound(Entity::User).message(), "user does not exist");
    assert_eq!(Error::NotFound(Entity::InventoryItem).message(), "inventory item does not exist");
    assert_eq!(Error::NotFound(Entity::Decor).message(), "decor does not exist");
    assert_eq!(Error::NotFound(Entity::Package).message(), "package does not exist");
    assert_eq!(Error::InvalidState.message(), "cannot place decor while not visiting a door");
    assert_eq!(Error::Internal.message(), "the store has run out of numbers");
}
