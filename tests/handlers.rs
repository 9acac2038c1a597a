use world_core::database::Database;
use world_core::reducers::{
    client_connected, client_disconnected, create_player, init, send_chat_message,
    update_player_login_state, update_player_position, CONFIG_VERSION,
};
use world_core::tables::{EntityComponent, Identity, ReducerContext, ReducerError, StdbVector3};

fn ctx(lo: u128) -> ReducerContext {
    ReducerContext { sender: Identity { hi: 0xfeed, lo } }
}

fn vec3(x: f32, y: f32, z: f32) -> StdbVector3 {
    StdbVector3 { x: x.to_bits(), y: y.to_bits(), z: z.to_bits() }
}

#[test]
fn alice_and_bob_scenario() {
    let mut db = Database::new();
    let a = ctx(1);
    let b = ctx(2);
    assert_eq!(create_player(&mut db, a, "Alice".to_string()), Ok(1));
    assert_eq!(create_player(&mut db, b, "Bob".to_string()), Ok(2));

    assert_eq!(update_player_position(&mut db, a, vec3(1.0, 2.0, 3.0), 0.5f32.to_bits(), true), Ok(()));
    let e = db.entity_by_id(1).unwrap();
    assert_eq!(e, EntityComponent { entity_id: 1, position: vec3(1.0, 2.0, 3.0), direction: 0.5f32.to_bits(), moving: true });
    assert_eq!(f32::from_bits(e.position.y), 2.0);
    assert_eq!(f32::from_bits(e.direction), 0.5);

    assert_eq!(send_chat_message(&mut db, b, "hi".to_string()), Ok(()));
    let m = db.message_by_id(1).unwrap();
    assert_eq!(m.message_id, 1);
    assert_eq!(m.sender_id, 2);
    assert_eq!(m.text, "hi");

    client_disconnected(&mut db, a);
    let pa = db.player_by_owner(a.sender).unwrap();
    assert_eq!(pa.entity_id, 1);
    assert_eq!(pa.username, "Alice");
    assert!(!pa.logged_in);
    let pb = db.player_by_owner(b.sender).unwrap();
    assert_eq!(pb.entity_id, 2);
    assert!(pb.logged_in);
}

#[test]
fn distinct_identities_get_distinct_keys() {
    let mut db = Database::new();
    for i in 0..10u128 {
        assert_eq!(create_player(&mut db, ctx(100 + i), format!("p{}", i)), Ok(i as u64 + 1));
    }
    assert_eq!(db.player_count(), 10);
    assert_eq!(db.entity_count(), 10);
    let mut keys: Vec<u64> = (0..10u128).map(|i| db.player_by_owner(ctx(100 + i).sender).unwrap().entity_id).collect();
    keys.sort();
    keys.dedup();
    assert_eq!(keys.len(), 10);
}

#[test]
fn second_registration_is_rejected() {
    let mut db = Database::new();
    let a = ctx(7);
    assert_eq!(create_player(&mut db, a, "Alice".to_string()), Ok(1));
    assert_eq!(create_player(&mut db, a, "Mallory".to_string()), Err(ReducerError::AlreadyRegistered));
    assert_eq!(db.player_count(), 1);
    assert_eq!(db.entity_count(), 1);
    assert_eq!(db.player_by_owner(a.sender).unwrap().username, "Alice");
}

#[test]
fn registration_pairs_player_with_default_entity() {
    let mut db = Database::new();
    let a = ctx(3);
    let k = create_player(&mut db, a, "Carol".to_string()).unwrap();
    let p = db.player_by_owner(a.sender).unwrap();
    assert_eq!(p.entity_id, k);
    assert!(p.logged_in);
    assert_eq!(p.owner_id, a.sender);
    let e = db.entity_by_id(k).unwrap();
    assert_eq!(e, EntityComponent { entity_id: k, position: vec3(0.0, 0.0, 0.0), direction: 0.0f32.to_bits(), moving: false });
}

#[test]
fn movement_last_write_wins() {
    let mut db = Database::new();
    let a = ctx(4);
    let k = create_player(&mut db, a, "Dan".to_string()).unwrap();
    assert_eq!(update_player_position(&mut db, a, vec3(1.0, 1.0, 1.0), 1.0f32.to_bits(), true), Ok(()));
    assert_eq!(update_player_position(&mut db, a, vec3(-4.5, 0.25, 8.0), 3.0f32.to_bits(), false), Ok(()));
    let e = db.entity_by_id(k).unwrap();
    assert_eq!(e, EntityComponent { entity_id: k, position: vec3(-4.5, 0.25, 8.0), direction: 3.0f32.to_bits(), moving: false });
    assert_eq!(update_player_position(&mut db, a, vec3(-4.5, 0.25, 8.0), 3.0f32.to_bits(), false), Ok(()));
    assert_eq!(db.entity_by_id(k).unwrap(), e);
}

#[test]
fn unregistered_caller_is_rejected_without_mutation() {
    let mut db = Database::new();
    let a = ctx(5);
    let stranger = ctx(6);
    create_player(&mut db, a, "Eve".to_string()).unwrap();
    let before = db.entity_by_id(1).unwrap();
    assert_eq!(update_player_position(&mut db, stranger, vec3(9.0, 9.0, 9.0), 0, true), Err(ReducerError::NotRegistered));
    assert_eq!(send_chat_message(&mut db, stranger, "boo".to_string()), Err(ReducerError::NotRegistered));
    assert_eq!(db.entity_by_id(1).unwrap(), before);
    assert_eq!(db.entity_count(), 1);
    assert_eq!(db.player_count(), 1);
    assert_eq!(db.message_count(), 0);
    assert!(db.message_by_id(1).is_none());
}

#[test]
fn chat_keys_increase_across_senders() {
    let mut db = Database::new();
    let a = ctx(8);
    let b = ctx(9);
    create_player(&mut db, a, "A".to_string()).unwrap();
    create_player(&mut db, b, "B".to_string()).unwrap();
    let senders = [a, b, b, a, b];
    for (i, s) in senders.iter().enumerate() {
        assert_eq!(send_chat_message(&mut db, *s, format!("m{}", i)), Ok(()));
    }
    assert_eq!(db.message_count(), 5);
    let mut last = 0u64;
    for id in 1..=5u64 {
        let m = db.message_by_id(id).unwrap();
        assert!(m.message_id > last);
        last = m.message_id;
        assert_eq!(m.text, format!("m{}", id - 1));
    }
    assert_eq!(db.message_by_id(2).unwrap().sender_id, 2);
    assert_eq!(db.message_by_id(4).unwrap().sender_id, 1);
}

#[test]
fn login_state_follows_notifications() {
    let mut db = Database::new();
    let a = ctx(10);
    create_player(&mut db, a, "Fay".to_string()).unwrap();
    client_disconnected(&mut db, a);
    assert!(!db.player_by_owner(a.sender).unwrap().logged_in);
    client_connected(&mut db, a);
    assert!(db.player_by_owner(a.sender).unwrap().logged_in);
    client_disconnected(&mut db, a);
    assert!(!db.player_by_owner(a.sender).unwrap().logged_in);
    update_player_login_state(&mut db, a, true);
    assert!(db.player_by_owner(a.sender).unwrap().logged_in);
}

#[test]
fn connect_before_registration_adds_no_row() {
    let mut db = Database::new();
    let a = ctx(11);
    client_connected(&mut db, a);
    client_disconnected(&mut db, a);
    assert_eq!(db.player_count(), 0);
    assert_eq!(db.entity_count(), 0);
    assert!(db.player_by_owner(a.sender).is_none());
    assert_eq!(create_player(&mut db, a, "Gus".to_string()), Ok(1));
}

#[test]
fn init_stores_default_config() {
    let mut db = Database::new();
    assert!(db.config_by_version(CONFIG_VERSION).is_none());
    init(&mut db);
    let c = db.config_by_version(0).unwrap();
    assert_eq!(c.version, 0);
    assert_eq!(c.message_of_the_day, "Hello, World!");
    assert!(db.config_by_version(1).is_none());
}

#[test]
fn identities_differing_in_high_bits_are_distinct() {
    let mut db = Database::new();
    let a = ReducerContext { sender: Identity { hi: 1, lo: 42 } };
    let b = ReducerContext { sender: Identity { hi: 2, lo: 42 } };
    assert_eq!(create_player(&mut db, a, "H1".to_string()), Ok(1));
    assert_eq!(create_player(&mut db, b, "H2".to_string()), Ok(2));
    assert_eq!(db.player_by_owner(b.sender).unwrap().username, "H2");
}
