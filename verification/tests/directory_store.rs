//! Tests of the identity store, the group directory and the end-to-end
//! register → create → decode scenario.

use ferrischat::directory::ResolutionError;
use ferrischat::directory::create_group;
use ferrischat::directory::find_groups;
use ferrischat::directory::resolve;
use ferrischat::directory::select_by_owner;
use ferrischat::key::hash_password;
use ferrischat::key::verify_password;
use ferrischat::menu::Register;
use ferrischat::peer::PeerId;
use ferrischat::store::Store;
use ferrischat::store::StoreError;
use ferrischat::ticket::Ticket;
use ferrischat::user::AuthOutcome;
use ferrischat::user::AuthStep;
use ferrischat::user::auth_step;
use ferrischat::user::authenticate;
use ferrischat::user::create_user;

fn pid(fill: u8) -> PeerId {
    PeerId::new(vec![fill; 32])
}

#[test]
fn register_sets_fields_and_secret_key() {
    let mut store = Store::new();
    let u = create_user(&mut store, String::from("Alice"), 5551234, "pw1").unwrap();
    assert_eq!(u.name, "Alice");
    assert_eq!(u.phone_no, 5551234);
    assert!(!u.admin);
    assert_eq!(u.secret_key.len(), 32);
    assert_ne!(u.password, "pw1");
}

#[test]
fn duplicate_phone_number_is_rejected() {
    let mut store = Store::new();
    create_user(&mut store, String::from("Alice"), 5551234, "pw1").unwrap();
    let r = create_user(&mut store, String::from("Mallory"), 5551234, "pw2");
    assert!(matches!(r, Err(StoreError::PhoneTaken)));
    assert_eq!(store.users.len(), 1);
}

#[test]
fn duplicate_ticket_is_rejected() {
    let mut store = Store::new();
    let alice = create_user(&mut store, String::from("Alice"), 1, "pw").unwrap();
    let token = String::from("sometoken");
    store.insert_group(String::from("a"), token.clone(), alice.id).unwrap();
    let r = store.insert_group(String::from("b"), token, alice.id);
    assert!(matches!(r, Err(StoreError::TicketTaken)));
    assert_eq!(store.groups.len(), 1);
}

#[test]
fn group_owner_must_exist() {
    let mut store = Store::new();
    let r = store.insert_group(String::from("team"), String::from("tok"), 42);
    assert!(matches!(r, Err(StoreError::NoSuchOwner)));
    let r2 = create_group(&mut store, String::from("team"), 42, &pid(1));
    assert!(matches!(r2, Err(StoreError::NoSuchOwner)));
}

#[test]
fn authenticate_outcomes() {
    let mut store = Store::new();
    create_user(&mut store, String::from("Alice"), 5551234, "pw1").unwrap();
    assert!(matches!(authenticate(&store, 999, "pw1"), Err(AuthOutcome::NoSuchUser)));
    assert!(matches!(authenticate(&store, 5551234, "wrong"), Err(AuthOutcome::BadPassword)));
    let u = authenticate(&store, 5551234, "pw1").unwrap();
    assert_eq!(u.name, "Alice");
}

#[test]
fn password_hash_verifies_only_its_password() {
    let h = hash_password("secret").unwrap();
    assert!(verify_password(h.as_str(), "secret"));
    assert!(!verify_password(h.as_str(), "Secret"));
    assert!(!verify_password("not a hash", "secret"));
}

#[test]
fn auth_step_decisions() {
    assert_eq!(auth_step(true, &Register::Retry), AuthStep::Verified);
    assert_eq!(auth_step(false, &Register::Retry), AuthStep::AwaitPassword);
    assert_eq!(auth_step(false, &Register::Register), AuthStep::FallbackToRegister);
}

#[test]
fn group_disambiguation_by_owner() {
    let mut store = Store::new();
    let alice = create_user(&mut store, String::from("alice"), 1, "a").unwrap();
    let bob = create_user(&mut store, String::from("bob"), 2, "b").unwrap();
    let (_alice_topic, _) = create_group(&mut store, String::from("team"), alice.id, &pid(1))
        .unwrap();
    let (bob_topic, bob_token) = create_group(&mut store, String::from("team"), bob.id, &pid(2))
        .unwrap();

    let rows = find_groups(&store, &String::from("team"));
    assert_eq!(rows.len(), 2);
    assert_eq!(rows[0].owner_name, "alice");
    assert_eq!(rows[1].owner_name, "bob");
    assert_eq!(select_by_owner(&rows, &String::from("bob")), Some(1));
    assert_eq!(select_by_owner(&rows, &String::from("carol")), None);
    assert_eq!(rows[1].ticket, bob_token);

    let topic = resolve(&store, &String::from("team"), Some(&String::from("bob"))).unwrap();
    assert_eq!(topic, bob_topic);
    assert_ne!(topic, _alice_topic);
}

#[test]
fn resolve_error_cases() {
    let mut store = Store::new();
    let alice = create_user(&mut store, String::from("alice"), 1, "a").unwrap();
    let bob = create_user(&mut store, String::from("bob"), 2, "b").unwrap();
    assert!(matches!(
        resolve(&store, &String::from("team"), None),
        Err(ResolutionError::NotFound)
    ));
    create_group(&mut store, String::from("team"), alice.id, &pid(1)).unwrap();
    create_group(&mut store, String::from("team"), bob.id, &pid(2)).unwrap();
    assert!(matches!(
        resolve(&store, &String::from("team"), None),
        Err(ResolutionError::Ambiguous)
    ));
    assert!(matches!(
        resolve(&store, &String::from("team"), Some(&String::from("carol"))),
        Err(ResolutionError::UnknownOwner)
    ));
    store.insert_group(String::from("broken"), String::from("0189"), alice.id).unwrap();
    assert!(matches!(
        resolve(&store, &String::from("broken"), None),
        Err(ResolutionError::Decode(_))
    ));
}

#[test]
fn resolve_single_match_returns_its_topic() {
    let mut store = Store::new();
    let alice = create_user(&mut store, String::from("alice"), 1, "a").unwrap();
    let (topic, _) = create_group(&mut store, String::from("solo"), alice.id, &pid(5)).unwrap();
    // The chosen owner is ignored when the name is unambiguous.
    let got = resolve(&store, &String::from("solo"), None).unwrap();
    assert_eq!(got, topic);
}

#[test]
fn end_to_end_register_create_decode() {
    let mut store = Store::new();
    let alice = create_user(&mut store, String::from("Alice"), 5551234, "pw1").unwrap();
    let me = pid(0x77);
    let (topic, token) = create_group(&mut store, String::from("team"), alice.id, &me).unwrap();
    assert_eq!(topic.len(), 32);

    let t = Ticket::from_token(token.as_str()).unwrap();
    assert_eq!(t.topic, topic);
    assert_eq!(t.endpoints.len(), 1);
    assert_eq!(t.endpoints[0].bytes, me.bytes);

    // A second process decoding the same persisted string recovers the topic.
    let stored = store.groups[0].ticket.clone();
    assert_eq!(stored, token);
    let t2 = Ticket::from_token(stored.as_str()).unwrap();
    assert_eq!(t2.topic, topic);
}

#[test]
fn fresh_topics_differ() {
    let mut store = Store::new();
    let alice = create_user(&mut store, String::from("alice"), 1, "a").unwrap();
    let (t1, tok1) = create_group(&mut store, String::from("g1"), alice.id, &pid(1)).unwrap();
    let (t2, tok2) = create_group(&mut store, String::from("g2"), alice.id, &pid(1)).unwrap();
    assert_ne!(t1, t2);
    assert_ne!(tok1, tok2);
}
