use moderated_records::entity::{
    create_user, get_agent_user, get_all_users, get_latest_user, get_user_agents, update_user,
};
use moderated_records::errors::Error;
use moderated_records::profile::User;
use moderated_records::resolve::{get_all_revisions_for_entry, get_latest_record};
use moderated_records::store::{Node, Payload, Store};

const T0: i64 = 1_700_000_000_000_000;
const ALICE: u64 = 10;
const BOB: u64 = 20;

fn user_named(name: &str) -> User {
    User {
        name: name.to_string(),
        nickname: name.to_string(),
        bio: String::new(),
        picture: None,
        user_type: "creator".to_string(),
        skills: vec!["Rust".to_string()],
        email: format!("{}@example.com", name.to_lowercase()),
        phone: None,
        time_zone: "UTC".to_string(),
        location: "Lisbon".to_string(),
    }
}

#[test]
fn create_then_latest_round_trips() {
    let mut s = Store::new();
    let uid = create_user(&mut s, user_named("Alice"), ALICE, T0).unwrap();
    let read = get_latest_user(&s, uid).unwrap();
    assert_eq!(read, &user_named("Alice"));
    assert_eq!(get_agent_user(&s, ALICE), Some(Node::Record(uid)));
    // the full listing is reserved to administrators
    assert!(matches!(
        get_all_users(&s, ALICE),
        Err(Error::PermissionDenied(_))
    ));
}

#[test]
fn latest_follows_the_greatest_timestamp() {
    let mut s = Store::new();
    let uid = create_user(&mut s, user_named("Alice"), ALICE, T0).unwrap();
    update_user(&mut s, uid, user_named("Alice2"), ALICE, T0 + 10).unwrap();
    assert_eq!(get_latest_user(&s, uid).unwrap(), &user_named("Alice2"));

    // an out-of-order revision, stamped before the current latest, does
    // not win
    update_user(&mut s, uid, user_named("Stale"), ALICE, T0 + 5).unwrap();
    assert_eq!(get_latest_user(&s, uid).unwrap(), &user_named("Alice2"));

    // a tie on the timestamp goes to the revision that arrived last
    update_user(&mut s, uid, user_named("Tied"), ALICE, T0 + 10).unwrap();
    assert_eq!(get_latest_user(&s, uid).unwrap(), &user_named("Tied"));
}

#[test]
fn only_the_author_updates_a_profile() {
    let mut s = Store::new();
    let uid = create_user(&mut s, user_named("Alice"), ALICE, T0).unwrap();
    let err = update_user(&mut s, uid, user_named("Mallory"), BOB, T0 + 1).unwrap_err();
    assert!(matches!(err, Error::PermissionDenied(_)));
    assert_eq!(get_latest_user(&s, uid).unwrap(), &user_named("Alice"));
}

#[test]
fn a_second_profile_is_refused() {
    let mut s = Store::new();
    create_user(&mut s, user_named("Alice"), ALICE, T0).unwrap();
    let err = create_user(&mut s, user_named("Alias"), ALICE, T0 + 1).unwrap_err();
    assert!(matches!(err, Error::PreconditionFailed(_)));
}

#[test]
fn missing_records_surface_not_found() {
    let s = Store::new();
    let err = get_latest_user(&s, 3).unwrap_err();
    assert!(matches!(err, Error::NotFound(_)));
    let err = get_latest_record(&s, 3).unwrap_err();
    assert!(matches!(err, Error::NotFound(_)));
}

#[test]
fn resolved_records_carry_their_payload() {
    let mut s = Store::new();
    let uid = create_user(&mut s, user_named("Alice"), ALICE, T0).unwrap();
    let rec = get_latest_record(&s, uid).unwrap();
    assert_eq!(rec.author, ALICE);
    assert!(matches!(&rec.payload, Payload::User(u) if u.name == "Alice"));
}

#[test]
fn user_agents_are_listed() {
    let mut s = Store::new();
    let uid = create_user(&mut s, user_named("Alice"), ALICE, T0).unwrap();
    assert_eq!(get_user_agents(&s, uid), vec![Node::Principal(ALICE)]);
    assert!(get_user_agents(&s, uid + 1).is_empty());
}

#[test]
fn revision_listings_hold_every_revision() {
    let mut s = Store::new();
    let uid = create_user(&mut s, user_named("Alice"), ALICE, T0).unwrap();
    update_user(&mut s, uid, user_named("Alice2"), ALICE, T0 + 1).unwrap();
    update_user(&mut s, uid, user_named("Alice3"), ALICE, T0 + 2).unwrap();
    let revisions = get_all_revisions_for_entry(&s, uid);
    assert_eq!(revisions.len(), 3);
    assert!(matches!(&revisions[0].payload, Payload::User(u) if u.name == "Alice"));
    assert!(matches!(&revisions[2].payload, Payload::User(u) if u.name == "Alice3"));
    assert!(get_all_revisions_for_entry(&s, 999).is_empty());
}
