use moderated_records::admin::{
    check_if_agent_is_administrator, check_if_entity_is_administrator, register_administrator,
    remove_administrator,
};
use moderated_records::entity::create_user;
use moderated_records::errors::Error;
use moderated_records::moderation::{
    check_if_entity_is_accepted, create_status, get_accepted_entities,
    get_all_revisions_for_status, get_latest_status_for_entity, suspend_entity_indefinitely,
    suspend_entity_temporarily, unsuspend_entity, unsuspend_entity_if_time_passed,
    update_entity_status,
};
use moderated_records::profile::User;
use moderated_records::status::Status;
use moderated_records::store::{IndexTag, Node, Payload, Store};
use moderated_records::types::{EntityKind, MICROS_PER_DAY, MICROS_PER_HOUR};

const T0: i64 = 1_700_000_000_000_000;
const ADMIN: u64 = 1;
const ALICE: u64 = 10;

fn user_named(name: &str, email: &str) -> User {
    User {
        name: name.to_string(),
        nickname: name.to_string(),
        bio: String::new(),
        picture: None,
        user_type: "advocate".to_string(),
        skills: vec![],
        email: email.to_string(),
        phone: None,
        time_zone: "UTC".to_string(),
        location: "New York".to_string(),
    }
}

/// A store with one administrator of both kinds and one plain user.
fn setup() -> (Store, usize, usize) {
    let mut s = Store::new();
    let admin_uid = create_user(&mut s, user_named("Root", "root@example.com"), ADMIN, T0)
        .unwrap();
    register_administrator(&mut s, EntityKind::User, admin_uid, &vec![ADMIN], T0).unwrap();
    register_administrator(&mut s, EntityKind::Organization, admin_uid, &vec![ADMIN], T0)
        .unwrap();
    let alice_uid = create_user(&mut s, user_named("Alice", "alice@example.com"), ALICE, T0 + 1)
        .unwrap();
    (s, admin_uid, alice_uid)
}

#[test]
fn created_status_is_pending() {
    let (s, _, alice) = setup();
    let st = get_latest_status_for_entity(&s, alice).unwrap();
    assert_eq!(st, Some(&Status::Pending));
    assert!(!check_if_entity_is_accepted(&s, EntityKind::User, alice));
}

#[test]
fn accepting_lists_and_rejecting_unlists() {
    let (mut s, _, alice) = setup();

    update_entity_status(&mut s, EntityKind::User, alice, Status::Accepted, ADMIN, T0 + 2)
        .unwrap();
    assert_eq!(
        get_latest_status_for_entity(&s, alice).unwrap(),
        Some(&Status::Accepted)
    );
    assert!(check_if_entity_is_accepted(&s, EntityKind::User, alice));
    assert!(get_accepted_entities(&s, EntityKind::User).contains(&Node::Record(alice)));

    update_entity_status(&mut s, EntityKind::User, alice, Status::Rejected, ADMIN, T0 + 3)
        .unwrap();
    assert_eq!(
        get_latest_status_for_entity(&s, alice).unwrap(),
        Some(&Status::Rejected)
    );
    assert!(!check_if_entity_is_accepted(&s, EntityKind::User, alice));
    assert!(!get_accepted_entities(&s, EntityKind::User).contains(&Node::Record(alice)));
}

#[test]
fn only_administrators_set_statuses() {
    let (mut s, _, alice) = setup();
    let err = update_entity_status(&mut s, EntityKind::User, alice, Status::Accepted, ALICE, T0 + 2)
        .unwrap_err();
    assert!(matches!(err, Error::PermissionDenied(_)));
}

#[test]
fn removing_the_sole_administrator_fails() {
    let (mut s, admin_uid, alice) = setup();

    let err = remove_administrator(&mut s, EntityKind::User, admin_uid, &vec![ADMIN], ADMIN, T0 + 2)
        .unwrap_err();
    assert!(matches!(err, Error::InvariantViolation(_)));
    assert!(check_if_entity_is_administrator(&s, EntityKind::User, admin_uid));

    register_administrator(&mut s, EntityKind::User, alice, &vec![ALICE], T0 + 3).unwrap();
    remove_administrator(&mut s, EntityKind::User, admin_uid, &vec![ADMIN], ADMIN, T0 + 4)
        .unwrap();
    assert!(!check_if_entity_is_administrator(&s, EntityKind::User, admin_uid));
    assert!(check_if_entity_is_administrator(&s, EntityKind::User, alice));
    assert!(check_if_agent_is_administrator(&s, EntityKind::User, ALICE));
}

#[test]
fn duplicate_administrator_registration_fails() {
    let (mut s, admin_uid, _) = setup();
    let err = register_administrator(&mut s, EntityKind::User, admin_uid, &vec![ADMIN], T0 + 2)
        .unwrap_err();
    assert!(matches!(err, Error::InvariantViolation(_)));
}

#[test]
fn suspension_expires_within_the_grace_window() {
    let (mut s, _, alice) = setup();
    let t = T0 + 10;
    suspend_entity_temporarily(
        &mut s,
        EntityKind::User,
        alice,
        "late fees",
        Some(7),
        ADMIN,
        t,
    )
    .unwrap();
    let until = t + 7 * MICROS_PER_DAY;
    assert_eq!(
        get_latest_status_for_entity(&s, alice).unwrap(),
        Some(&Status::SuspendedTemporarily { reason: "late fees".to_string(), until })
    );

    // right away: seven days are left, nothing expires
    assert_eq!(
        unsuspend_entity_if_time_passed(&mut s, EntityKind::User, alice, ADMIN, t + 1).unwrap(),
        false
    );
    assert_eq!(
        get_latest_status_for_entity(&s, alice).unwrap(),
        Some(&Status::SuspendedTemporarily { reason: "late fees".to_string(), until })
    );

    // half an hour before the end: the grace window lifts it early
    let late = until - MICROS_PER_HOUR / 2;
    assert_eq!(
        unsuspend_entity_if_time_passed(&mut s, EntityKind::User, alice, ADMIN, late).unwrap(),
        true
    );
    assert_eq!(
        get_latest_status_for_entity(&s, alice).unwrap(),
        Some(&Status::Accepted)
    );
    assert!(check_if_entity_is_accepted(&s, EntityKind::User, alice));
}

#[test]
fn temporary_suspension_needs_a_duration() {
    let (mut s, _, alice) = setup();
    let err = suspend_entity_temporarily(
        &mut s,
        EntityKind::User,
        alice,
        "late fees",
        None,
        ADMIN,
        T0 + 2,
    )
    .unwrap_err();
    assert!(matches!(err, Error::PreconditionFailed(_)));
}

#[test]
fn unsuspending_restores_acceptance() {
    let (mut s, _, alice) = setup();
    suspend_entity_temporarily(
        &mut s,
        EntityKind::User,
        alice,
        "late fees",
        Some(7),
        ADMIN,
        T0 + 2,
    )
    .unwrap();
    assert!(!check_if_entity_is_accepted(&s, EntityKind::User, alice));
    unsuspend_entity(&mut s, EntityKind::User, alice, ADMIN, T0 + 3).unwrap();
    assert_eq!(
        get_latest_status_for_entity(&s, alice).unwrap(),
        Some(&Status::Accepted)
    );
    assert!(check_if_entity_is_accepted(&s, EntityKind::User, alice));
}

#[test]
fn a_second_status_chain_is_refused() {
    let (mut s, _, alice) = setup();
    let err = create_status(&mut s, EntityKind::User, alice, ADMIN, T0 + 2).unwrap_err();
    assert!(matches!(err, Error::InvariantViolation(_)));
}

#[test]
fn a_status_link_to_a_non_status_record_is_malformed() {
    let mut broken = Store::new();
    let uid = create_user(&mut broken, user_named("Mallory", "m@example.com"), 99, T0).unwrap();
    // replace the status link with a hand-written one pointing at the user
    // record itself
    broken.delete_from(Node::Record(uid), IndexTag::EntityStatus);
    broken.put_entry(Node::Record(uid), Node::Record(uid), IndexTag::EntityStatus, T0 + 1);
    let err = get_latest_status_for_entity(&broken, uid).unwrap_err();
    assert!(matches!(err, Error::MalformedState(_)));
}

#[test]
fn an_entity_without_a_status_reads_as_empty() {
    // a store with no status chain at all: an empty result, not a failure
    let plain = Store::new();
    let absent = get_latest_status_for_entity(&plain, 7);
    assert!(matches!(absent, Ok(None)));
}

#[test]
fn status_revisions_accumulate() {
    let (mut s, _, alice) = setup();
    update_entity_status(&mut s, EntityKind::User, alice, Status::Accepted, ADMIN, T0 + 2)
        .unwrap();
    update_entity_status(&mut s, EntityKind::User, alice, Status::Rejected, ADMIN, T0 + 3)
        .unwrap();
    // the status chain of alice starts right after her own record
    let status_orig = alice + 1;
    let revisions = get_all_revisions_for_status(&s, status_orig);
    assert_eq!(revisions.len(), 3);
    assert!(matches!(&revisions[0].payload, Payload::Status(Status::Pending)));
    assert!(matches!(&revisions[2].payload, Payload::Status(Status::Rejected)));
}

#[test]
fn only_administrators_list_all_users() {
    let (s, _, alice) = setup();
    let listing = moderated_records::entity::get_all_users(&s, ADMIN).unwrap();
    assert!(listing.contains(&Node::Record(alice)));
    assert!(matches!(
        moderated_records::entity::get_all_users(&s, ALICE),
        Err(Error::PermissionDenied(_))
    ));
}

#[test]
fn expiry_check_leaves_unexpired_statuses_alone() {
    let (mut s, _, alice) = setup();

    // a pending status: nothing to expire
    assert_eq!(
        unsuspend_entity_if_time_passed(&mut s, EntityKind::User, alice, ADMIN, T0 + 2).unwrap(),
        false
    );
    assert_eq!(
        get_latest_status_for_entity(&s, alice).unwrap(),
        Some(&Status::Pending)
    );

    // an indefinite suspension never expires
    suspend_entity_indefinitely(&mut s, EntityKind::User, alice, "test", ADMIN, T0 + 3).unwrap();
    assert_eq!(
        unsuspend_entity_if_time_passed(&mut s, EntityKind::User, alice, ADMIN, T0 + 4).unwrap(),
        false
    );
    assert_eq!(
        get_latest_status_for_entity(&s, alice).unwrap(),
        Some(&Status::SuspendedIndefinitely { reason: "test".to_string() })
    );
}
