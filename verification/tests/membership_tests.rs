use moderated_records::admin::register_administrator;
use moderated_records::entity::create_user;
use moderated_records::errors::Error;
use moderated_records::moderation::update_entity_status;
use moderated_records::entity::update_user;
use moderated_records::orgs::{
    add_coordinator_to_organization, add_member_to_organization, create_organization,
    delete_organization, get_latest_organization, get_organization_coordinators,
    get_organization_coordinators_links, get_organization_members,
    get_organization_members_links, get_user_organizations, get_user_organizations_links,
    is_organization_accepted, is_organization_coordinator, is_organization_member,
    leave_organization, remove_organization_coordinator, remove_organization_member,
    update_organization,
};
use moderated_records::profile::{Organization, User};
use moderated_records::status::Status;
use moderated_records::store::{IndexTag, Node, Store};
use moderated_records::types::EntityKind;

const T0: i64 = 1_700_000_000_000_000;
const ADMIN: u64 = 1;
const ALICE: u64 = 10;
const BOB: u64 = 20;
const CAROL: u64 = 30;

fn user_named(name: &str) -> User {
    User {
        name: name.to_string(),
        nickname: name.to_string(),
        bio: String::new(),
        picture: None,
        user_type: "advocate".to_string(),
        skills: vec![],
        email: format!("{}@example.com", name.to_lowercase()),
        phone: None,
        time_zone: "UTC".to_string(),
        location: "New York".to_string(),
    }
}

fn org_named(name: &str) -> Organization {
    Organization {
        name: name.to_string(),
        description: "A community of builders".to_string(),
        logo: None,
        email: "hello@example.com".to_string(),
        urls: vec![],
        location: "New York".to_string(),
    }
}

struct Fixture {
    s: Store,
    alice: usize,
    bob: usize,
    carol: usize,
    org: usize,
}

/// A store with an administrator, three accepted users, and an accepted
/// organization created by Alice (its first member and coordinator).
fn setup() -> Fixture {
    let mut s = Store::new();
    let root = create_user(&mut s, user_named("Root"), ADMIN, T0).unwrap();
    register_administrator(&mut s, EntityKind::User, root, &vec![ADMIN], T0).unwrap();
    register_administrator(&mut s, EntityKind::Organization, root, &vec![ADMIN], T0).unwrap();
    let alice = create_user(&mut s, user_named("Alice"), ALICE, T0 + 1).unwrap();
    let bob = create_user(&mut s, user_named("Bob"), BOB, T0 + 2).unwrap();
    let carol = create_user(&mut s, user_named("Carol"), CAROL, T0 + 3).unwrap();
    for (i, uid) in [alice, bob, carol].into_iter().enumerate() {
        update_entity_status(
            &mut s,
            EntityKind::User,
            uid,
            Status::Accepted,
            ADMIN,
            T0 + 4 + i as i64,
        )
        .unwrap();
    }
    let org = create_organization(&mut s, org_named("Builders"), ALICE, T0 + 10).unwrap();
    update_entity_status(
        &mut s,
        EntityKind::Organization,
        org,
        Status::Accepted,
        ADMIN,
        T0 + 11,
    )
    .unwrap();
    Fixture { s, alice, bob, carol, org }
}

#[test]
fn creator_is_member_and_coordinator() {
    let f = setup();
    assert!(is_organization_member(&f.s, f.org, f.alice));
    assert!(is_organization_coordinator(&f.s, f.org, f.alice));
    assert!(is_organization_accepted(&f.s, f.org));
    let members = get_organization_members_links(&f.s, f.org);
    assert_eq!(members, vec![Node::Record(f.alice)]);
}

#[test]
fn organization_round_trip() {
    let f = setup();
    let read = get_latest_organization(&f.s, f.org).unwrap();
    assert_eq!(read, &org_named("Builders"));
}

#[test]
fn organization_update_resolves_to_the_new_profile() {
    let mut f = setup();
    update_organization(&mut f.s, f.org, org_named("Rebuilt"), ALICE, T0 + 20).unwrap();
    let read = get_latest_organization(&f.s, f.org).unwrap();
    assert_eq!(read, &org_named("Rebuilt"));

    // a non-coordinator cannot update it
    let err = update_organization(&mut f.s, f.org, org_named("Hijack"), BOB, T0 + 21)
        .unwrap_err();
    assert!(matches!(err, Error::PermissionDenied(_)));
}

#[test]
fn members_join_only_through_a_coordinator() {
    let mut f = setup();
    let err =
        add_member_to_organization(&mut f.s, f.org, f.carol, BOB, T0 + 20).unwrap_err();
    assert!(matches!(err, Error::PermissionDenied(_)));

    add_member_to_organization(&mut f.s, f.org, f.bob, ALICE, T0 + 21).unwrap();
    assert!(is_organization_member(&f.s, f.org, f.bob));
    assert!(!is_organization_coordinator(&f.s, f.org, f.bob));
}

#[test]
fn a_pending_organization_cannot_grow() {
    let mut f = setup();
    let org2 = create_organization(&mut f.s, org_named("Pending"), ALICE, T0 + 20).unwrap();
    let err = add_member_to_organization(&mut f.s, org2, f.bob, ALICE, T0 + 21).unwrap_err();
    assert!(matches!(err, Error::InvariantViolation(_)));
}

#[test]
fn membership_requires_both_directions() {
    let mut f = setup();
    add_member_to_organization(&mut f.s, f.org, f.bob, ALICE, T0 + 20).unwrap();
    assert!(is_organization_member(&f.s, f.org, f.bob));

    // tombstone only the reverse half of the pair: the edge no longer reads
    // as membership
    f.s.delete_matching(
        Node::Record(f.bob),
        Node::Record(f.org),
        IndexTag::UserOrganizations,
    );
    assert!(!is_organization_member(&f.s, f.org, f.bob));

    // a dangling one-directional entry alone is no membership either
    f.s.put_entry(
        Node::Record(f.carol),
        Node::Record(f.org),
        IndexTag::UserOrganizations,
        T0 + 21,
    );
    assert!(!is_organization_member(&f.s, f.org, f.carol));
}

#[test]
fn the_last_coordinator_cannot_be_removed() {
    let mut f = setup();
    let err = remove_organization_coordinator(&mut f.s, f.org, f.alice, ALICE, T0 + 20)
        .unwrap_err();
    assert!(matches!(err, Error::InvariantViolation(_)));

    add_coordinator_to_organization(&mut f.s, f.org, f.bob, ALICE, T0 + 21).unwrap();
    assert!(is_organization_coordinator(&f.s, f.org, f.bob));
    assert!(is_organization_member(&f.s, f.org, f.bob));

    remove_organization_coordinator(&mut f.s, f.org, f.alice, ALICE, T0 + 22).unwrap();
    assert!(!is_organization_coordinator(&f.s, f.org, f.alice));
    let coordinators = get_organization_coordinators_links(&f.s, f.org);
    assert_eq!(coordinators, vec![Node::Record(f.bob)]);
}

#[test]
fn coordinators_must_be_demoted_before_removal() {
    let mut f = setup();
    add_coordinator_to_organization(&mut f.s, f.org, f.bob, ALICE, T0 + 20).unwrap();
    let err = remove_organization_member(&mut f.s, f.org, f.bob, ALICE, T0 + 21).unwrap_err();
    assert!(matches!(err, Error::InvariantViolation(_)));

    remove_organization_coordinator(&mut f.s, f.org, f.bob, ALICE, T0 + 22).unwrap();
    remove_organization_member(&mut f.s, f.org, f.bob, ALICE, T0 + 23).unwrap();
    assert!(!is_organization_member(&f.s, f.org, f.bob));
}

#[test]
fn the_last_member_cannot_be_removed() {
    let mut f = setup();
    add_member_to_organization(&mut f.s, f.org, f.bob, ALICE, T0 + 20).unwrap();
    remove_organization_member(&mut f.s, f.org, f.bob, ALICE, T0 + 21).unwrap();
    // alice, the sole remaining member, cannot be removed: she coordinates,
    // and she is the last member besides
    let err = remove_organization_member(&mut f.s, f.org, f.alice, ALICE, T0 + 22).unwrap_err();
    assert!(matches!(err, Error::InvariantViolation(_)));
}

#[test]
fn an_unaccepted_user_cannot_coordinate() {
    let mut f = setup();
    let dave = create_user(&mut f.s, user_named("Dave"), 40, T0 + 20).unwrap();
    let err = add_coordinator_to_organization(&mut f.s, f.org, dave, ALICE, T0 + 21)
        .unwrap_err();
    assert!(matches!(err, Error::InvariantViolation(_)));
}

#[test]
fn the_sole_coordinator_cannot_leave_a_peopled_organization() {
    let mut f = setup();
    add_member_to_organization(&mut f.s, f.org, f.bob, ALICE, T0 + 20).unwrap();
    let err = leave_organization(&mut f.s, f.org, ALICE, T0 + 21).unwrap_err();
    assert!(matches!(err, Error::InvariantViolation(_)));

    add_coordinator_to_organization(&mut f.s, f.org, f.bob, ALICE, T0 + 22).unwrap();
    leave_organization(&mut f.s, f.org, ALICE, T0 + 23).unwrap();
    assert!(!is_organization_member(&f.s, f.org, f.alice));
    assert!(!is_organization_coordinator(&f.s, f.org, f.alice));
    assert!(is_organization_member(&f.s, f.org, f.bob));
}

#[test]
fn the_sole_member_leaving_deletes_the_organization() {
    let mut f = setup();
    leave_organization(&mut f.s, f.org, ALICE, T0 + 20).unwrap();
    assert!(!is_organization_member(&f.s, f.org, f.alice));
    assert!(get_user_organizations_links(&f.s, f.alice).is_empty());
    assert!(!is_organization_accepted(&f.s, f.org));
    assert!(get_latest_organization(&f.s, f.org).is_err());
}

#[test]
fn deleting_an_organization_cascades() {
    let mut f = setup();
    add_member_to_organization(&mut f.s, f.org, f.bob, ALICE, T0 + 20).unwrap();
    add_member_to_organization(&mut f.s, f.org, f.carol, ALICE, T0 + 21).unwrap();
    assert_eq!(get_organization_members_links(&f.s, f.org).len(), 3);

    // a plain member cannot delete the organization
    let err = delete_organization(&mut f.s, f.org, BOB, T0 + 22).unwrap_err();
    assert!(matches!(err, Error::PermissionDenied(_)));

    delete_organization(&mut f.s, f.org, ALICE, T0 + 23).unwrap();
    for uid in [f.alice, f.bob, f.carol] {
        assert!(!is_organization_member(&f.s, f.org, uid));
        assert!(get_user_organizations_links(&f.s, uid).is_empty());
    }
    assert!(get_organization_members_links(&f.s, f.org).is_empty());
    assert!(get_organization_coordinators_links(&f.s, f.org).is_empty());
    assert!(!is_organization_accepted(&f.s, f.org));
    assert!(
        !moderated_records::orgs::get_all_organizations(&f.s).contains(&Node::Record(f.org))
    );
    assert!(get_latest_organization(&f.s, f.org).is_err());
}

#[test]
fn an_organization_needs_an_authoring_user() {
    let mut s = Store::new();
    let err = create_organization(&mut s, org_named("Orphan"), 77, T0).unwrap_err();
    assert!(matches!(err, Error::PreconditionFailed(_)));
}

#[test]
fn member_listings_resolve_to_current_profiles() {
    let mut f = setup();
    add_member_to_organization(&mut f.s, f.org, f.bob, ALICE, T0 + 20).unwrap();
    let members = get_organization_members(&f.s, f.org).unwrap();
    assert_eq!(members.len(), 2);
    assert_eq!(members[0].name, "Alice");
    assert_eq!(members[1].name, "Bob");

    // a member's profile update shows in the listing
    update_user(&mut f.s, f.bob, user_named("Bobby"), BOB, T0 + 21).unwrap();
    let members = get_organization_members(&f.s, f.org).unwrap();
    assert_eq!(members[1].name, "Bobby");

    let coordinators = get_organization_coordinators(&f.s, f.org).unwrap();
    assert_eq!(coordinators.len(), 1);
    assert_eq!(coordinators[0].name, "Alice");

    let orgs = get_user_organizations(&f.s, f.bob).unwrap();
    assert_eq!(orgs.len(), 1);
    assert_eq!(orgs[0].name, "Builders");
}
