use vstd::prelude::*;
use vstd::string::StringExecFns;

use crate::entity::{agent_user_id, agent_user_spec, get_agent_user};
use crate::errors::Error;
use crate::moderation::{create_status, is_accepted_spec, latest_status_of};
use crate::profile::Organization;
use crate::resolve::{
    lemma_best_revision_push_latest, lemma_best_revision_push_other,
    lemma_best_revision_upto_props, resolve_latest_id, resolved_id,
};
use crate::status::Status;
use crate::store::{
    entry_matches, has_link, has_link_from, has_other_link, lemma_first_target_push,
    lemma_first_target_some, lemma_link_push, link_targets, stamps_at_most, IndexEntry, IndexTag,
    Node, Payload, Record, Store,
};
use crate::types::{EntityKind, PrincipalId, RecordId, Timestamp};

verus! {

/// Whether `user` is a member of `org`: both directional entries of the
/// membership edge must exist.  A half-created pair, left by a peer that
/// crashed between the two writes, reads as "not a member".
pub open spec fn is_member_spec(s: Store, org: RecordId, user: RecordId) -> bool {
    has_link(s.entries@, Node::Record(org), Node::Record(user), IndexTag::OrganizationMembers)
        && has_link(s.entries@, Node::Record(user), Node::Record(org), IndexTag::UserOrganizations)
}

/// Whether `user` is a coordinator of `org`.
pub open spec fn is_coordinator_spec(s: Store, org: RecordId, user: RecordId) -> bool {
    has_link(s.entries@, Node::Record(org), Node::Record(user), IndexTag::OrganizationCoordinators)
}

/// Whether the principal `agent` holds a user entity that coordinates
/// `org`.
pub open spec fn agent_is_coordinator_spec(s: Store, org: RecordId, agent: PrincipalId) -> bool {
    match agent_user_id(s, agent) {
        Some(uid) => is_coordinator_spec(s, org, uid),
        None => false,
    }
}

/// The organization profile the chain of `orig` currently resolves to.
pub open spec fn latest_organization_of(s: Store, orig: RecordId) -> Option<Organization> {
    match resolved_id(s, orig) {
        Some(id) => match s.records@[id as int].payload {
            Payload::Organization(o) => Some(o),
            Payload::User(_) => None,
            Payload::Status(_) => None,
        },
        None => None,
    }
}

/// Whether `user` is a member of `org`, checking both directions of the
/// membership edge.
pub fn is_organization_member(s: &Store, org: RecordId, user: RecordId) -> (b: bool)
    ensures
        b == is_member_spec(*s, org, user),
{
    let forward = s.contains_link(
        Node::Record(org),
        Node::Record(user),
        IndexTag::OrganizationMembers,
    );
    let reverse = s.contains_link(
        Node::Record(user),
        Node::Record(org),
        IndexTag::UserOrganizations,
    );
    forward && reverse
}

/// Whether `user` is a coordinator of `org`.
pub fn is_organization_coordinator(s: &Store, org: RecordId, user: RecordId) -> (b: bool)
    ensures
        b == is_coordinator_spec(*s, org, user),
{
    s.contains_link(Node::Record(org), Node::Record(user), IndexTag::OrganizationCoordinators)
}

/// Whether the calling principal coordinates `org`.  A principal without
/// a user profile cannot coordinate anything, and is refused.
pub fn check_if_agent_is_organization_coordinator(
    s: &Store,
    org: RecordId,
    caller: PrincipalId,
) -> (r: Result<bool, Error>)
    ensures
        agent_user_spec(*s, caller) is None ==> (r matches Err(e) && e is PreconditionFailed),
        agent_user_spec(*s, caller) is Some && agent_user_id(*s, caller) is None ==> (r matches Err(
            e,
        ) && e is MalformedState),
        agent_user_id(*s, caller) is Some ==> r == Result::<bool, Error>::Ok(
            agent_is_coordinator_spec(*s, org, caller),
        ),
{
    let uid = match get_agent_user(s, caller) {
        None => {
            return Err(
                Error::PreconditionFailed(
                    String::from_str("the agent does not have a user profile"),
                ),
            );
        },
        Some(Node::Record(uid)) => uid,
        Some(_) => {
            return Err(Error::MalformedState(String::from_str("the user link is malformed")));
        },
    };
    Ok(is_organization_coordinator(s, org, uid))
}

/// The member user originals of `org`, in the order they joined.
pub fn get_organization_members_links(s: &Store, org: RecordId) -> (v: Vec<Node>)
    ensures
        v@ == link_targets(s.entries@, Node::Record(org), IndexTag::OrganizationMembers),
        forall|t: Node| #[trigger] v@.contains(t) <==> has_link(s.entries@, Node::Record(org), t, IndexTag::OrganizationMembers),
{
    proof {
        crate::store::lemma_link_targets_complete(s.entries@, Node::Record(org), IndexTag::OrganizationMembers);
    }
    s.targets_of(Node::Record(org), IndexTag::OrganizationMembers)
}

/// The organization originals `user` belongs to, in joining order.
pub fn get_user_organizations_links(s: &Store, user: RecordId) -> (v: Vec<Node>)
    ensures
        v@ == link_targets(s.entries@, Node::Record(user), IndexTag::UserOrganizations),
        forall|t: Node| #[trigger] v@.contains(t) <==> has_link(s.entries@, Node::Record(user), t, IndexTag::UserOrganizations),
{
    proof {
        crate::store::lemma_link_targets_complete(s.entries@, Node::Record(user), IndexTag::UserOrganizations);
    }
    s.targets_of(Node::Record(user), IndexTag::UserOrganizations)
}

/// The coordinator user originals of `org`, in appointment order.
pub fn get_organization_coordinators_links(s: &Store, org: RecordId) -> (v: Vec<Node>)
    ensures
        v@ == link_targets(s.entries@, Node::Record(org), IndexTag::OrganizationCoordinators),
        forall|t: Node| #[trigger] v@.contains(t) <==> has_link(s.entries@, Node::Record(org), t, IndexTag::OrganizationCoordinators),
{
    proof {
        crate::store::lemma_link_targets_complete(s.entries@, Node::Record(org), IndexTag::OrganizationCoordinators);
    }
    s.targets_of(Node::Record(org), IndexTag::OrganizationCoordinators)
}

/// The entity originals in the all-organizations listing, in creation
/// order.
pub fn get_all_organizations(s: &Store) -> (v: Vec<Node>)
    ensures
        v@ == link_targets(
            s.entries@,
            Node::Anchor(EntityKind::Organization),
            IndexTag::AllEntities,
        ),
{
    s.targets_of(Node::Anchor(EntityKind::Organization), IndexTag::AllEntities)
}

/// Whether the organization's own status is `Accepted`, read from the
/// accepted-entities listing.
pub fn is_organization_accepted(s: &Store, org: RecordId) -> (b: bool)
    ensures
        b == is_accepted_spec(*s, EntityKind::Organization, org),
{
    crate::moderation::check_if_entity_is_accepted(s, EntityKind::Organization, org)
}

/// The current organization profile of the entity `orig`: the payload of
/// the record its revision chain resolves to.
pub fn get_latest_organization<'a>(s: &'a Store, orig: RecordId) -> (r: Result<
    &'a Organization,
    Error,
>)
    ensures
        (match resolved_id(*s, orig) {
            Some(id) => (match s.records@[id as int].payload {
                Payload::Organization(o) => r matches Ok(p) && *p == o,
                Payload::User(_) => r matches Err(e) && e is MalformedState,
                Payload::Status(_) => r matches Err(e) && e is MalformedState,
            }),
            None => r matches Err(e) && e is NotFound,
        }),
        r matches Ok(p) ==> latest_organization_of(*s, orig) == Some(*p),
{
    match resolve_latest_id(s, orig) {
        Some(id) => {
            let rec = &s.records[id];
            match &rec.payload {
                Payload::Organization(o) => Ok(o),
                _ => Err(
                    Error::MalformedState(
                        String::from_str("the record is not an organization profile"),
                    ),
                ),
            }
        },
        None => Err(
            Error::NotFound(
                String::from_str("could not find the latest organization profile"),
            ),
        ),
    }
}

/// Create an organization authored by the principal `caller`, which must
/// already hold a user profile: an immutable record, an entry in the
/// all-organizations listing, a fresh `Pending` status, and the creator
/// joined as first member and first coordinator.  Until an update is
/// appended, the new entity resolves to this very record, with the
/// payload unchanged.
pub fn create_organization(
    s: &mut Store,
    organization: Organization,
    caller: PrincipalId,
    now: Timestamp,
) -> (r: Result<RecordId, Error>)
    requires
        old(s).wf(),
    ensures
        final(s).wf(),
        r is Ok <==> agent_user_id(*old(s), caller) is Some,
        r matches Err(e) ==> *final(s) == *old(s),
        r matches Err(e) ==> (agent_user_spec(*old(s), caller) is None ==> e is PreconditionFailed),
        r matches Err(e) ==> (agent_user_spec(*old(s), caller) is Some ==> e is MalformedState),
        r matches Ok(oid) ==> oid == old(s).records@.len() && resolved_id(*final(s), oid)
            == Some(oid) && final(s).records@[oid as int].payload == Payload::Organization(
            organization,
        ) && final(s).records@[oid as int].author == caller,
        r matches Ok(oid) ==> latest_organization_of(*final(s), oid) == Some(organization),
        r matches Ok(oid) ==> latest_status_of(*final(s), oid) == Some(Status::Pending),
        r matches Ok(oid) ==> (match agent_user_id(*old(s), caller) {
            Some(uid) => is_member_spec(*final(s), oid, uid) && is_coordinator_spec(
                *final(s),
                oid,
                uid,
            ),
            None => false,
        }),
        r matches Ok(oid) ==> (match agent_user_id(*old(s), caller) {
            Some(uid) => forall|s2: Node, t2: Node, g2: IndexTag|
                #[trigger] has_link(final(s).entries@, s2, t2, g2) <==> (has_link(
                    old(s).entries@,
                    s2,
                    t2,
                    g2,
                ) || (s2 == Node::Anchor(EntityKind::Organization) && t2 == Node::Record(oid) && g2
                    == IndexTag::AllEntities) || (s2 == Node::Record(oid) && t2 == Node::Record(
                    (oid + 1) as RecordId,
                ) && g2 == IndexTag::EntityStatus) || (s2 == Node::Record(uid) && t2 == Node::Record(
                    oid,
                ) && g2 == IndexTag::UserOrganizations) || (s2 == Node::Record(oid) && t2
                    == Node::Record(uid) && g2 == IndexTag::OrganizationMembers) || (s2
                    == Node::Record(oid) && t2 == Node::Record(uid) && g2
                    == IndexTag::OrganizationCoordinators)),
            None => false,
        }),
{
    let uid = match get_agent_user(s, caller) {
        None => {
            return Err(
                Error::PreconditionFailed(
                    String::from_str("you must first create a user profile"),
                ),
            );
        },
        Some(Node::Record(uid)) => uid,
        Some(_) => {
            return Err(Error::MalformedState(String::from_str("the user link is malformed")));
        },
    };
    proof {
        lemma_first_target_some(s.entries@, Node::Principal(caller), IndexTag::PrincipalUser);
        let i = choose|i: int|
            0 <= i < s.entries@.len() && #[trigger] entry_matches(
                s.entries@[i],
                Node::Principal(caller),
                IndexTag::PrincipalUser,
            ) && s.entries@[i].target == Node::Record(uid);
        assert(s.node_in_bounds(s.entries@[i].target));
    }
    let ghost s0 = *s;
    let oid = s.put_record(
        Record {
            author: caller,
            payload: Payload::Organization(organization),
            revises: None,
            deleted: false,
        },
    );
    let ghost s1 = *s;
    s.put_entry(
        Node::Anchor(EntityKind::Organization),
        Node::Record(oid),
        IndexTag::AllEntities,
        now,
    );
    let ghost s2 = *s;
    let ghost e1 = IndexEntry {
        subject: Node::Anchor(EntityKind::Organization),
        target: Node::Record(oid),
        tag: IndexTag::AllEntities,
        at: now,
        deleted: false,
    };
    proof {
        lemma_link_push(s1.entries@, e1);
        // no status link can start at the fresh record
        if has_link_from(s2.entries@, Node::Record(oid), IndexTag::EntityStatus) {
            let i = choose|i: int|
                0 <= i < s2.entries@.len() && #[trigger] entry_matches(
                    s2.entries@[i],
                    Node::Record(oid),
                    IndexTag::EntityStatus,
                );
            if i < s0.entries@.len() {
                assert(s0.node_in_bounds(s0.entries@[i].subject));
                assert(false);
            } else {
                assert(s2.entries@[i] == e1);
                assert(false);
            }
        }
    }
    let st = create_status(s, EntityKind::Organization, oid, caller, now);
    let sid: RecordId = match st {
        Ok(sid) => sid,
        Err(e) => {
            proof {
                assert(false);
            }
            return Err(e);
        },
    };
    let ghost s3 = *s;
    let ghost e2 = IndexEntry {
        subject: Node::Record(oid),
        target: Node::Record(sid),
        tag: IndexTag::EntityStatus,
        at: now,
        deleted: false,
    };
    s.put_entry(Node::Record(uid), Node::Record(oid), IndexTag::UserOrganizations, now);
    let ghost s4 = *s;
    let ghost e3 = IndexEntry {
        subject: Node::Record(uid),
        target: Node::Record(oid),
        tag: IndexTag::UserOrganizations,
        at: now,
        deleted: false,
    };
    s.put_entry(Node::Record(oid), Node::Record(uid), IndexTag::OrganizationMembers, now);
    let ghost s5 = *s;
    let ghost e4 = IndexEntry {
        subject: Node::Record(oid),
        target: Node::Record(uid),
        tag: IndexTag::OrganizationMembers,
        at: now,
        deleted: false,
    };
    s.put_entry(Node::Record(oid), Node::Record(uid), IndexTag::OrganizationCoordinators, now);
    let ghost s6 = *s;
    let ghost e5 = IndexEntry {
        subject: Node::Record(oid),
        target: Node::Record(uid),
        tag: IndexTag::OrganizationCoordinators,
        at: now,
        deleted: false,
    };
    proof {
        lemma_link_push(s3.entries@, e3);
        lemma_link_push(s4.entries@, e4);
        lemma_link_push(s5.entries@, e5);
        // the status chain of the new organization is untouched by the
        // membership entries
        lemma_first_target_push(s3.entries@, e3, Node::Record(oid), IndexTag::EntityStatus);
        lemma_first_target_push(s4.entries@, e4, Node::Record(oid), IndexTag::EntityStatus);
        lemma_first_target_push(s5.entries@, e5, Node::Record(oid), IndexTag::EntityStatus);
        lemma_best_revision_push_other(s3.entries@, e3, sid);
        lemma_best_revision_push_other(s4.entries@, e4, sid);
        lemma_best_revision_push_other(s5.entries@, e5, sid);
        // the fresh organization record has no revision entries
        lemma_best_revision_push_other(s0.entries@, e1, oid);
        lemma_best_revision_push_other(s2.entries@, e2, oid);
        lemma_best_revision_push_other(s3.entries@, e3, oid);
        lemma_best_revision_push_other(s4.entries@, e4, oid);
        lemma_best_revision_push_other(s5.entries@, e5, oid);
        lemma_best_revision_upto_props(s0.entries@, oid, s0.entries@.len() as int);
        match crate::resolve::best_revision(s0.entries@, oid) {
            Some(j) => {
                assert(entry_matches(s0.entries@[j], Node::Record(oid), IndexTag::Revision));
                assert(s0.node_in_bounds(s0.entries@[j].subject));
                assert(false);
            },
            None => {},
        }
        // the revision chain of the status record is untouched as well
        lemma_best_revision_upto_props(s3.entries@, sid, s3.entries@.len() as int);
    }
    Ok(oid)
}


/// Add `user` as a member of `org`: both directional entries of the
/// membership edge are written.  Only a coordinator of an accepted
/// organization may do this, and the user must not already be a member.
pub fn add_member_to_organization(
    s: &mut Store,
    org: RecordId,
    user: RecordId,
    caller: PrincipalId,
    now: Timestamp,
) -> (r: Result<(), Error>)
    requires
        old(s).wf(),
        old(s).node_in_bounds(Node::Record(org)),
        old(s).node_in_bounds(Node::Record(user)),
    ensures
        final(s).wf(),
        r is Ok <==> agent_is_coordinator_spec(*old(s), org, caller) && is_accepted_spec(
            *old(s),
            EntityKind::Organization,
            org,
        ) && !is_member_spec(*old(s), org, user),
        r matches Err(e) ==> *final(s) == *old(s),
        r matches Err(e) ==> (agent_user_spec(*old(s), caller) is None ==> e is PreconditionFailed),
        r matches Err(e) ==> (agent_user_spec(*old(s), caller) is Some && agent_user_id(
            *old(s),
            caller,
        ) is None ==> e is MalformedState),
        r matches Err(e) ==> (agent_user_id(*old(s), caller) is Some
            && !agent_is_coordinator_spec(*old(s), org, caller) ==> e is PermissionDenied),
        r matches Err(e) ==> (agent_is_coordinator_spec(*old(s), org, caller) && !is_accepted_spec(
            *old(s),
            EntityKind::Organization,
            org,
        ) ==> e is InvariantViolation),
        r matches Err(e) ==> (agent_is_coordinator_spec(*old(s), org, caller) && is_accepted_spec(
            *old(s),
            EntityKind::Organization,
            org,
        ) && is_member_spec(*old(s), org, user) ==> e is InvariantViolation),
        r is Ok ==> final(s).records == old(s).records && is_member_spec(*final(s), org, user),
        r is Ok ==> forall|s2: Node, t2: Node, g2: IndexTag|
            #[trigger] has_link(final(s).entries@, s2, t2, g2) <==> (has_link(
                old(s).entries@,
                s2,
                t2,
                g2,
            ) || (s2 == Node::Record(org) && t2 == Node::Record(user) && g2
                == IndexTag::OrganizationMembers) || (s2 == Node::Record(user) && t2 == Node::Record(
                org,
            ) && g2 == IndexTag::UserOrganizations)),
{
    match check_if_agent_is_organization_coordinator(s, org, caller) {
        Err(e) => {
            return Err(e);
        },
        Ok(false) => {
            return Err(
                Error::PermissionDenied(
                    String::from_str("only coordinators can add other members"),
                ),
            );
        },
        Ok(true) => {},
    }
    if !is_organization_accepted(s, org) {
        return Err(
            Error::InvariantViolation(
                String::from_str("cannot add members to an organization that is not accepted"),
            ),
        );
    }
    if is_organization_member(s, org, user) {
        return Err(
            Error::InvariantViolation(String::from_str("the invited user is already a member")),
        );
    }
    let ghost s0 = *s;
    s.put_entry(Node::Record(org), Node::Record(user), IndexTag::OrganizationMembers, now);
    let ghost s1 = *s;
    s.put_entry(Node::Record(user), Node::Record(org), IndexTag::UserOrganizations, now);
    proof {
        lemma_link_push(
            s0.entries@,
            (IndexEntry {
                subject: Node::Record(org),
                target: Node::Record(user),
                tag: IndexTag::OrganizationMembers,
                at: now,
                deleted: false,
            }),
        );
        lemma_link_push(
            s1.entries@,
            (IndexEntry {
                subject: Node::Record(user),
                target: Node::Record(org),
                tag: IndexTag::UserOrganizations,
                at: now,
                deleted: false,
            }),
        );
    }
    Ok(())
}

/// Strike `user` from the members of `org`: both directional entries of
/// the membership edge are tombstoned.  Only a coordinator of an accepted
/// organization may do this; a coordinator must be demoted first, and the
/// last member cannot be removed.
pub fn remove_organization_member(
    s: &mut Store,
    org: RecordId,
    user: RecordId,
    caller: PrincipalId,
    now: Timestamp,
) -> (r: Result<(), Error>)
    requires
        old(s).wf(),
    ensures
        final(s).wf(),
        r is Ok <==> agent_is_coordinator_spec(*old(s), org, caller) && is_accepted_spec(
            *old(s),
            EntityKind::Organization,
            org,
        ) && is_member_spec(*old(s), org, user) && !is_coordinator_spec(*old(s), org, user)
            && has_other_link(
            old(s).entries@,
            Node::Record(org),
            IndexTag::OrganizationMembers,
            Node::Record(user),
        ),
        r matches Err(e) ==> *final(s) == *old(s),
        r matches Err(e) ==> (agent_user_spec(*old(s), caller) is None ==> e is PreconditionFailed),
        r matches Err(e) ==> (agent_user_spec(*old(s), caller) is Some && agent_user_id(
            *old(s),
            caller,
        ) is None ==> e is MalformedState),
        r matches Err(e) ==> (agent_user_id(*old(s), caller) is Some
            && !agent_is_coordinator_spec(*old(s), org, caller) ==> e is PermissionDenied),
        r matches Err(e) ==> (agent_is_coordinator_spec(*old(s), org, caller) && !is_accepted_spec(
            *old(s),
            EntityKind::Organization,
            org,
        ) ==> e is InvariantViolation),
        r matches Err(e) ==> (agent_is_coordinator_spec(*old(s), org, caller) && is_accepted_spec(
            *old(s),
            EntityKind::Organization,
            org,
        ) && !is_member_spec(*old(s), org, user) ==> e is NotFound),
        r matches Err(e) ==> (agent_is_coordinator_spec(*old(s), org, caller) && is_accepted_spec(
            *old(s),
            EntityKind::Organization,
            org,
        ) && is_member_spec(*old(s), org, user) && is_coordinator_spec(*old(s), org, user)
            ==> e is InvariantViolation),
        r matches Err(e) ==> (agent_is_coordinator_spec(*old(s), org, caller) && is_accepted_spec(
            *old(s),
            EntityKind::Organization,
            org,
        ) && is_member_spec(*old(s), org, user) && !is_coordinator_spec(*old(s), org, user)
            && !has_other_link(
            old(s).entries@,
            Node::Record(org),
            IndexTag::OrganizationMembers,
            Node::Record(user),
        ) ==> e is InvariantViolation),
        r is Ok ==> final(s).records == old(s).records && !is_member_spec(*final(s), org, user),
        r is Ok ==> forall|s2: Node, t2: Node, g2: IndexTag|
            #[trigger] has_link(final(s).entries@, s2, t2, g2) <==> (has_link(
                old(s).entries@,
                s2,
                t2,
                g2,
            ) && !(s2 == Node::Record(org) && t2 == Node::Record(user) && g2
                == IndexTag::OrganizationMembers) && !(s2 == Node::Record(user) && t2
                == Node::Record(org) && g2 == IndexTag::UserOrganizations)),
{
    match check_if_agent_is_organization_coordinator(s, org, caller) {
        Err(e) => {
            return Err(e);
        },
        Ok(false) => {
            return Err(
                Error::PermissionDenied(String::from_str("only coordinators can remove members")),
            );
        },
        Ok(true) => {},
    }
    if !is_organization_accepted(s, org) {
        return Err(
            Error::InvariantViolation(
                String::from_str(
                    "cannot remove members from an organization that is not accepted",
                ),
            ),
        );
    }
    if !is_organization_member(s, org, user) {
        return Err(
            Error::NotFound(String::from_str("the user is not a member of this organization")),
        );
    }
    if is_organization_coordinator(s, org, user) {
        return Err(
            Error::InvariantViolation(
                String::from_str("cannot remove a coordinator; remove the coordinator role first"),
            ),
        );
    }
    if !s.contains_other_link(
        Node::Record(org),
        IndexTag::OrganizationMembers,
        Node::Record(user),
    ) {
        return Err(
            Error::InvariantViolation(
                String::from_str("cannot remove the last member of an organization"),
            ),
        );
    }
    s.delete_matching(Node::Record(org), Node::Record(user), IndexTag::OrganizationMembers);
    s.delete_matching(Node::Record(user), Node::Record(org), IndexTag::UserOrganizations);
    let _ = now;
    Ok(())
}

/// Appoint `user` as a coordinator of `org`, joining it as a member first
/// when it is not one yet: a coordinator is never left without
/// membership.  Only a coordinator of an accepted organization may do
/// this; the user must have a status and be accepted, and must not be a
/// coordinator already.
pub fn add_coordinator_to_organization(
    s: &mut Store,
    org: RecordId,
    user: RecordId,
    caller: PrincipalId,
    now: Timestamp,
) -> (r: Result<(), Error>)
    requires
        old(s).wf(),
        old(s).node_in_bounds(Node::Record(org)),
        old(s).node_in_bounds(Node::Record(user)),
    ensures
        final(s).wf(),
        r is Ok <==> agent_is_coordinator_spec(*old(s), org, caller) && is_accepted_spec(
            *old(s),
            EntityKind::Organization,
            org,
        ) && has_link_from(old(s).entries@, Node::Record(user), IndexTag::EntityStatus)
            && is_accepted_spec(*old(s), EntityKind::User, user) && !is_coordinator_spec(
            *old(s),
            org,
            user,
        ),
        r matches Err(e) ==> *final(s) == *old(s),
        r matches Err(e) ==> (agent_user_spec(*old(s), caller) is None ==> e is PreconditionFailed),
        r matches Err(e) ==> (agent_user_spec(*old(s), caller) is Some && agent_user_id(
            *old(s),
            caller,
        ) is None ==> e is MalformedState),
        r matches Err(e) ==> (agent_user_id(*old(s), caller) is Some
            && !agent_is_coordinator_spec(*old(s), org, caller) ==> e is PermissionDenied),
        r matches Err(e) ==> (agent_is_coordinator_spec(*old(s), org, caller) && !is_accepted_spec(
            *old(s),
            EntityKind::Organization,
            org,
        ) ==> e is InvariantViolation),
        r matches Err(e) ==> (agent_is_coordinator_spec(*old(s), org, caller) && is_accepted_spec(
            *old(s),
            EntityKind::Organization,
            org,
        ) && !has_link_from(old(s).entries@, Node::Record(user), IndexTag::EntityStatus)
            ==> e is NotFound),
        r matches Err(e) ==> (agent_is_coordinator_spec(*old(s), org, caller) && is_accepted_spec(
            *old(s),
            EntityKind::Organization,
            org,
        ) && has_link_from(old(s).entries@, Node::Record(user), IndexTag::EntityStatus)
            && !is_accepted_spec(*old(s), EntityKind::User, user) ==> e is InvariantViolation),
        r matches Err(e) ==> (agent_is_coordinator_spec(*old(s), org, caller) && is_accepted_spec(
            *old(s),
            EntityKind::Organization,
            org,
        ) && has_link_from(old(s).entries@, Node::Record(user), IndexTag::EntityStatus)
            && is_accepted_spec(*old(s), EntityKind::User, user) && is_coordinator_spec(
            *old(s),
            org,
            user,
        ) ==> e is InvariantViolation),
        r is Ok ==> final(s).records == old(s).records && is_coordinator_spec(*final(s), org, user)
            && is_member_spec(*final(s), org, user),
        r is Ok ==> forall|s2: Node, t2: Node, g2: IndexTag|
            #[trigger] has_link(final(s).entries@, s2, t2, g2) <==> (has_link(
                old(s).entries@,
                s2,
                t2,
                g2,
            ) || (s2 == Node::Record(org) && t2 == Node::Record(user) && g2
                == IndexTag::OrganizationCoordinators) || (!is_member_spec(*old(s), org, user) && (
            (s2 == Node::Record(org) && t2 == Node::Record(user) && g2
                == IndexTag::OrganizationMembers) || (s2 == Node::Record(user) && t2
                == Node::Record(org) && g2 == IndexTag::UserOrganizations)))),
{
    match check_if_agent_is_organization_coordinator(s, org, caller) {
        Err(e) => {
            return Err(e);
        },
        Ok(false) => {
            return Err(
                Error::PermissionDenied(
                    String::from_str("only coordinators can add coordinators"),
                ),
            );
        },
        Ok(true) => {},
    }
    if !is_organization_accepted(s, org) {
        return Err(
            Error::InvariantViolation(
                String::from_str(
                    "cannot add coordinators to an organization that is not accepted",
                ),
            ),
        );
    }
    if !s.contains_link_from(Node::Record(user), IndexTag::EntityStatus) {
        return Err(Error::NotFound(String::from_str("the user does not have a status")));
    }
    if !crate::moderation::check_if_entity_is_accepted(s, EntityKind::User, user) {
        return Err(
            Error::InvariantViolation(
                String::from_str("cannot add a coordinator that is not accepted"),
            ),
        );
    }
    if is_organization_coordinator(s, org, user) {
        return Err(
            Error::InvariantViolation(
                String::from_str("the user is already a coordinator of this organization"),
            ),
        );
    }
    let member = is_organization_member(s, org, user);
    let ghost s0 = *s;
    if !member {
        s.put_entry(Node::Record(org), Node::Record(user), IndexTag::OrganizationMembers, now);
        let ghost s1 = *s;
        s.put_entry(Node::Record(user), Node::Record(org), IndexTag::UserOrganizations, now);
        proof {
            lemma_link_push(
                s0.entries@,
                (IndexEntry {
                    subject: Node::Record(org),
                    target: Node::Record(user),
                    tag: IndexTag::OrganizationMembers,
                    at: now,
                    deleted: false,
                }),
            );
            lemma_link_push(
                s1.entries@,
                (IndexEntry {
                    subject: Node::Record(user),
                    target: Node::Record(org),
                    tag: IndexTag::UserOrganizations,
                    at: now,
                    deleted: false,
                }),
            );
        }
    }
    let ghost s2 = *s;
    s.put_entry(Node::Record(org), Node::Record(user), IndexTag::OrganizationCoordinators, now);
    proof {
        lemma_link_push(
            s2.entries@,
            (IndexEntry {
                subject: Node::Record(org),
                target: Node::Record(user),
                tag: IndexTag::OrganizationCoordinators,
                at: now,
                deleted: false,
            }),
        );
    }
    Ok(())
}

/// Strike `user` from the coordinators of `org`; its membership stays.
/// Only a coordinator of an accepted organization may do this, and the
/// last coordinator cannot be removed: an organization must keep at least
/// one while it exists.
pub fn remove_organization_coordinator(
    s: &mut Store,
    org: RecordId,
    user: RecordId,
    caller: PrincipalId,
    now: Timestamp,
) -> (r: Result<(), Error>)
    requires
        old(s).wf(),
    ensures
        final(s).wf(),
        r is Ok <==> agent_is_coordinator_spec(*old(s), org, caller) && is_accepted_spec(
            *old(s),
            EntityKind::Organization,
            org,
        ) && is_coordinator_spec(*old(s), org, user) && has_other_link(
            old(s).entries@,
            Node::Record(org),
            IndexTag::OrganizationCoordinators,
            Node::Record(user),
        ),
        r matches Err(e) ==> *final(s) == *old(s),
        r matches Err(e) ==> (agent_user_spec(*old(s), caller) is None ==> e is PreconditionFailed),
        r matches Err(e) ==> (agent_user_spec(*old(s), caller) is Some && agent_user_id(
            *old(s),
            caller,
        ) is None ==> e is MalformedState),
        r matches Err(e) ==> (agent_user_id(*old(s), caller) is Some
            && !agent_is_coordinator_spec(*old(s), org, caller) ==> e is PermissionDenied),
        r matches Err(e) ==> (agent_is_coordinator_spec(*old(s), org, caller) && !is_accepted_spec(
            *old(s),
            EntityKind::Organization,
            org,
        ) ==> e is InvariantViolation),
        r matches Err(e) ==> (agent_is_coordinator_spec(*old(s), org, caller) && is_accepted_spec(
            *old(s),
            EntityKind::Organization,
            org,
        ) && !is_coordinator_spec(*old(s), org, user) ==> e is NotFound),
        r matches Err(e) ==> (agent_is_coordinator_spec(*old(s), org, caller) && is_accepted_spec(
            *old(s),
            EntityKind::Organization,
            org,
        ) && is_coordinator_spec(*old(s), org, user) && !has_other_link(
            old(s).entries@,
            Node::Record(org),
            IndexTag::OrganizationCoordinators,
            Node::Record(user),
        ) ==> e is InvariantViolation),
        r is Ok ==> final(s).records == old(s).records && !is_coordinator_spec(
            *final(s),
            org,
            user,
        ) && is_member_spec(*final(s), org, user) == is_member_spec(*old(s), org, user),
        r is Ok ==> forall|s2: Node, t2: Node, g2: IndexTag|
            #[trigger] has_link(final(s).entries@, s2, t2, g2) <==> (has_link(
                old(s).entries@,
                s2,
                t2,
                g2,
            ) && !(s2 == Node::Record(org) && t2 == Node::Record(user) && g2
                == IndexTag::OrganizationCoordinators)),
{
    match check_if_agent_is_organization_coordinator(s, org, caller) {
        Err(e) => {
            return Err(e);
        },
        Ok(false) => {
            return Err(
                Error::PermissionDenied(
                    String::from_str("only coordinators can remove other coordinators"),
                ),
            );
        },
        Ok(true) => {},
    }
    if !is_organization_accepted(s, org) {
        return Err(
            Error::InvariantViolation(
                String::from_str(
                    "cannot remove coordinators from an organization that is not accepted",
                ),
            ),
        );
    }
    if !is_organization_coordinator(s, org, user) {
        return Err(
            Error::NotFound(
                String::from_str("the user is not a coordinator of this organization"),
            ),
        );
    }
    if !s.contains_other_link(
        Node::Record(org),
        IndexTag::OrganizationCoordinators,
        Node::Record(user),
    ) {
        return Err(
            Error::InvariantViolation(
                String::from_str("cannot remove the last coordinator of an organization"),
            ),
        );
    }
    s.delete_matching(Node::Record(org), Node::Record(user), IndexTag::OrganizationCoordinators);
    let _ = now;
    Ok(())
}


/// Append a revision of the organization entity `orig` carrying the
/// profile `new_organization`.  Only a coordinator of the organization may
/// update it; once the new revision entry is the latest one visible, the
/// entity resolves to it.
pub fn update_organization(
    s: &mut Store,
    orig: RecordId,
    new_organization: Organization,
    caller: PrincipalId,
    now: Timestamp,
) -> (r: Result<RecordId, Error>)
    requires
        old(s).wf(),
        old(s).node_in_bounds(Node::Record(orig)),
    ensures
        final(s).wf(),
        r is Ok <==> agent_is_coordinator_spec(*old(s), orig, caller) && resolved_id(
            *old(s),
            orig,
        ) is Some,
        r matches Err(e) ==> *final(s) == *old(s),
        r matches Err(e) ==> (agent_user_spec(*old(s), caller) is None ==> e is PreconditionFailed),
        r matches Err(e) ==> (agent_user_spec(*old(s), caller) is Some && agent_user_id(
            *old(s),
            caller,
        ) is None ==> e is MalformedState),
        r matches Err(e) ==> (agent_user_id(*old(s), caller) is Some
            && !agent_is_coordinator_spec(*old(s), orig, caller) ==> e is PermissionDenied),
        r matches Err(e) ==> (agent_is_coordinator_spec(*old(s), orig, caller) && resolved_id(
            *old(s),
            orig,
        ) is None ==> e is NotFound),
        r matches Ok(nid) ==> nid == old(s).records@.len() && final(s).records@ == old(s)
            .records@.push(
            (Record {
                author: caller,
                payload: Payload::Organization(new_organization),
                revises: resolved_id(*old(s), orig),
                deleted: false,
            }),
        ),
        r matches Ok(nid) ==> (stamps_at_most(
            old(s).entries@,
            Node::Record(orig),
            IndexTag::Revision,
            now,
        ) ==> resolved_id(*final(s), orig) == Some(nid) && latest_organization_of(*final(s), orig)
            == Some(new_organization)),
        r matches Ok(nid) ==> forall|s2: Node, t2: Node, g2: IndexTag|
            #[trigger] has_link(final(s).entries@, s2, t2, g2) <==> (has_link(
                old(s).entries@,
                s2,
                t2,
                g2,
            ) || (s2 == Node::Record(orig) && t2 == Node::Record(nid) && g2 == IndexTag::Revision)),
{
    match check_if_agent_is_organization_coordinator(s, orig, caller) {
        Err(e) => {
            return Err(e);
        },
        Ok(false) => {
            return Err(
                Error::PermissionDenied(
                    String::from_str("only coordinators can update the organization"),
                ),
            );
        },
        Ok(true) => {},
    }
    let prev = match resolve_latest_id(s, orig) {
        Some(p) => p,
        None => {
            return Err(
                Error::NotFound(
                    String::from_str("could not find the latest organization profile"),
                ),
            );
        },
    };
    let ghost s0 = *s;
    let nid = s.put_record(
        Record {
            author: caller,
            payload: Payload::Organization(new_organization),
            revises: Some(prev),
            deleted: false,
        },
    );
    let ghost s1 = *s;
    s.put_entry(Node::Record(orig), Node::Record(nid), IndexTag::Revision, now);
    proof {
        let e = IndexEntry {
            subject: Node::Record(orig),
            target: Node::Record(nid),
            tag: IndexTag::Revision,
            at: now,
            deleted: false,
        };
        lemma_link_push(s1.entries@, e);
        if stamps_at_most(s0.entries@, Node::Record(orig), IndexTag::Revision, now) {
            lemma_best_revision_push_latest(s1.entries@, e, orig);
            assert(s.entries@[s1.entries@.len() as int] == e);
        }
    }
    Ok(nid)
}

/// Tear an organization down: every membership edge and its reverse
/// entry, every coordinator entry, its entries in the all-organizations
/// and accepted-entities listings, its status link and status record, and
/// finally the organization record itself.
fn teardown_organization(s: &mut Store, org: RecordId, now: Timestamp)
    requires
        old(s).wf(),
        org < old(s).records@.len(),
    ensures
        final(s).wf(),
        final(s).records@.len() == old(s).records@.len(),
        final(s).records@[org as int] == (Record { deleted: true, ..old(s).records@[org as int] }),
        (match crate::moderation::status_chain_origin(*old(s), org) {
            Some(so) => so < old(s).records@.len() && so != org ==> final(s).records@[so as int]
                == (Record { deleted: true, ..old(s).records@[so as int] }),
            None => true,
        }),
        forall|i: int|
            0 <= i < old(s).records@.len() && i != org && (match crate::moderation::status_chain_origin(
                *old(s),
                org,
            ) {
                Some(so) => i != so,
                None => true,
            }) ==> final(s).records@[i] == old(s).records@[i],
        final(s).records@[org as int].deleted,
        forall|u: RecordId| !#[trigger] is_member_spec(*final(s), org, u),
        forall|u: RecordId| !#[trigger] is_coordinator_spec(*final(s), org, u),
        forall|u: RecordId|
            !#[trigger] has_link(
                final(s).entries@,
                Node::Record(u),
                Node::Record(org),
                IndexTag::UserOrganizations,
            ),
        !has_link(
            final(s).entries@,
            Node::Anchor(EntityKind::Organization),
            Node::Record(org),
            IndexTag::AllEntities,
        ),
        !is_accepted_spec(*final(s), EntityKind::Organization, org),
        !has_link_from(final(s).entries@, Node::Record(org), IndexTag::EntityStatus),
        forall|s2: Node, t2: Node, g2: IndexTag|
            #[trigger] has_link(final(s).entries@, s2, t2, g2) <==> (has_link(
                old(s).entries@,
                s2,
                t2,
                g2,
            ) && !(s2 == Node::Record(org) && g2 == IndexTag::OrganizationMembers) && !(t2
                == Node::Record(org) && g2 == IndexTag::UserOrganizations) && !(s2 == Node::Record(
                org,
            ) && g2 == IndexTag::OrganizationCoordinators) && !(s2 == Node::Anchor(
                EntityKind::Organization,
            ) && t2 == Node::Record(org) && g2 == IndexTag::AllEntities) && !(s2 == Node::Anchor(
                EntityKind::Organization,
            ) && t2 == Node::Record(org) && g2 == IndexTag::AcceptedEntities) && !(s2
                == Node::Record(org) && g2 == IndexTag::EntityStatus)),
{
    let so = s.first_target(Node::Record(org), IndexTag::EntityStatus);
    match so {
        Some(Node::Record(soid)) => {
            if soid < s.records.len() {
                s.delete_record(soid);
            }
        },
        _ => {},
    }
    s.delete_to(Node::Record(org), IndexTag::UserOrganizations);
    s.delete_from(Node::Record(org), IndexTag::OrganizationMembers);
    s.delete_from(Node::Record(org), IndexTag::OrganizationCoordinators);
    s.delete_matching(
        Node::Anchor(EntityKind::Organization),
        Node::Record(org),
        IndexTag::AllEntities,
    );
    s.delete_matching(
        Node::Anchor(EntityKind::Organization),
        Node::Record(org),
        IndexTag::AcceptedEntities,
    );
    s.delete_from(Node::Record(org), IndexTag::EntityStatus);
    s.delete_record(org);
    let _ = now;
}

/// Leave `org` as the principal `caller`: the caller's membership edge is
/// removed, a coordinator demotes itself on the way out, and the sole
/// member leaving tears the whole organization down.  The sole
/// coordinator of an organization that still has other members cannot
/// leave: another coordinator must be appointed first.
pub fn leave_organization(s: &mut Store, org: RecordId, caller: PrincipalId, now: Timestamp) -> (r:
    Result<(), Error>)
    requires
        old(s).wf(),
    ensures
        final(s).wf(),
        r is Ok <==> (match agent_user_id(*old(s), caller) {
            Some(uid) => is_member_spec(*old(s), org, uid) && !(is_coordinator_spec(
                *old(s),
                org,
                uid,
            ) && !has_other_link(
                old(s).entries@,
                Node::Record(org),
                IndexTag::OrganizationCoordinators,
                Node::Record(uid),
            ) && has_other_link(
                old(s).entries@,
                Node::Record(org),
                IndexTag::OrganizationMembers,
                Node::Record(uid),
            )),
            None => false,
        }),
        r matches Err(e) ==> *final(s) == *old(s),
        r matches Err(e) ==> (agent_user_spec(*old(s), caller) is None ==> e is PreconditionFailed),
        r matches Err(e) ==> (agent_user_spec(*old(s), caller) is Some && agent_user_id(
            *old(s),
            caller,
        ) is None ==> e is MalformedState),
        r matches Err(e) ==> (match agent_user_id(*old(s), caller) {
            Some(uid) => (!is_member_spec(*old(s), org, uid) ==> e is PreconditionFailed)
                && (is_member_spec(*old(s), org, uid) ==> e is InvariantViolation),
            None => true,
        }),
        r is Ok ==> (match agent_user_id(*old(s), caller) {
            Some(uid) => !is_member_spec(*final(s), org, uid) && !is_coordinator_spec(
                *final(s),
                org,
                uid,
            ),
            None => false,
        }),
        r is Ok ==> (match agent_user_id(*old(s), caller) {
            Some(uid) => !has_other_link(
                old(s).entries@,
                Node::Record(org),
                IndexTag::OrganizationMembers,
                Node::Record(uid),
            ) ==> (!has_link(
                final(s).entries@,
                Node::Anchor(EntityKind::Organization),
                Node::Record(org),
                IndexTag::AllEntities,
            ) && !is_accepted_spec(*final(s), EntityKind::Organization, org) && (forall|
                u: RecordId,
            | !#[trigger] is_member_spec(*final(s), org, u)) && (forall|u: RecordId|
                !#[trigger] is_coordinator_spec(*final(s), org, u)) && (forall|u: RecordId|
                !#[trigger] has_link(
                    final(s).entries@,
                    Node::Record(u),
                    Node::Record(org),
                    IndexTag::UserOrganizations,
                )) && final(s).records@[org as int].deleted),
            None => false,
        }),
        r is Ok ==> (match agent_user_id(*old(s), caller) {
            Some(uid) => has_other_link(
                old(s).entries@,
                Node::Record(org),
                IndexTag::OrganizationMembers,
                Node::Record(uid),
            ) ==> (final(s).records == old(s).records && (forall|s2: Node, t2: Node, g2: IndexTag|
                #[trigger] has_link(final(s).entries@, s2, t2, g2) <==> (has_link(
                    old(s).entries@,
                    s2,
                    t2,
                    g2,
                ) && !(s2 == Node::Record(org) && t2 == Node::Record(uid) && g2
                    == IndexTag::OrganizationMembers) && !(s2 == Node::Record(uid) && t2
                    == Node::Record(org) && g2 == IndexTag::UserOrganizations) && !(s2
                    == Node::Record(org) && t2 == Node::Record(uid) && g2
                    == IndexTag::OrganizationCoordinators)))),
            None => false,
        }),
{
    let uid = match get_agent_user(s, caller) {
        None => {
            return Err(
                Error::PreconditionFailed(
                    String::from_str("the agent does not have a user profile"),
                ),
            );
        },
        Some(Node::Record(uid)) => uid,
        Some(_) => {
            return Err(Error::MalformedState(String::from_str("the user link is malformed")));
        },
    };
    if !is_organization_member(s, org, uid) {
        return Err(
            Error::PreconditionFailed(
                String::from_str("the agent is not a member of this organization"),
            ),
        );
    }
    proof {
        let i = choose|i: int|
            0 <= i < s.entries@.len() && #[trigger] entry_matches(
                s.entries@[i],
                Node::Record(org),
                IndexTag::OrganizationMembers,
            ) && s.entries@[i].target == Node::Record(uid);
        assert(s.node_in_bounds(s.entries@[i].subject));
    }
    let is_coord = is_organization_coordinator(s, org, uid);
    let other_coord = s.contains_other_link(
        Node::Record(org),
        IndexTag::OrganizationCoordinators,
        Node::Record(uid),
    );
    let other_member = s.contains_other_link(
        Node::Record(org),
        IndexTag::OrganizationMembers,
        Node::Record(uid),
    );
    if !other_member {
        teardown_organization(s, org, now);
        return Ok(());
    }
    if is_coord && !other_coord {
        return Err(
            Error::InvariantViolation(
                String::from_str("cannot leave the organization as its last coordinator"),
            ),
        );
    }
    s.delete_matching(Node::Record(org), Node::Record(uid), IndexTag::OrganizationCoordinators);
    s.delete_matching(Node::Record(org), Node::Record(uid), IndexTag::OrganizationMembers);
    s.delete_matching(Node::Record(uid), Node::Record(org), IndexTag::UserOrganizations);
    Ok(())
}

/// Delete `org` outright, as one of its coordinators: every membership
/// edge with its reverse entry, every coordinator entry, the listing and
/// status entries, and the organization record itself are torn down, so
/// that no former member still reads as one.
pub fn delete_organization(
    s: &mut Store,
    org: RecordId,
    caller: PrincipalId,
    now: Timestamp,
) -> (r: Result<(), Error>)
    requires
        old(s).wf(),
    ensures
        final(s).wf(),
        r is Ok <==> agent_is_coordinator_spec(*old(s), org, caller),
        r matches Err(e) ==> *final(s) == *old(s),
        r matches Err(e) ==> (agent_user_spec(*old(s), caller) is None ==> e is PreconditionFailed),
        r matches Err(e) ==> (agent_user_spec(*old(s), caller) is Some && agent_user_id(
            *old(s),
            caller,
        ) is None ==> e is MalformedState),
        r matches Err(e) ==> (agent_user_id(*old(s), caller) is Some
            && !agent_is_coordinator_spec(*old(s), org, caller) ==> e is PermissionDenied),
        r is Ok ==> (forall|u: RecordId| !#[trigger] is_member_spec(*final(s), org, u)) && (forall|
            u: RecordId,
        | !#[trigger] is_coordinator_spec(*final(s), org, u)) && (forall|u: RecordId|
            !#[trigger] has_link(
                final(s).entries@,
                Node::Record(u),
                Node::Record(org),
                IndexTag::UserOrganizations,
            )),
        r is Ok ==> !has_link(
            final(s).entries@,
            Node::Anchor(EntityKind::Organization),
            Node::Record(org),
            IndexTag::AllEntities,
        ) && !is_accepted_spec(*final(s), EntityKind::Organization, org)
            && final(s).records@[org as int].deleted,
        r is Ok ==> final(s).records@.len() == old(s).records@.len()
            && final(s).records@[org as int] == (Record {
            deleted: true,
            ..old(s).records@[org as int]
        }),
        r is Ok ==> (match crate::moderation::status_chain_origin(*old(s), org) {
            Some(so) => so < old(s).records@.len() && so != org ==> final(s).records@[so as int]
                == (Record { deleted: true, ..old(s).records@[so as int] }),
            None => true,
        }),
        r is Ok ==> forall|i: int|
            0 <= i < old(s).records@.len() && i != org && (match crate::moderation::status_chain_origin(
                *old(s),
                org,
            ) {
                Some(so) => i != so,
                None => true,
            }) ==> final(s).records@[i] == old(s).records@[i],
        r is Ok ==> forall|s2: Node, t2: Node, g2: IndexTag|
            #[trigger] has_link(final(s).entries@, s2, t2, g2) <==> (has_link(
                old(s).entries@,
                s2,
                t2,
                g2,
            ) && !(s2 == Node::Record(org) && g2 == IndexTag::OrganizationMembers) && !(t2
                == Node::Record(org) && g2 == IndexTag::UserOrganizations) && !(s2 == Node::Record(
                org,
            ) && g2 == IndexTag::OrganizationCoordinators) && !(s2 == Node::Anchor(
                EntityKind::Organization,
            ) && t2 == Node::Record(org) && g2 == IndexTag::AllEntities) && !(s2 == Node::Anchor(
                EntityKind::Organization,
            ) && t2 == Node::Record(org) && g2 == IndexTag::AcceptedEntities) && !(s2
                == Node::Record(org) && g2 == IndexTag::EntityStatus)),
{
    match check_if_agent_is_organization_coordinator(s, org, caller) {
        Err(e) => {
            return Err(e);
        },
        Ok(false) => {
            return Err(
                Error::PermissionDenied(
                    String::from_str("only coordinators can delete organizations"),
                ),
            );
        },
        Ok(true) => {},
    }
    proof {
        let ghost uid = match agent_user_id(*s, caller) {
            Some(uid) => uid,
            None => 0,
        };
        let i = choose|i: int|
            0 <= i < s.entries@.len() && #[trigger] entry_matches(
                s.entries@[i],
                Node::Record(org),
                IndexTag::OrganizationCoordinators,
            ) && s.entries@[i].target == Node::Record(uid);
        assert(s.node_in_bounds(s.entries@[i].subject));
    }
    teardown_organization(s, org, now);
    Ok(())
}


/// The current profiles of the members of `org`, in joining order.  Fails
/// exactly when some member link does not resolve to a user profile.
pub fn get_organization_members<'a>(s: &'a Store, org: RecordId) -> (r: Result<
    Vec<&'a crate::profile::User>,
    Error,
>)
    ensures
        r is Ok <==> (forall|i: int|
            0 <= i < link_targets(
                s.entries@,
                Node::Record(org),
                IndexTag::OrganizationMembers,
            ).len() ==> (#[trigger] link_targets(
                s.entries@,
                Node::Record(org),
                IndexTag::OrganizationMembers,
            )[i] matches Node::Record(u) && crate::entity::latest_user_of(*s, u) is Some)),
        r matches Ok(v) ==> ({
            let ids = link_targets(s.entries@, Node::Record(org), IndexTag::OrganizationMembers);
            &&& v@.len() == ids.len()
            &&& forall|i: int|
                0 <= i < ids.len() ==> (#[trigger] ids[i] matches Node::Record(u)
                    && crate::entity::latest_user_of(*s, u) == Some(*v@[i]))
        }),
        r matches Err(e) ==> e is NotFound || e is MalformedState,
{
    let ids = get_organization_members_links(s, org);
    collect_users(s, ids)
}

/// The current profiles of the coordinators of `org`, in appointment
/// order.  Fails exactly when some coordinator link does not resolve to
/// a user profile.
pub fn get_organization_coordinators<'a>(s: &'a Store, org: RecordId) -> (r: Result<
    Vec<&'a crate::profile::User>,
    Error,
>)
    ensures
        r is Ok <==> (forall|i: int|
            0 <= i < link_targets(
                s.entries@,
                Node::Record(org),
                IndexTag::OrganizationCoordinators,
            ).len() ==> (#[trigger] link_targets(
                s.entries@,
                Node::Record(org),
                IndexTag::OrganizationCoordinators,
            )[i] matches Node::Record(u) && crate::entity::latest_user_of(*s, u) is Some)),
        r matches Ok(v) ==> ({
            let ids = link_targets(
                s.entries@,
                Node::Record(org),
                IndexTag::OrganizationCoordinators,
            );
            &&& v@.len() == ids.len()
            &&& forall|i: int|
                0 <= i < ids.len() ==> (#[trigger] ids[i] matches Node::Record(u)
                    && crate::entity::latest_user_of(*s, u) == Some(*v@[i]))
        }),
        r matches Err(e) ==> e is NotFound || e is MalformedState,
{
    let ids = get_organization_coordinators_links(s, org);
    collect_users(s, ids)
}

/// Resolve each user link of `ids` to its current profile, in order.
fn collect_users<'a>(s: &'a Store, ids: Vec<Node>) -> (r: Result<
    Vec<&'a crate::profile::User>,
    Error,
>)
    ensures
        r is Ok <==> (forall|i: int|
            0 <= i < ids@.len() ==> (#[trigger] ids@[i] matches Node::Record(u)
                && crate::entity::latest_user_of(*s, u) is Some)),
        r matches Ok(v) ==> v@.len() == ids@.len() && forall|i: int|
            0 <= i < ids@.len() ==> (#[trigger] ids@[i] matches Node::Record(u)
                && crate::entity::latest_user_of(*s, u) == Some(*v@[i])),
        r matches Err(e) ==> e is NotFound || e is MalformedState,
{
    let n = ids.len();
    let mut v: Vec<&crate::profile::User> = Vec::new();
    let mut k: usize = 0;
    while k < n
        invariant
            n == ids@.len(),
            k <= n,
            v@.len() == k,
            forall|i: int|
                0 <= i < k ==> (#[trigger] ids@[i] matches Node::Record(u)
                    && crate::entity::latest_user_of(*s, u) == Some(*v@[i])),
        decreases n - k,
    {
        match ids[k] {
            Node::Record(u) => {
                match crate::entity::get_latest_user(s, u) {
                    Ok(p) => {
                        v.push(p);
                    },
                    Err(e) => {
                        proof {
                            assert(crate::entity::latest_user_of(*s, u) is None);
                            assert(!(ids@[k as int] matches Node::Record(u2)
                                && crate::entity::latest_user_of(*s, u2) is Some));
                        }
                        return Err(e);
                    },
                }
            },
            _ => {
                proof {
                    assert(!(ids@[k as int] matches Node::Record(u2)
                        && crate::entity::latest_user_of(*s, u2) is Some));
                }
                return Err(
                    Error::MalformedState(String::from_str("the user link is malformed")),
                );
            },
        }
        k = k + 1;
    }
    Ok(v)
}

/// The current profiles of the organizations `user` belongs to, in
/// joining order.  Fails exactly when some link does not resolve to an
/// organization profile.
pub fn get_user_organizations<'a>(s: &'a Store, user: RecordId) -> (r: Result<
    Vec<&'a Organization>,
    Error,
>)
    ensures
        r is Ok <==> (forall|i: int|
            0 <= i < link_targets(
                s.entries@,
                Node::Record(user),
                IndexTag::UserOrganizations,
            ).len() ==> (#[trigger] link_targets(
                s.entries@,
                Node::Record(user),
                IndexTag::UserOrganizations,
            )[i] matches Node::Record(o) && latest_organization_of(*s, o) is Some)),
        r matches Ok(v) ==> ({
            let ids = link_targets(s.entries@, Node::Record(user), IndexTag::UserOrganizations);
            &&& v@.len() == ids.len()
            &&& forall|i: int|
                0 <= i < ids.len() ==> (#[trigger] ids[i] matches Node::Record(o)
                    && latest_organization_of(*s, o) == Some(*v@[i]))
        }),
        r matches Err(e) ==> e is NotFound || e is MalformedState,
{
    let ids = get_user_organizations_links(s, user);
    let n = ids.len();
    let mut v: Vec<&Organization> = Vec::new();
    let mut k: usize = 0;
    while k < n
        invariant
            n == ids@.len(),
            k <= n,
            v@.len() == k,
            ids@ == link_targets(s.entries@, Node::Record(user), IndexTag::UserOrganizations),
            forall|i: int|
                0 <= i < k ==> (#[trigger] ids@[i] matches Node::Record(o)
                    && latest_organization_of(*s, o) == Some(*v@[i])),
        decreases n - k,
    {
        match ids[k] {
            Node::Record(o) => {
                match get_latest_organization(s, o) {
                    Ok(p) => {
                        v.push(p);
                    },
                    Err(e) => {
                        proof {
                            assert(latest_organization_of(*s, o) is None);
                            assert(!(ids@[k as int] matches Node::Record(o2)
                                && latest_organization_of(*s, o2) is Some));
                        }
                        return Err(e);
                    },
                }
            },
            _ => {
                proof {
                    assert(!(ids@[k as int] matches Node::Record(o2)
                        && latest_organization_of(*s, o2) is Some));
                }
                return Err(
                    Error::MalformedState(
                        String::from_str("the organization link is malformed"),
                    ),
                );
            },
        }
        k = k + 1;
    }
    Ok(v)
}


/// The record the revision chain of the organization entity `orig`
/// currently resolves to.
pub fn get_latest_organization_record<'a>(s: &'a Store, orig: RecordId) -> (r: Result<
    &'a Record,
    Error,
>)
    ensures
        (match resolved_id(*s, orig) {
            Some(id) => r matches Ok(rec) && *rec == s.records@[id as int],
            None => r matches Err(e) && e is NotFound,
        }),
{
    crate::resolve::get_latest_record(s, orig)
}

} // verus!
