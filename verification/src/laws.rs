use vstd::prelude::*;

use crate::admin::is_administrator_spec;
use crate::orgs::{is_coordinator_spec, is_member_spec};
use crate::store::{entry_matches, has_link, has_other_link, IndexTag, Node, Store};
use crate::types::{EntityKind, RecordId};

verus! {

/// Membership symmetry: `user` is a member of `org` exactly when both the
/// org-to-member and the member-to-org index entries exist, so a pair
/// with either half missing — a dangling link left by a partially failed
/// add — never reads as membership.
pub proof fn lemma_membership_symmetry(s: Store, org: RecordId, user: RecordId)
    ensures
        is_member_spec(s, org, user) <==> (has_link(
            s.entries@,
            Node::Record(org),
            Node::Record(user),
            IndexTag::OrganizationMembers,
        ) && has_link(
            s.entries@,
            Node::Record(user),
            Node::Record(org),
            IndexTag::UserOrganizations,
        )),
        !has_link(
            s.entries@,
            Node::Record(org),
            Node::Record(user),
            IndexTag::OrganizationMembers,
        ) ==> !is_member_spec(s, org, user),
        !has_link(
            s.entries@,
            Node::Record(user),
            Node::Record(org),
            IndexTag::UserOrganizations,
        ) ==> !is_member_spec(s, org, user),
{
}

/// Administrator invariant: once a second, distinct administrator of the
/// kind is registered, the first one is no longer the last — the
/// last-administrator check that blocks its removal passes.
pub proof fn lemma_second_administrator_unblocks_removal(
    s: Store,
    kind: EntityKind,
    first: RecordId,
    second: RecordId,
)
    requires
        first != second,
        is_administrator_spec(s, kind, first),
        is_administrator_spec(s, kind, second),
    ensures
        has_other_link(
            s.entries@,
            Node::Anchor(kind),
            IndexTag::Administrators,
            Node::Record(first),
        ),
{
    let i = choose|i: int|
        0 <= i < s.entries@.len() && #[trigger] entry_matches(
            s.entries@[i],
            Node::Anchor(kind),
            IndexTag::Administrators,
        ) && s.entries@[i].target == Node::Record(second);
    assert(s.entries@[i].target != Node::Record(first));
}

/// Coordinator floor: once a second, distinct coordinator of the
/// organization is appointed, the first one is no longer the last — the
/// last-coordinator check that blocks its removal passes.
pub proof fn lemma_second_coordinator_unblocks_removal(
    s: Store,
    org: RecordId,
    first: RecordId,
    second: RecordId,
)
    requires
        first != second,
        is_coordinator_spec(s, org, first),
        is_coordinator_spec(s, org, second),
    ensures
        has_other_link(
            s.entries@,
            Node::Record(org),
            IndexTag::OrganizationCoordinators,
            Node::Record(first),
        ),
{
    let i = choose|i: int|
        0 <= i < s.entries@.len() && #[trigger] entry_matches(
            s.entries@[i],
            Node::Record(org),
            IndexTag::OrganizationCoordinators,
        ) && s.entries@[i].target == Node::Record(second);
    assert(s.entries@[i].target != Node::Record(first));
}

} // verus!
