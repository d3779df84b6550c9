use vstd::prelude::*;
use vstd::string::StringExecFns;

use crate::errors::Error;
use crate::moderation::{create_status, latest_status_of};
use crate::profile::User;
use crate::resolve::{
    lemma_best_revision_push_latest, lemma_best_revision_push_other,
    lemma_best_revision_upto_props, resolve_latest_id, resolved_id,
};
use crate::status::Status;
use crate::store::{
    entry_matches, first_link_target, has_link, has_link_from, lemma_first_target_some,
    lemma_link_push, link_targets, stamps_at_most, IndexEntry, IndexTag, Node, Payload, Record,
    Store,
};
use crate::types::{EntityKind, PrincipalId, RecordId, Timestamp};

verus! {

/// The user entity a principal authored: the target of its earliest live
/// user link.
pub open spec fn agent_user_spec(s: Store, agent: PrincipalId) -> Option<Node> {
    first_link_target(s.entries@, Node::Principal(agent), IndexTag::PrincipalUser)
}

/// The user entity a principal authored, as a record id.
pub open spec fn agent_user_id(s: Store, agent: PrincipalId) -> Option<RecordId> {
    match agent_user_spec(s, agent) {
        Some(n) => match n {
            Node::Record(uid) => Some(uid),
            Node::Principal(_) => None,
            Node::Anchor(_) => None,
        },
        None => None,
    }
}

/// The user profile the chain of `orig` currently resolves to.
pub open spec fn latest_user_of(s: Store, orig: RecordId) -> Option<User> {
    match resolved_id(s, orig) {
        Some(id) => match s.records@[id as int].payload {
            Payload::User(u) => Some(u),
            Payload::Organization(_) => None,
            Payload::Status(_) => None,
        },
        None => None,
    }
}

/// The user entity the principal `author` authored, if any.
pub fn get_agent_user(s: &Store, author: PrincipalId) -> (r: Option<Node>)
    ensures
        r == agent_user_spec(*s, author),
{
    s.first_target(Node::Principal(author), IndexTag::PrincipalUser)
}

/// The entity originals in the all-users listing, in creation order.
/// Only an administrator of users may read the full listing.
pub fn get_all_users(s: &Store, caller: PrincipalId) -> (r: Result<Vec<Node>, Error>)
    ensures
        r is Ok <==> crate::admin::agent_is_administrator_spec(*s, EntityKind::User, caller),
        r matches Ok(v) ==> v@ == link_targets(
            s.entries@,
            Node::Anchor(EntityKind::User),
            IndexTag::AllEntities,
        ),
        r matches Err(e) ==> e is PermissionDenied,
{
    if !crate::admin::check_if_agent_is_administrator(s, EntityKind::User, caller) {
        return Err(
            Error::PermissionDenied(
                String::from_str("only administrators can retrieve all users"),
            ),
        );
    }
    Ok(s.targets_of(Node::Anchor(EntityKind::User), IndexTag::AllEntities))
}

/// Create a user profile for the principal `caller`: an immutable record,
/// an entry in the all-users listing, the principal's user link, and a
/// fresh `Pending` status.  A principal can hold at most one profile.
/// Until an update is appended, the new entity resolves to this very
/// record, with the payload unchanged.
pub fn create_user(s: &mut Store, user: User, caller: PrincipalId, now: Timestamp) -> (r: Result<
    RecordId,
    Error,
>)
    requires
        old(s).wf(),
    ensures
        final(s).wf(),
        r is Ok <==> !has_link_from(
            old(s).entries@,
            Node::Principal(caller),
            IndexTag::PrincipalUser,
        ),
        r matches Err(e) ==> e is PreconditionFailed && *final(s) == *old(s),
        r matches Ok(uid) ==> uid == old(s).records@.len() && resolved_id(*final(s), uid)
            == Some(uid) && final(s).records@[uid as int].payload == Payload::User(user)
            && final(s).records@[uid as int].author == caller,
        r matches Ok(uid) ==> latest_user_of(*final(s), uid) == Some(user),
        r matches Ok(uid) ==> latest_status_of(*final(s), uid) == Some(Status::Pending)
            && agent_user_spec(*final(s), caller) == Some(Node::Record(uid)),
        r matches Ok(uid) ==> forall|s2: Node, t2: Node, g2: IndexTag|
            #[trigger] has_link(final(s).entries@, s2, t2, g2) <==> (has_link(
                old(s).entries@,
                s2,
                t2,
                g2,
            ) || (s2 == Node::Anchor(EntityKind::User) && t2 == Node::Record(uid) && g2
                == IndexTag::AllEntities) || (s2 == Node::Principal(caller) && t2 == Node::Record(
                uid,
            ) && g2 == IndexTag::PrincipalUser) || (s2 == Node::Record(uid) && t2 == Node::Record(
                (uid + 1) as RecordId,
            ) && g2 == IndexTag::EntityStatus)),
{
    if s.contains_link_from(Node::Principal(caller), IndexTag::PrincipalUser) {
        return Err(Error::PreconditionFailed(String::from_str("you already have a user profile")));
    }
    let ghost s0 = *s;
    let uid = s.put_record(
        Record { author: caller, payload: Payload::User(user), revises: None, deleted: false },
    );
    let ghost s1 = *s;
    s.put_entry(Node::Anchor(EntityKind::User), Node::Record(uid), IndexTag::AllEntities, now);
    let ghost s2 = *s;
    s.put_entry(Node::Principal(caller), Node::Record(uid), IndexTag::PrincipalUser, now);
    let ghost s3 = *s;
    let ghost e1 = IndexEntry {
        subject: Node::Anchor(EntityKind::User),
        target: Node::Record(uid),
        tag: IndexTag::AllEntities,
        at: now,
        deleted: false,
    };
    let ghost e2 = IndexEntry {
        subject: Node::Principal(caller),
        target: Node::Record(uid),
        tag: IndexTag::PrincipalUser,
        at: now,
        deleted: false,
    };
    proof {
        lemma_link_push(s1.entries@, e1);
        lemma_link_push(s2.entries@, e2);
        crate::store::lemma_first_target_push(
            s1.entries@,
            e1,
            Node::Principal(caller),
            IndexTag::PrincipalUser,
        );
        crate::store::lemma_first_target_push(
            s2.entries@,
            e2,
            Node::Principal(caller),
            IndexTag::PrincipalUser,
        );
        lemma_first_target_some(s0.entries@, Node::Principal(caller), IndexTag::PrincipalUser);
        // no status link can start at the fresh record
        if has_link_from(s3.entries@, Node::Record(uid), IndexTag::EntityStatus) {
            let i = choose|i: int|
                0 <= i < s3.entries@.len() && #[trigger] entry_matches(
                    s3.entries@[i],
                    Node::Record(uid),
                    IndexTag::EntityStatus,
                );
            if i < s0.entries@.len() {
                assert(s0.node_in_bounds(s0.entries@[i].subject));
                assert(false);
            } else {
                assert(s3.entries@[i] == e1 || s3.entries@[i] == e2);
                assert(false);
            }
        }
    }
    let st = create_status(s, EntityKind::User, uid, caller, now);
    proof {
        let ghost e3 = IndexEntry {
            subject: Node::Record(uid),
            target: Node::Record((uid + 1) as RecordId),
            tag: IndexTag::EntityStatus,
            at: now,
            deleted: false,
        };
        crate::store::lemma_first_target_push(
            s3.entries@,
            e3,
            Node::Principal(caller),
            IndexTag::PrincipalUser,
        );
        // the fresh record has no revision entries
        lemma_best_revision_push_other(s0.entries@, e1, uid);
        lemma_best_revision_push_other(s2.entries@, e2, uid);
        lemma_best_revision_push_other(s3.entries@, e3, uid);
        lemma_best_revision_upto_props(s0.entries@, uid, s0.entries@.len() as int);
        match crate::resolve::best_revision(s0.entries@, uid) {
            Some(j) => {
                assert(entry_matches(s0.entries@[j], Node::Record(uid), IndexTag::Revision));
                assert(s0.node_in_bounds(s0.entries@[j].subject));
                assert(false);
            },
            None => {},
        }
    }
    match st {
        Ok(_) => Ok(uid),
        Err(e) => {
            proof {
                assert(false);
            }
            Err(e)
        },
    }
}

/// The current user profile of the entity `orig`: the payload of the
/// record its revision chain resolves to.
pub fn get_latest_user<'a>(s: &'a Store, orig: RecordId) -> (r: Result<&'a User, Error>)
    ensures
        (match resolved_id(*s, orig) {
            Some(id) => (match s.records@[id as int].payload {
                Payload::User(u) => r matches Ok(p) && *p == u,
                Payload::Organization(_) => r matches Err(e) && e is MalformedState,
                Payload::Status(_) => r matches Err(e) && e is MalformedState,
            }),
            None => r matches Err(e) && e is NotFound,
        }),
        r matches Ok(p) ==> latest_user_of(*s, orig) == Some(*p),
{
    match resolve_latest_id(s, orig) {
        Some(id) => {
            let rec = &s.records[id];
            match &rec.payload {
                Payload::User(u) => Ok(u),
                _ => Err(
                    Error::MalformedState(
                        String::from_str("the record is not a user profile"),
                    ),
                ),
            }
        },
        None => Err(Error::NotFound(String::from_str("could not find the latest user profile"))),
    }
}

/// Append a revision of the user entity `orig` carrying the profile
/// `new_user`.  Only the author of the original record may update it; once
/// the new revision entry is the latest one visible, the entity resolves
/// to it.
pub fn update_user(
    s: &mut Store,
    orig: RecordId,
    new_user: User,
    caller: PrincipalId,
    now: Timestamp,
) -> (r: Result<RecordId, Error>)
    requires
        old(s).wf(),
    ensures
        final(s).wf(),
        r is Ok <==> orig < old(s).records@.len() && !old(s).records@[orig as int].deleted
            && old(s).records@[orig as int].author == caller && resolved_id(*old(s), orig)
            is Some,
        r matches Err(e) ==> *final(s) == *old(s),
        r matches Err(e) ==> ((orig >= old(s).records@.len()
            || old(s).records@[orig as int].deleted) ==> e is NotFound),
        r matches Err(e) ==> (orig < old(s).records@.len() && !old(s).records@[orig as int].deleted
            && old(s).records@[orig as int].author != caller ==> e is PermissionDenied),
        r matches Err(e) ==> (orig < old(s).records@.len() && !old(s).records@[orig as int].deleted
            && old(s).records@[orig as int].author == caller && resolved_id(*old(s), orig) is None
            ==> e is NotFound),
        r matches Ok(nid) ==> nid == old(s).records@.len() && final(s).records@ == old(s)
            .records@.push(
            (Record {
                author: caller,
                payload: Payload::User(new_user),
                revises: resolved_id(*old(s), orig),
                deleted: false,
            }),
        ),
        r matches Ok(nid) ==> (stamps_at_most(old(s).entries@, Node::Record(orig), IndexTag::Revision, now)
            ==> resolved_id(*final(s), orig) == Some(nid) && latest_user_of(*final(s), orig)
            == Some(new_user)),
        r matches Ok(nid) ==> forall|s2: Node, t2: Node, g2: IndexTag|
            #[trigger] has_link(final(s).entries@, s2, t2, g2) <==> (has_link(
                old(s).entries@,
                s2,
                t2,
                g2,
            ) || (s2 == Node::Record(orig) && t2 == Node::Record(nid) && g2 == IndexTag::Revision)),
{
    let author_ok: bool = match s.get_record(orig) {
        Some(rec) => rec.author == caller,
        None => {
            return Err(
                Error::NotFound(String::from_str("could not find the user profile")),
            );
        },
    };
    if !author_ok {
        return Err(
            Error::PermissionDenied(
                String::from_str("only the author of a user profile can update it"),
            ),
        );
    }
    let prev = match resolve_latest_id(s, orig) {
        Some(p) => p,
        None => {
            return Err(
                Error::NotFound(String::from_str("could not find the latest user profile")),
            );
        },
    };
    let ghost s0 = *s;
    let nid = s.put_record(
        Record {
            author: caller,
            payload: Payload::User(new_user),
            revises: Some(prev),
            deleted: false,
        },
    );
    let ghost s1 = *s;
    s.put_entry(Node::Record(orig), Node::Record(nid), IndexTag::Revision, now);
    proof {
        let e = IndexEntry {
            subject: Node::Record(orig),
            target: Node::Record(nid),
            tag: IndexTag::Revision,
            at: now,
            deleted: false,
        };
        lemma_link_push(s1.entries@, e);
        if stamps_at_most(s0.entries@, Node::Record(orig), IndexTag::Revision, now) {
            lemma_best_revision_push_latest(s1.entries@, e, orig);
            assert(s.entries@[s1.entries@.len() as int] == e);
        }
    }
    Ok(nid)
}


/// The principals that author the user entity `user`: the subjects of the
/// live principal-to-user links onto it, in the order they were written.
pub fn get_user_agents(s: &Store, user: RecordId) -> (v: Vec<Node>)
    ensures
        v@ == crate::store::link_sources(s.entries@, Node::Record(user), IndexTag::PrincipalUser),
{
    s.sources_of(Node::Record(user), IndexTag::PrincipalUser)
}


/// The record the revision chain of the user entity `orig` currently
/// resolves to.
pub fn get_latest_user_record<'a>(s: &'a Store, orig: RecordId) -> (r: Result<
    &'a crate::store::Record,
    Error,
>)
    ensures
        (match resolved_id(*s, orig) {
            Some(id) => r matches Ok(rec) && *rec == s.records@[id as int],
            None => r matches Err(e) && e is NotFound,
        }),
{
    crate::resolve::get_latest_record(s, orig)
}

} // verus!
